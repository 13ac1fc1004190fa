//! Whole programs and libraries: imports are replaced by what they import, and uses of macros
//! by what they stand for.
//!
//! Nothing is read here. What the files of libraries hold is handed in by the caller; where that
//! is not known yet, expansion stops and says which library it needs.
use crate::error::{CompileError, Problem};
use crate::expand::declarations::{
    collect_top_level_names_in_items, defined_name, export_declaration, export_names, import_declaration,
    imports_of, keyword_items, library_form, names_in_items, parse_begin_declaration, parse_define_library_form,
    parse_define_name, parse_define_syntax, parse_export, parse_import, syntax_definition, ExportSpec, Import,
    ImportSet, SyntaxRules, Transformer,
};
use crate::expand::expressions::{expand_expr, expanded, Macros};
use crate::expand::forms::{alias_form, expand_error_with, list_items, make_alias_definition};
use crate::expand::imports::{
    imported_exports, imported_library, imported_names, replaced, replacement_for, Library, LoadedLibrary,
};
use crate::expand::outcome::{fresh_name, halted, Growth, Halt, NameSource, Stop};
use crate::expand::rename::{rename_items, rename_library_expr, renamed, renamed_items};
use crate::expand::shelf::{
    contains_row, lemma_outside, outside, row_texts, same_names, shelved, Shelf,
};
use crate::frontend::ast::{forms_of, lemma_list_form, Expr, ExprKind, Form, Program, Span};
use crate::frontend::parser::{parse_program, parsed};
use crate::names::{ascending, clone_names, name_texts, sorted, Duplicate, NameMap, NameSet};
use crate::text::{join, join3, join5};
use vstd::prelude::*;

verus! {

broadcast use vstd::seq_lib::group_seq_properties;

/// What is known of the file of a library.
pub enum LibraryFile {
    /// There is none.
    Missing,
    /// There is one, but it cannot be read.
    Unreadable { path: String, message: String },
    /// What it holds.
    Source { path: String, text: String },
}

/// The meaning of a `LibraryFile`.
pub enum FileText {
    Missing,
    Unreadable { path: Seq<char>, message: Seq<char> },
    Source { path: Seq<char>, text: Seq<char> },
}

impl View for LibraryFile {
    type V = FileText;

    open spec fn view(&self) -> FileText {
        match *self {
            LibraryFile::Missing => FileText::Missing,
            LibraryFile::Unreadable { path, message } => FileText::Unreadable {
                path: path@,
                message: message@,
            },
            LibraryFile::Source { path, text } => FileText::Source { path: path@, text: text@ },
        }
    }
}

/// What is known of the files of libraries.
pub type Files = Seq<(Seq<Seq<char>>, FileText)>;

/// How far expansion has come: how many new names there are, and the libraries that were read.
pub struct Progress {
    pub counter: nat,
    pub libraries: Seq<(Seq<Seq<char>>, Library)>,
}

/// What the forms of a program or library come to: the forms, the macros, what the names of
/// values are called, and the libraries whose forms are among the forms.
pub struct TopLevel {
    pub forms: Seq<Form>,
    pub macros: Macros,
    pub values: Map<Seq<char>, Seq<char>>,
    pub imported: Seq<Seq<Seq<char>>>,
}

/// What a step leads to.
pub type Step<T> = Result<(Progress, T), Stop>;

/// Names with a separator between them.
pub open spec fn joined(names: Seq<Seq<char>>, separator: Seq<char>) -> Seq<char>
    decreases names.len(),
{
    if names.len() == 0 {
        Seq::empty()
    } else if names.len() == 1 {
        names[0]
    } else {
        joined(names.drop_last(), separator) + separator + names.last()
    }
}

/// What a library calls what it defines, outside of it.
pub open spec fn internal_name(library: Seq<Seq<char>>, symbol: Seq<char>) -> Seq<char> {
    "__lib_"@ + joined(library, "_"@) + "_"@ + symbol
}

/// What everything that a library defines is called.
pub open spec fn library_renaming(library: Seq<Seq<char>>, names: Set<Seq<char>>) -> Map<Seq<char>, Seq<char>> {
    Map::new(|symbol: Seq<char>| names.contains(symbol), |symbol: Seq<char>| internal_name(library, symbol))
}

/// Definitions of the values, in ascending order of their names.
#[verifier::opaque]
pub open spec fn alias_forms(values: Map<Seq<char>, Seq<char>>, span: Span) -> Seq<Form> {
    ascending(values.dom()).map_values(|name: Seq<char>| alias_form(name, values[name], span))
}

/// New names for the values from one on, with definitions of them.
pub open spec fn captured_from(
    values: Map<Seq<char>, Seq<char>>,
    names: Seq<Seq<char>>,
    index: nat,
    span: Span,
    forms: Seq<Form>,
    found: Map<Seq<char>, Seq<char>>,
    counter: nat,
) -> Growth<(Seq<Form>, Map<Seq<char>, Seq<char>>)>
    decreases names.len() - index,
{
    if index >= names.len() {
        Ok((counter, (forms, found)))
    } else {
        match fresh_name("__macro_ref_"@, names[index as int], counter) {
            Err(stop) => Err(stop),
            Ok((counter, alias)) => captured_from(
                values,
                names,
                index + 1,
                span,
                forms.push(alias_form(alias, values[names[index as int]], span)),
                found.insert(names[index as int], alias),
                counter,
            ),
        }
    }
}

/// A macro with new names for all values that are there where it is defined. The forms get the
/// definitions of the new names.
#[verifier::opaque]
pub open spec fn captured(rules: Transformer, top: TopLevel, span: Span, counter: nat) -> Growth<
    (Seq<Form>, Transformer),
> {
    match captured_from(
        top.values,
        ascending(top.values.dom()),
        0,
        span,
        top.forms,
        Map::empty(),
        counter,
    ) {
        Err(stop) => Err(stop),
        Ok((counter, (forms, values))) => Ok((counter, (forms, Transformer { values, ..rules }))),
    }
}

/// A macro under a name that no macro has yet.
pub open spec fn with_macro(macros: Macros, name: Seq<char>, rules: Transformer) -> Result<Macros, Problem> {
    if macros.contains_key(name) {
        Err(Problem::Expand("duplicate macro binding for '"@ + name + "'"@))
    } else {
        Ok(macros.insert(name, rules))
    }
}

/// The macros, and those added from one name on.
pub open spec fn with_macros(macros: Macros, added: Macros, names: Seq<Seq<char>>, index: nat) -> Result<
    Macros,
    Problem,
>
    decreases names.len() - index,
{
    if index >= names.len() {
        Ok(macros)
    } else {
        match with_macro(macros, names[index as int], added[names[index as int]]) {
            Err(problem) => Err(problem),
            Ok(macros) => with_macros(macros, added, names, index + 1),
        }
    }
}

/// What a library comes to where it is imported.
#[verifier::opaque]
pub open spec fn with_import(import: Import, library: Library, top: TopLevel, span: Span) -> Result<TopLevel, Problem> {
    match imported_names(import, library) {
        Err(problem) => Err(problem),
        Ok(_) => {
            let name = imported_library(import);
            let known = top.imported.contains(name);
            match imported_exports(import, library.values) {
                Err(problem) => Err(problem),
                Ok(values) => match imported_exports(import, library.macros) {
                    Err(problem) => Err(problem),
                    Ok(macros) => match with_macros(top.macros, macros, ascending(macros.dom()), 0) {
                        Err(problem) => Err(problem),
                        Ok(macros) => Ok(
                            TopLevel {
                                forms: if known { top.forms } else { top.forms + library.forms } + alias_forms(
                                    values,
                                    span,
                                ),
                                macros,
                                values: top.values.union_prefer_right(values),
                                imported: if known { top.imported } else { top.imported.push(name) },
                            },
                        ),
                    },
                },
            }
        },
    }
}

/// What a library file says: the form of the library.
#[verifier::opaque]
pub open spec fn library_source(name: Seq<Seq<char>>, path: Seq<char>, text: Seq<char>) -> Result<Form, Problem> {
    match parsed(text) {
        Err(problem) => Err(problem),
        Ok(forms) => if forms.len() != 1 {
            Err(Problem::Expand("library file must contain exactly one define-library form"@))
        } else {
            match library_form(forms[0]) {
                None => Err(Problem::Expand("library file must contain a define-library form"@)),
                Some(found) => if found != name {
                    Err(
                        Problem::Expand(
                            "library file "@ + path + " defines ("@ + joined(found, " "@)
                                + ") but was imported as ("@ + joined(name, " "@) + ")"@,
                        ),
                    )
                } else {
                    Ok(forms[0])
                },
            }
        },
    }
}

/// A library, read from its file unless it was read before.
pub open spec fn loaded(files: Files, name: Seq<Seq<char>>, active: Seq<Seq<Seq<char>>>, progress: Progress, limit: nat) -> Step<
    Library,
>
    decreases outside(files, active), 10nat, 0nat,
{
    if shelved(progress.libraries, name) is Some {
        Ok((progress, shelved(progress.libraries, name)->0))
    } else if active.contains(name) {
        Err(
            Stop::Failed(
                Problem::Expand("cyclic library import detected for ("@ + joined(name, " "@) + ")"@),
            ),
        )
    } else {
        match shelved(files, name) {
            None => Err(Stop::Needs(name)),
            Some(FileText::Missing) => Err(
                Stop::Failed(Problem::Expand("could not resolve library ("@ + joined(name, " "@) + ")"@)),
            ),
            Some(FileText::Unreadable { path, message }) => Err(
                Stop::Failed(Problem::Io { path: Some(path), message }),
            ),
            Some(FileText::Source { path, text }) => match library_source(name, path, text) {
                Err(problem) => Err(Stop::Failed(problem)),
                Ok(form) => {
                    proof {
                        lemma_outside(files, active, name);
                    }
                    match declared(files, form, name, active.push(name), progress, limit) {
                        Err(stop) => Err(stop),
                        Ok((progress, library)) => Ok(
                            (
                                Progress { libraries: progress.libraries.push((name, library)), ..progress },
                                library,
                            ),
                        ),
                    }
                },
            },
        }
    }
}

/// What comes of the imports from one on.
pub open spec fn with_imports(
    files: Files,
    imports: Seq<Import>,
    index: nat,
    span: Span,
    active: Seq<Seq<Seq<char>>>,
    top: TopLevel,
    progress: Progress,
    limit: nat,
) -> Step<TopLevel>
    decreases outside(files, active), 20nat, imports.len() - index,
{
    if index >= imports.len() {
        Ok((progress, top))
    } else {
        match loaded(files, imported_library(imports[index as int]), active, progress, limit) {
            Err(stop) => Err(stop),
            Ok((progress, library)) => match with_import(imports[index as int], library, top, span) {
                Err(problem) => Err(Stop::Failed(problem)),
                Ok(top) => with_imports(files, imports, index + 1, span, active, top, progress, limit),
            },
        }
    }
}

/// What comes of a form that is neither an import nor a macro definition.
#[verifier::opaque]
pub open spec fn with_plain_form(form: Form, top: TopLevel, limit: nat, counter: nat) -> Growth<TopLevel> {
    if library_form(form) is Some {
        Err(
            Stop::Failed(
                Problem::Expand("define-library is only valid as the whole contents of a library file"@),
            ),
        )
    } else {
        match expanded(form, top.macros, limit, counter) {
            Err(stop) => Err(stop),
            Ok((counter, form)) => match defined_name(form) {
                Err(problem) => Err(Stop::Failed(problem)),
                Ok(name) => Ok(
                    (
                        counter,
                        TopLevel {
                            forms: top.forms.push(form),
                            values: match name {
                                Some(name) => top.values.insert(name, name),
                                None => top.values,
                            },
                            ..top
                        },
                    ),
                ),
            },
        }
    }
}

/// What comes of a form.
pub open spec fn with_form(files: Files, form: Form, active: Seq<Seq<Seq<char>>>, top: TopLevel, progress: Progress, limit: nat) -> Step<
    TopLevel,
>
    decreases outside(files, active), 30nat, 0nat,
{
    match syntax_definition(form, top.values) {
        Err(problem) => Err(Stop::Failed(problem)),
        Ok(Some((name, rules))) => match captured(rules, top, form.span, progress.counter) {
            Err(stop) => Err(stop),
            Ok((counter, (forms, rules))) => Ok(
                (
                    Progress { counter, ..progress },
                    TopLevel { forms, macros: top.macros.insert(name, rules), ..top },
                ),
            ),
        },
        Ok(None) => match import_declaration(form) {
            Err(problem) => Err(Stop::Failed(problem)),
            Ok(Some(imports)) => with_imports(files, imports, 0, form.span, active, top, progress, limit),
            Ok(None) => match with_plain_form(form, top, limit, progress.counter) {
                Err(stop) => Err(stop),
                Ok((counter, top)) => Ok((Progress { counter, ..progress }, top)),
            },
        },
    }
}

/// What comes of the forms from one on.
pub open spec fn with_forms(
    files: Files,
    forms: Seq<Form>,
    index: nat,
    active: Seq<Seq<Seq<char>>>,
    top: TopLevel,
    progress: Progress,
    limit: nat,
) -> Step<TopLevel>
    decreases outside(files, active), 40nat, forms.len() - index,
{
    if index >= forms.len() {
        Ok((progress, top))
    } else {
        match with_form(files, forms[index as int], active, top, progress, limit) {
            Err(stop) => Err(stop),
            Ok((progress, top)) => with_forms(files, forms, index + 1, active, top, progress, limit),
        }
    }
}

/// What comes of a declaration of a library that is neither export, import nor `begin`.
#[verifier::opaque]
pub open spec fn with_library_form(form: Form, renaming: Map<Seq<char>, Seq<char>>, top: TopLevel, limit: nat, counter: nat) -> Growth<
    TopLevel,
> {
    match renamed(form, renaming, Set::empty()) {
        Err(problem) => Err(Stop::Failed(problem)),
        Ok(renamed) => match syntax_definition(renamed, top.values) {
            Err(problem) => Err(Stop::Failed(problem)),
            Ok(Some((name, rules))) => match captured(rules, top, form.span, counter) {
                Err(stop) => Err(stop),
                Ok((counter, (forms, rules))) => match with_macro(top.macros, name, rules) {
                    Err(problem) => Err(Stop::Failed(problem)),
                    Ok(macros) => Ok((counter, TopLevel { forms, macros, ..top })),
                },
            },
            Ok(None) => match defined_name(renamed) {
                Err(problem) => Err(Stop::Failed(problem)),
                Ok(name) => match expanded(renamed, top.macros, limit, counter) {
                    Err(stop) => Err(stop),
                    Ok((counter, form)) => Ok(
                        (
                            counter,
                            TopLevel {
                                forms: top.forms.push(form),
                                values: match name {
                                    Some(name) => top.values.insert(name, name),
                                    None => top.values,
                                },
                                ..top
                            },
                        ),
                    ),
                },
            },
        },
    }
}

/// What comes of a declaration of a library: the exports so far, and the rest.
pub open spec fn with_declaration(
    files: Files,
    form: Form,
    renaming: Map<Seq<char>, Seq<char>>,
    active: Seq<Seq<Seq<char>>>,
    exports: Seq<(Seq<char>, Seq<char>)>,
    top: TopLevel,
    progress: Progress,
    limit: nat,
) -> Step<(Seq<(Seq<char>, Seq<char>)>, TopLevel)>
    decreases outside(files, active), 50nat, 0nat,
{
    match export_declaration(form) {
        Err(problem) => Err(Stop::Failed(problem)),
        Ok(Some(more)) => Ok((progress, (exports + more, top))),
        Ok(None) => match import_declaration(form) {
            Err(problem) => Err(Stop::Failed(problem)),
            Ok(Some(imports)) => match with_imports(
                files,
                imports,
                0,
                form.span,
                active,
                top,
                progress,
                limit,
            ) {
                Err(stop) => Err(stop),
                Ok((progress, top)) => Ok((progress, (exports, top))),
            },
            Ok(None) => if keyword_items(form, "begin"@) is Some {
                match renamed_items(form, 1, renaming, Set::empty()) {
                    Err(problem) => Err(Stop::Failed(problem)),
                    Ok(forms) => match with_forms(files, forms, 0, active, top, progress, limit) {
                        Err(stop) => Err(stop),
                        Ok((progress, top)) => Ok((progress, (exports, top))),
                    },
                }
            } else {
                match with_library_form(form, renaming, top, limit, progress.counter) {
                    Err(stop) => Err(stop),
                    Ok((counter, top)) => Ok((Progress { counter, ..progress }, (exports, top))),
                }
            },
        },
    }
}

/// What comes of the declarations of a library from one on.
pub open spec fn with_declarations(
    files: Files,
    form: Form,
    index: nat,
    renaming: Map<Seq<char>, Seq<char>>,
    active: Seq<Seq<Seq<char>>>,
    exports: Seq<(Seq<char>, Seq<char>)>,
    top: TopLevel,
    progress: Progress,
    limit: nat,
) -> Step<(Seq<(Seq<char>, Seq<char>)>, TopLevel)>
    decreases outside(files, active), 60nat, list_items(form).len() - index,
{
    if index >= list_items(form).len() {
        Ok((progress, (exports, top)))
    } else {
        match with_declaration(
            files,
            list_items(form)[index as int],
            renaming,
            active,
            exports,
            top,
            progress,
            limit,
        ) {
            Err(stop) => Err(stop),
            Ok((progress, (exports, top))) => with_declarations(
                files,
                form,
                index + 1,
                renaming,
                active,
                exports,
                top,
                progress,
                limit,
            ),
        }
    }
}

/// The values and macros that exports from one on hand out.
pub open spec fn exported(
    exports: Seq<(Seq<char>, Seq<char>)>,
    index: nat,
    renaming: Map<Seq<char>, Seq<char>>,
    macros: Macros,
    found_values: Map<Seq<char>, Seq<char>>,
    found_macros: Macros,
) -> Result<(Map<Seq<char>, Seq<char>>, Macros), Problem>
    decreases exports.len() - index,
{
    if index >= exports.len() {
        Ok((found_values, found_macros))
    } else {
        let external = exports[index as int].0;
        let internal = replaced(exports[index as int].1, renaming);
        if macros.contains_key(internal) {
            match with_macro(found_macros, external, macros[internal]) {
                Err(problem) => Err(problem),
                Ok(found_macros) => exported(exports, index + 1, renaming, macros, found_values, found_macros),
            }
        } else if found_values.contains_key(external) {
            Err(Problem::Expand("duplicate value binding for '"@ + external + "'"@))
        } else {
            exported(
                exports,
                index + 1,
                renaming,
                macros,
                found_values.insert(external, internal),
                found_macros,
            )
        }
    }
}

/// A scope in which there is nothing yet.
pub open spec fn empty_top_level() -> TopLevel {
    TopLevel { forms: Seq::empty(), macros: Map::empty(), values: Map::empty(), imported: Seq::empty() }
}

/// What the declarations of a library come to.
pub open spec fn declared(
    files: Files,
    form: Form,
    name: Seq<Seq<char>>,
    active: Seq<Seq<Seq<char>>>,
    progress: Progress,
    limit: nat,
) -> Step<Library>
    decreases outside(files, active), 70nat, 0nat,
{
    match names_in_items(form, 2, Set::empty()) {
        Err(problem) => Err(Stop::Failed(problem)),
        Ok(names) => match with_declarations(
            files,
            form,
            2,
            library_renaming(name, names),
            active,
            Seq::empty(),
            empty_top_level(),
            progress,
            limit,
        ) {
            Err(stop) => Err(stop),
            Ok((progress, (exports, top))) => match exported(
                exports,
                0,
                library_renaming(name, names),
                top.macros,
                Map::empty(),
                Map::empty(),
            ) {
                Err(problem) => Err(Stop::Failed(problem)),
                Ok((values, macros)) => Ok((progress, Library { forms: top.forms, values, macros })),
            },
        },
    }
}

/// A program without imports and uses of macros. A program that is one library stands for the
/// forms of the library.
pub open spec fn expanded_program(files: Files, forms: Seq<Form>, limit: nat) -> Result<Seq<Form>, Stop> {
    let start = Progress { counter: 0, libraries: Seq::empty() };
    if forms.len() == 1 && library_form(forms[0]) is Some {
        match declared(files, forms[0], library_form(forms[0])->0, Seq::empty(), start, limit) {
            Err(stop) => Err(stop),
            Ok((progress, library)) => Ok(library.forms),
        }
    } else {
        match with_forms(files, forms, 0, Seq::empty(), empty_top_level(), start, limit) {
            Err(stop) => Err(stop),
            Ok((progress, top)) => Ok(top.forms),
        }
    }
}

/// The forms, macros and names of a program or library that is being expanded.
pub struct TopScope {
    pub forms: Vec<Expr>,
    pub macros: NameMap<SyntaxRules>,
    pub values: NameMap<String>,
    pub imported: Vec<Vec<String>>,
}

impl View for TopScope {
    type V = TopLevel;

    open spec fn view(&self) -> TopLevel {
        TopLevel {
            forms: forms_of(self.forms@),
            macros: self.macros@,
            values: self.values@,
            imported: row_texts(self.imported@),
        }
    }
}

impl TopScope {
    fn new() -> (scope: TopScope)
        ensures
            scope@ == empty_top_level(),
    {
        let scope = TopScope {
            forms: Vec::new(),
            macros: NameMap::new(),
            values: NameMap::new(),
            imported: Vec::new(),
        };
        assert(scope@.forms =~= Seq::<Form>::empty());
        assert(scope@.imported =~= Seq::<Seq<Seq<char>>>::empty());
        scope
    }

    fn push(&mut self, form: Expr)
        ensures
            final(self)@ == (TopLevel { forms: old(self)@.forms.push(form@), ..old(self)@ }),
    {
        self.forms.push(form);
        assert(self@.forms =~= old(self)@.forms.push(form@));
    }
}

/// Names with a separator between them.
pub fn join_names(names: &Vec<String>, separator: &str) -> (text: String)
    ensures
        text@ == joined(name_texts(names@), separator@),
{
    if names.len() == 0 {
        let none = "".to_owned();
        proof {
            reveal_strlit("");
        }
        assert(none@ =~= Seq::<char>::empty());
        return none;
    }
    let mut text = names[0].clone();
    let mut index: usize = 1;
    assert(name_texts(names@).subrange(0, 1) =~= seq![names@[0]@]);
    while index < names.len()
        invariant
            1 <= index <= names@.len(),
            text@ == joined(name_texts(names@).subrange(0, index as int), separator@),
        decreases names@.len() - index,
    {
        text = join3(text.as_str(), separator, names[index].as_str());
        proof {
            let next = name_texts(names@).subrange(0, index + 1);
            assert(next.drop_last() =~= name_texts(names@).subrange(0, index as int));
            assert(next.last() == names@[index as int]@);
        }
        index = index + 1;
    }
    assert(name_texts(names@).subrange(0, names@.len() as int) =~= name_texts(names@));
    text
}

fn rename_map_for(library: &Vec<String>, names: &NameSet) -> (renaming: NameMap<String>)
    ensures
        renaming@ == library_renaming(name_texts(library@), names@),
{
    let prefix = join3("__lib_", join_names(library, "_").as_str(), "_");
    let mut renaming: NameMap<String> = NameMap::new();
    let mut index: usize = 0;
    assert(renaming@ =~= library_renaming(
        name_texts(library@),
        name_texts(names.names@.subrange(0, 0)).to_set(),
    ));
    while index < names.names.len()
        invariant
            index <= names.names@.len(),
            prefix@ == "__lib_"@ + joined(name_texts(library@), "_"@) + "_"@,
            renaming@ == library_renaming(
                name_texts(library@),
                name_texts(names.names@.subrange(0, index as int)).to_set(),
            ),
        decreases names.names@.len() - index,
    {
        let symbol = names.names[index].clone();
        let internal = join(prefix.as_str(), symbol.as_str());
        renaming.insert(symbol, internal);
        proof {
            let added = names.names@[index as int]@;
            let shorter = name_texts(names.names@.subrange(0, index as int));
            let next = name_texts(names.names@.subrange(0, index + 1));
            assert(next =~= shorter.push(added));
            assert forall|x: Seq<char>| next.contains(x) <==> shorter.contains(x) || x == added by {
                if shorter.contains(x) {
                    let k = choose|k: int| 0 <= k < shorter.len() && shorter[k] == x;
                    assert(next[k] == x);
                }
                assert(next[index as int] == added);
            }
            assert(internal@ == internal_name(name_texts(library@), added));
            assert(renaming@ =~= library_renaming(name_texts(library@), next.to_set()));
        }
        index = index + 1;
    }
    assert(names.names@.subrange(0, names.names@.len() as int) =~= names.names@);
    renaming
}

fn insert_unique_macro(macros: &mut NameMap<SyntaxRules>, name: String, rules: SyntaxRules) -> (result: Result<
    (),
    CompileError,
>)
    ensures
        match result {
            Ok(_) => with_macro(old(macros)@, name@, rules@) == Ok::<Macros, Problem>(final(macros)@),
            Err(error) => with_macro(old(macros)@, name@, rules@) == Err::<Macros, Problem>(error@),
        },
{
    if macros.contains_key(name.as_str()) {
        return expand_error_with(join3("duplicate macro binding for '", name.as_str(), "'"));
    }
    macros.insert(name, rules);
    Ok(())
}

fn push_aliases(forms: &mut Vec<Expr>, values: &NameMap<String>, span: Span)
    ensures
        forms_of(final(forms)@) == forms_of(old(forms)@) + alias_forms(values@, span),
{
    reveal(alias_forms);
    let names = values.key_set();
    let order = sorted(&names);
    let mut index: usize = 0;
    let ghost aliases = alias_forms(values@, span);
    assert(forms_of(forms@) =~= forms_of(old(forms)@) + aliases.subrange(0, 0));
    while index < order.len()
        invariant
            index <= order@.len(),
            name_texts(order@) == ascending(values@.dom()),
            forall|i: int| 0 <= i < order@.len() ==> values@.contains_key((#[trigger] order@[i])@),
            aliases == alias_forms(values@, span),
            aliases.len() == order@.len(),
            forms_of(forms@) == forms_of(old(forms)@) + aliases.subrange(0, index as int),
        decreases order@.len() - index,
    {
        reveal(alias_forms);
        assert(name_texts(order@)[index as int] == order@[index as int]@);
        let ghost done = forms_of(forms@);
        if let Some(internal) = values.get(order[index].as_str()) {
            let alias = make_alias_definition(order[index].as_str(), internal.as_str(), span);
            forms.push(alias);
            assert(forms_of(forms@) =~= done.push(alias@));
            assert(alias@ == aliases[index as int]);
            assert(forms_of(forms@) =~= forms_of(old(forms)@) + aliases.subrange(0, index + 1));
        }
        index = index + 1;
    }
    assert(aliases.subrange(0, aliases.len() as int) =~= aliases);
}

fn insert_macros(macros: &mut NameMap<SyntaxRules>, added: &NameMap<SyntaxRules>) -> (result: Result<(), CompileError>)
    ensures
        match result {
            Ok(_) => with_macros(old(macros)@, added@, ascending(added@.dom()), 0) == Ok::<Macros, Problem>(
                final(macros)@,
            ),
            Err(error) => with_macros(old(macros)@, added@, ascending(added@.dom()), 0) == Err::<
                Macros,
                Problem,
            >(error@),
        },
{
    let names = added.key_set();
    let order = sorted(&names);
    let mut index: usize = 0;
    while index < order.len()
        invariant
            index <= order@.len(),
            name_texts(order@) == ascending(added@.dom()),
            forall|i: int| 0 <= i < order@.len() ==> added@.contains_key((#[trigger] order@[i])@),
            with_macros(old(macros)@, added@, ascending(added@.dom()), 0) == with_macros(
                macros@,
                added@,
                ascending(added@.dom()),
                index as nat,
            ),
        decreases order@.len() - index,
    {
        assert(name_texts(order@)[index as int] == order@[index as int]@);
        if let Some(rules) = added.get(order[index].as_str()) {
            insert_unique_macro(macros, order[index].clone(), rules.duplicate())?;
        }
        index = index + 1;
    }
    Ok(())
}

/// Adds what an import set brings in from a library.
fn apply_import(import: &ImportSet, library: &LoadedLibrary, scope: &mut TopScope, span: Span) -> (result: Result<
    (),
    CompileError,
>)
    ensures
        match result {
            Ok(_) => with_import(import@, library@, old(scope)@, span) == Ok::<TopLevel, Problem>(
                final(scope)@,
            ),
            Err(error) => with_import(import@, library@, old(scope)@, span) == Err::<TopLevel, Problem>(error@),
        },
{
    reveal(with_import);
    import.apply_names(library)?;
    let name = clone_names(import.library_name());
    let ghost start = scope@;
    if !contains_row(&scope.imported, &name) {
        scope.imported.push(name);
        assert(row_texts(scope.imported@) =~= start.imported.push(name_texts(name@)));
        let copy = library.duplicate();
        let mut more = copy.forms;
        let ghost added = forms_of(more@);
        scope.forms.append(&mut more);
        assert(forms_of(scope.forms@) =~= start.forms + added);
    }
    let values = import.apply_values(library)?;
    scope.values.extend(&values);
    push_aliases(&mut scope.forms, &values, span);
    let macros = import.apply_macros(library)?;
    insert_macros(&mut scope.macros, &macros)?;
    Ok(())
}

/// Expands programs: what is known of files, how often macros may expand to macros, the
/// libraries that were read, and the source of new names.
pub struct Expander<'a> {
    pub files: &'a Shelf<LibraryFile>,
    pub limit: usize,
    pub libraries: Shelf<LoadedLibrary>,
    pub names: NameSource,
}

impl<'a> View for Expander<'a> {
    type V = Progress;

    open spec fn view(&self) -> Progress {
        Progress { counter: self.names@, libraries: self.libraries@ }
    }
}

/// Whether a method did what is expected of it.
pub open spec fn stepped<'a, V: View>(
    result: Result<V, Halt>,
    before: Expander<'a>,
    after: Expander<'a>,
    expected: Step<V::V>,
) -> bool {
    &&& after.files == before.files
    &&& after.limit == before.limit
    &&& match result {
        Ok(value) => expected == Ok::<(Progress, V::V), Stop>((after@, value@)),
        Err(halt) => expected == Err::<(Progress, V::V), Stop>(halt@),
    }
}

/// The same of a method that changes a scope.
pub open spec fn stepped_to<'a>(
    result: Result<(), Halt>,
    before: Expander<'a>,
    after: Expander<'a>,
    top: TopLevel,
    expected: Step<TopLevel>,
) -> bool {
    &&& after.files == before.files
    &&& after.limit == before.limit
    &&& match result {
        Ok(_) => expected == Ok::<(Progress, TopLevel), Stop>((after@, top)),
        Err(halt) => expected == Err::<(Progress, TopLevel), Stop>(halt@),
    }
}

impl<'a> Expander<'a> {
    /// An expander that has read no library yet.
    pub fn new(files: &'a Shelf<LibraryFile>, limit: usize) -> (expander: Self)
        ensures
            expander@ == (Progress { counter: 0, libraries: Seq::empty() }),
            expander.files == files,
            expander.limit == limit,
    {
        Expander { files, limit, libraries: Shelf::new(), names: NameSource { counter: 0 } }
    }

    fn materialize_macro_definition_values(&mut self, rules: SyntaxRules, scope: &mut TopScope, span: Span) -> (result: Result<
        SyntaxRules,
        Halt,
    >)
        ensures
            final(self).files == old(self).files,
            final(self).limit == old(self).limit,
            final(self).libraries == old(self).libraries,
            match result {
                Ok(captured_rules) => captured(rules@, old(scope)@, span, old(self)@.counter) == Ok::<
                    (nat, (Seq<Form>, Transformer)),
                    Stop,
                >((final(self)@.counter, (final(scope)@.forms, captured_rules@))) && final(scope)@
                    == (TopLevel { forms: final(scope)@.forms, ..old(scope)@ }),
                Err(halt) => captured(rules@, old(scope)@, span, old(self)@.counter) == Err::<
                    (nat, (Seq<Form>, Transformer)),
                    Stop,
                >(halt@),
            },
    {
        reveal(captured);
        let keys = scope.values.key_set();
        let order = sorted(&keys);
        let mut found: NameMap<String> = NameMap::new();
        let mut index: usize = 0;
        while index < order.len()
            invariant
                index <= order@.len(),
                self.files == old(self).files,
                self.limit == old(self).limit,
                self.libraries == old(self).libraries,
                scope@ == (TopLevel { forms: scope@.forms, ..old(scope)@ }),
                name_texts(order@) == ascending(old(scope)@.values.dom()),
                forall|i: int|
                    0 <= i < order@.len() ==> old(scope)@.values.contains_key((#[trigger] order@[i])@),
                captured_from(
                    old(scope)@.values,
                    ascending(old(scope)@.values.dom()),
                    0,
                    span,
                    old(scope)@.forms,
                    Map::empty(),
                    old(self)@.counter,
                ) == captured_from(
                    old(scope)@.values,
                    ascending(old(scope)@.values.dom()),
                    index as nat,
                    span,
                    scope@.forms,
                    found@,
                    self@.counter,
                ),
            decreases order@.len() - index,
        {
            reveal(captured);
            assert(name_texts(order@)[index as int] == order@[index as int]@);
            let alias = self.names.next_macro_reference_name(order[index].as_str())?;
            if let Some(internal) = scope.values.get(order[index].as_str()) {
                let definition = make_alias_definition(alias.as_str(), internal.as_str(), span);
                scope.push(definition);
            }
            found.insert(order[index].clone(), alias);
            index = index + 1;
        }
        Ok(SyntaxRules { literals: rules.literals, rules: rules.rules, definition_values: found })
    }

    fn apply_imports(&mut self, imports: &Vec<ImportSet>, active: &Vec<Vec<String>>, scope: &mut TopScope, span: Span) -> (result: Result<
        (),
        Halt,
    >)
        ensures
            stepped_to(
                result,
                *old(self),
                *final(self),
                final(scope)@,
                with_imports(
                    old(self).files@,
                    imports_of(imports@),
                    0,
                    span,
                    row_texts(active@),
                    old(scope)@,
                    old(self)@,
                    old(self).limit as nat,
                ),
            ),
        decreases outside(old(self).files@, row_texts(active@)), 20nat,
    {
        let mut index: usize = 0;
        while index < imports.len()
            invariant
                index <= imports@.len(),
                self.files == old(self).files,
                self.limit == old(self).limit,
                with_imports(
                    self.files@,
                    imports_of(imports@),
                    0,
                    span,
                    row_texts(active@),
                    old(scope)@,
                    old(self)@,
                    self.limit as nat,
                ) == with_imports(
                    self.files@,
                    imports_of(imports@),
                    index as nat,
                    span,
                    row_texts(active@),
                    scope@,
                    self@,
                    self.limit as nat,
                ),
            decreases imports@.len() - index,
        {
            let import = &imports[index];
            assert(imports_of(imports@)[index as int] == import@);
            let library = self.load_library(import.library_name(), active)?;
            halted(apply_import(import, &library, scope, span))?;
            index = index + 1;
        }
        Ok(())
    }

    /// A library, read from its file unless it was read before.
    fn load_library(&mut self, name: &Vec<String>, active: &Vec<Vec<String>>) -> (result: Result<LoadedLibrary, Halt>)
        ensures
            stepped(
                result,
                *old(self),
                *final(self),
                loaded(
                    old(self).files@,
                    name_texts(name@),
                    row_texts(active@),
                    old(self)@,
                    old(self).limit as nat,
                ),
            ),
        decreases outside(old(self).files@, row_texts(active@)), 10nat,
    {
        if let Some(library) = self.libraries.find(name) {
            return Ok(library.duplicate());
        }
        if contains_row(active, name) {
            let text = join_names(name, " ");
            return Err(
                Halt::Failed(
                    CompileError::Expand(join3("cyclic library import detected for (", text.as_str(), ")")),
                ),
            );
        }
        let found = self.files.find(name);
        match found {
            None => Err(Halt::Needs(clone_names(name))),
            Some(LibraryFile::Missing) => {
                let text = join_names(name, " ");
                Err(
                    Halt::Failed(
                        CompileError::Expand(join3("could not resolve library (", text.as_str(), ")")),
                    ),
                )
            },
            Some(LibraryFile::Unreadable { path, message }) => Err(
                Halt::Failed(CompileError::Io { path: Some(path.clone()), message: message.clone() }),
            ),
            Some(LibraryFile::Source { path, text }) => {
                let form = halted(parse_define_library(name, path.as_str(), text.as_str()))?;
                let mut deeper = clone_rows(active);
                deeper.push(clone_names(name));
                proof {
                    assert(row_texts(deeper@) =~= row_texts(active@).push(name_texts(name@)));
                    lemma_outside(self.files@, row_texts(active@), name_texts(name@));
                }
                let library = self.load_library_from_declarations(name, &form, &deeper)?;
                self.libraries.put(clone_names(name), library.duplicate());
                Ok(library)
            },
        }
    }

    fn expand_top_level_forms(&mut self, forms: &Vec<Expr>, active: &Vec<Vec<String>>, scope: &mut TopScope) -> (result: Result<
        (),
        Halt,
    >)
        ensures
            stepped_to(
                result,
                *old(self),
                *final(self),
                final(scope)@,
                with_forms(
                    old(self).files@,
                    forms_of(forms@),
                    0,
                    row_texts(active@),
                    old(scope)@,
                    old(self)@,
                    old(self).limit as nat,
                ),
            ),
        decreases outside(old(self).files@, row_texts(active@)), 40nat,
    {
        let mut index: usize = 0;
        while index < forms.len()
            invariant
                index <= forms@.len(),
                self.files == old(self).files,
                self.limit == old(self).limit,
                with_forms(
                    self.files@,
                    forms_of(forms@),
                    0,
                    row_texts(active@),
                    old(scope)@,
                    old(self)@,
                    self.limit as nat,
                ) == with_forms(
                    self.files@,
                    forms_of(forms@),
                    index as nat,
                    row_texts(active@),
                    scope@,
                    self@,
                    self.limit as nat,
                ),
            decreases forms@.len() - index,
        {
            assert(forms_of(forms@)[index as int] == forms@[index as int]@);
            self.expand_top_level_form(&forms[index], active, scope)?;
            index = index + 1;
        }
        Ok(())
    }

    fn expand_top_level_form(&mut self, form: &Expr, active: &Vec<Vec<String>>, scope: &mut TopScope) -> (result: Result<
        (),
        Halt,
    >)
        ensures
            stepped_to(
                result,
                *old(self),
                *final(self),
                final(scope)@,
                with_form(
                    old(self).files@,
                    form@,
                    row_texts(active@),
                    old(scope)@,
                    old(self)@,
                    old(self).limit as nat,
                ),
            ),
        decreases outside(old(self).files@, row_texts(active@)), 30nat,
    {
        assert(form@.span == form.span);
        if let Some((name, rules)) = halted(parse_define_syntax(form, &scope.values))? {
            let captured_rules = self.materialize_macro_definition_values(rules, scope, form.span)?;
            scope.macros.insert(name, captured_rules);
            return Ok(());
        }
        if let Some(imports) = halted(parse_import(form))? {
            return self.apply_imports(&imports, active, scope, form.span);
        }
        self.expand_plain_form(form, scope)
    }

    fn expand_plain_form(&mut self, form: &Expr, scope: &mut TopScope) -> (result: Result<(), Halt>)
        ensures
            final(self).files == old(self).files,
            final(self).limit == old(self).limit,
            final(self).libraries == old(self).libraries,
            match result {
                Ok(_) => with_plain_form(form@, old(scope)@, old(self).limit as nat, old(self)@.counter) == Ok::<
                    (nat, TopLevel),
                    Stop,
                >((final(self)@.counter, final(scope)@)),
                Err(halt) => with_plain_form(form@, old(scope)@, old(self).limit as nat, old(self)@.counter)
                    == Err::<(nat, TopLevel), Stop>(halt@),
            },
    {
        reveal(with_plain_form);
        if parse_define_library_form(form).is_some() {
            return Err(
                Halt::Failed(
                    CompileError::Expand(
                        "define-library is only valid as the whole contents of a library file".to_owned(),
                    ),
                ),
            );
        }
        let expanded_form = expand_expr(form, &scope.macros, self.limit, &mut self.names)?;
        if let Some(name) = halted(parse_define_name(&expanded_form))? {
            scope.values.insert(name.clone(), name);
        }
        scope.push(expanded_form);
        Ok(())
    }

    fn expand_library_form(&mut self, form: &Expr, renaming: &NameMap<String>, scope: &mut TopScope) -> (result: Result<
        (),
        Halt,
    >)
        ensures
            final(self).files == old(self).files,
            final(self).limit == old(self).limit,
            final(self).libraries == old(self).libraries,
            match result {
                Ok(_) => with_library_form(
                    form@,
                    renaming@,
                    old(scope)@,
                    old(self).limit as nat,
                    old(self)@.counter,
                ) == Ok::<(nat, TopLevel), Stop>((final(self)@.counter, final(scope)@)),
                Err(halt) => with_library_form(
                    form@,
                    renaming@,
                    old(scope)@,
                    old(self).limit as nat,
                    old(self)@.counter,
                ) == Err::<(nat, TopLevel), Stop>(halt@),
            },
    {
        reveal(with_library_form);
        assert(form@.span == form.span);
        let renamed_form = halted(rename_library_expr(form, renaming))?;
        if let Some((name, rules)) = halted(parse_define_syntax(&renamed_form, &scope.values))? {
            let captured_rules = self.materialize_macro_definition_values(rules, scope, form.span)?;
            halted(insert_unique_macro(&mut scope.macros, name, captured_rules))?;
            return Ok(());
        }
        let defined = halted(parse_define_name(&renamed_form))?;
        if let Some(name) = defined {
            scope.values.insert(name.clone(), name);
        }
        let expanded_form = expand_expr(&renamed_form, &scope.macros, self.limit, &mut self.names)?;
        scope.push(expanded_form);
        Ok(())
    }

    fn load_declaration(
        &mut self,
        form: &Expr,
        renaming: &NameMap<String>,
        active: &Vec<Vec<String>>,
        exports: &mut Vec<ExportSpec>,
        scope: &mut TopScope,
    ) -> (result: Result<(), Halt>)
        ensures
            final(self).files == old(self).files,
            final(self).limit == old(self).limit,
            match result {
                Ok(_) => with_declaration(
                    old(self).files@,
                    form@,
                    renaming@,
                    row_texts(active@),
                    export_names(old(exports)@),
                    old(scope)@,
                    old(self)@,
                    old(self).limit as nat,
                ) == Ok::<(Progress, (Seq<(Seq<char>, Seq<char>)>, TopLevel)), Stop>(
                    (final(self)@, (export_names(final(exports)@), final(scope)@)),
                ),
                Err(halt) => with_declaration(
                    old(self).files@,
                    form@,
                    renaming@,
                    row_texts(active@),
                    export_names(old(exports)@),
                    old(scope)@,
                    old(self)@,
                    old(self).limit as nat,
                ) == Err::<(Progress, (Seq<(Seq<char>, Seq<char>)>, TopLevel)), Stop>(halt@),
            },
        decreases outside(old(self).files@, row_texts(active@)), 50nat,
    {
        assert(form@.span == form.span);
        if let Some(more) = halted(parse_export(form))? {
            let mut more = more;
            let ghost known = export_names(exports@);
            let ghost added = export_names(more@);
            exports.append(&mut more);
            assert(export_names(exports@) =~= known + added);
            return Ok(());
        }
        if let Some(imports) = halted(parse_import(form))? {
            return self.apply_imports(&imports, active, scope, form.span);
        }
        if parse_begin_declaration(form).is_some() {
            proof {
                lemma_list_form(*form);
            }
            let bound = NameSet::new();
            let forms = halted(rename_items(form, 1, renaming, &bound))?;
            return self.expand_top_level_forms(&forms, active, scope);
        }
        self.expand_library_form(form, renaming, scope)
    }

    fn load_library_from_declarations(&mut self, name: &Vec<String>, form: &Expr, active: &Vec<Vec<String>>) -> (result: Result<
        LoadedLibrary,
        Halt,
    >)
        requires
            form.kind is List,
            list_items(form@).len() >= 2,
        ensures
            stepped(
                result,
                *old(self),
                *final(self),
                declared(
                    old(self).files@,
                    form@,
                    name_texts(name@),
                    row_texts(active@),
                    old(self)@,
                    old(self).limit as nat,
                ),
            ),
        decreases outside(old(self).files@, row_texts(active@)), 70nat,
    {
        proof {
            lemma_list_form(*form);
        }
        let mut names = NameSet::new();
        halted(collect_top_level_names_in_items(form, 2, &mut names))?;
        let renaming = rename_map_for(name, &names);
        let mut exports: Vec<ExportSpec> = Vec::new();
        let mut scope = TopScope::new();
        assert(export_names(exports@) =~= Seq::<(Seq<char>, Seq<char>)>::empty());
        if let ExprKind::List { items, tail: _ } = &form.kind {
            let mut index: usize = 2;
            while index < items.len()
                invariant
                    2 <= index <= items@.len(),
                    list_items(form@) == forms_of(items@),
                    self.files == old(self).files,
                    self.limit == old(self).limit,
                    names_in_items(form@, 2, Set::empty()) == Ok::<Set<Seq<char>>, Problem>(names@),
                    renaming@ == library_renaming(name_texts(name@), names@),
                    with_declarations(
                        self.files@,
                        form@,
                        2,
                        renaming@,
                        row_texts(active@),
                        Seq::empty(),
                        empty_top_level(),
                        old(self)@,
                        self.limit as nat,
                    ) == with_declarations(
                        self.files@,
                        form@,
                        index as nat,
                        renaming@,
                        row_texts(active@),
                        export_names(exports@),
                        scope@,
                        self@,
                        self.limit as nat,
                    ),
                decreases items@.len() - index,
            {
                assert(forms_of(items@)[index as int] == items@[index as int]@);
                self.load_declaration(&items[index], &renaming, active, &mut exports, &mut scope)?;
                index = index + 1;
            }
        }
        let (value_exports, macro_exports) = halted(collect_exports(&exports, &renaming, &scope.macros))?;
        Ok(LoadedLibrary { forms: scope.forms, value_exports, macro_exports })
    }

    /// A program without imports and uses of macros.
    fn expand_root_program(&mut self, program: &Program) -> (result: Result<Program, Halt>)
        requires
            old(self)@ == (Progress { counter: 0, libraries: Seq::empty() }),
        ensures
            match result {
                Ok(expanded) => expanded_program(
                    old(self).files@,
                    forms_of(program.forms@),
                    old(self).limit as nat,
                ) == Ok::<Seq<Form>, Stop>(forms_of(expanded.forms@)),
                Err(halt) => expanded_program(
                    old(self).files@,
                    forms_of(program.forms@),
                    old(self).limit as nat,
                ) == Err::<Seq<Form>, Stop>(halt@),
            },
    {
        let active: Vec<Vec<String>> = Vec::new();
        assert(row_texts(active@) =~= Seq::<Seq<Seq<char>>>::empty());
        if program.forms.len() == 1 {
            assert(forms_of(program.forms@)[0] == program.forms@[0]@);
            if let Some((name, _)) = parse_define_library_form(&program.forms[0]) {
                let library = self.load_library_from_declarations(&name, &program.forms[0], &active)?;
                return Ok(Program { forms: library.forms });
            }
        }
        let mut scope = TopScope::new();
        self.expand_top_level_forms(&program.forms, &active, &mut scope)?;
        Ok(Program { forms: scope.forms })
    }
}

/// A copy of a row of names of libraries.
fn clone_rows(rows: &Vec<Vec<String>>) -> (copy: Vec<Vec<String>>)
    ensures
        row_texts(copy@) == row_texts(rows@),
{
    let mut copy: Vec<Vec<String>> = Vec::new();
    let mut index: usize = 0;
    while index < rows.len()
        invariant
            index <= rows@.len(),
            row_texts(copy@) == row_texts(rows@).subrange(0, index as int),
        decreases rows@.len() - index,
    {
        let ghost done = row_texts(copy@);
        copy.push(clone_names(&rows[index]));
        assert(row_texts(copy@) =~= done.push(name_texts(rows@[index as int]@)));
        assert(row_texts(copy@) =~= row_texts(rows@).subrange(0, index + 1));
        index = index + 1;
    }
    assert(row_texts(copy@) =~= row_texts(rows@));
    copy
}

/// The form of the library that a library file holds.
fn parse_define_library(name: &Vec<String>, path: &str, text: &str) -> (result: Result<Expr, CompileError>)
    ensures
        match result {
            Ok(form) => library_source(name_texts(name@), path@, text@) == Ok::<Form, Problem>(form@)
                && form.kind is List && list_items(form@).len() >= 2,
            Err(error) => library_source(name_texts(name@), path@, text@) == Err::<Form, Problem>(error@),
        },
{
    reveal(library_source);
    let program = parse_program(text)?;
    let mut forms = program.forms;
    if forms.len() != 1 {
        return Err(
            CompileError::Expand("library file must contain exactly one define-library form".to_owned()),
        );
    }
    assert(forms_of(program.forms@)[0] == program.forms@[0]@);
    match parse_define_library_form(&forms[0]) {
        None => Err(CompileError::Expand("library file must contain a define-library form".to_owned())),
        Some((found, _)) => {
            if !same_names(&found, name) {
                let found_text = join_names(&found, " ");
                let name_text = join_names(name, " ");
                let start = join5(
                    "library file ",
                    path,
                    " defines (",
                    found_text.as_str(),
                    ") but was imported as (",
                );
                return Err(CompileError::Expand(join3(start.as_str(), name_text.as_str(), ")")));
            }
            Ok(forms.remove(0))
        },
    }
}

fn collect_exports(exports: &Vec<ExportSpec>, renaming: &NameMap<String>, macros: &NameMap<SyntaxRules>) -> (result: Result<
    (NameMap<String>, NameMap<SyntaxRules>),
    CompileError,
>)
    ensures
        match result {
            Ok((values, found)) => exported(
                export_names(exports@),
                0,
                renaming@,
                macros@,
                Map::empty(),
                Map::empty(),
            ) == Ok::<(Map<Seq<char>, Seq<char>>, Macros), Problem>((values@, found@)),
            Err(error) => exported(export_names(exports@), 0, renaming@, macros@, Map::empty(), Map::empty())
                == Err::<(Map<Seq<char>, Seq<char>>, Macros), Problem>(error@),
        },
{
    let mut value_exports: NameMap<String> = NameMap::new();
    let mut macro_exports: NameMap<SyntaxRules> = NameMap::new();
    let mut index: usize = 0;
    while index < exports.len()
        invariant
            index <= exports@.len(),
            exported(export_names(exports@), 0, renaming@, macros@, Map::empty(), Map::empty()) == exported(
                export_names(exports@),
                index as nat,
                renaming@,
                macros@,
                value_exports@,
                macro_exports@,
            ),
        decreases exports@.len() - index,
    {
        let export = &exports[index];
        assert(export_names(exports@)[index as int] == (export.external@, export.internal@));
        let internal = replacement_for(&export.internal, renaming);
        if let Some(rules) = macros.get(internal.as_str()) {
            insert_unique_macro(&mut macro_exports, export.external.clone(), rules.duplicate())?;
        } else {
            if value_exports.contains_key(export.external.as_str()) {
                return expand_error_with(
                    join3("duplicate value binding for '", export.external.as_str(), "'"),
                );
            }
            value_exports.insert(export.external.clone(), internal);
        }
        index = index + 1;
    }
    Ok((value_exports, macro_exports))
}

/// A program without imports and uses of macros, where `files` says what the files of libraries
/// hold and macros expand to macros `limit` times at most.
pub fn expand_program(files: &Shelf<LibraryFile>, program: &Program, limit: usize) -> (result: Result<Program, Halt>)
    ensures
        match result {
            Ok(expanded) => expanded_program(files@, forms_of(program.forms@), limit as nat) == Ok::<
                Seq<Form>,
                Stop,
            >(forms_of(expanded.forms@)),
            Err(halt) => expanded_program(files@, forms_of(program.forms@), limit as nat) == Err::<
                Seq<Form>,
                Stop,
            >(halt@),
        },
{
    let mut expander = Expander::new(files, limit);
    expander.expand_root_program(program)
}

} // verus!
