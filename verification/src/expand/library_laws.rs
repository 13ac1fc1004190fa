//! What importing a library does: its forms, the names that it exports and its macros are there where
//! it is imported, in programs and in other libraries.
use crate::error::Problem;
use crate::expand::declarations::{
    export_declaration, import_declaration, keyword_items, library_form, names_in_items, syntax_definition, Import,
    Transformer,
};
use crate::expand::expressions::Macros;
use crate::expand::forms::{alias_form, list_items};
use crate::expand::import_laws::{lemma_ascending_lists, lemma_imports_come_from_exports};
use crate::expand::imports::{imported_exports, imported_library, replaced, Library};
use crate::expand::libraries::{
    alias_forms, captured, captured_from, declared, empty_top_level, expanded_program, exported, library_renaming,
    library_source, loaded, with_declaration, with_declarations, with_form, with_forms, with_import, with_imports,
    with_library_form, with_macros, with_plain_form, FileText, Files, Progress, TopLevel,
};
use crate::expand::outcome::fresh_name;
use crate::expand::rename::renamed_items;
use crate::expand::shelf::{lemma_outside, outside, shelved};
use crate::frontend::ast::{Form, FormKind, Span};
use crate::names::ascending;
use vstd::prelude::*;

verus! {

broadcast use vstd::seq_lib::group_seq_properties;

/// Whether forms stand one behind the other among others.
pub open spec fn holds_block(forms: Seq<Form>, part: Seq<Form>) -> bool {
    exists|at: int| 0 <= at && at + part.len() <= forms.len() && #[trigger] forms.subrange(at, at + part.len()) == part
}

/// The form `(define name value)`.
pub open spec fn definition(name: Seq<char>, value: Seq<char>, span: Span) -> Form {
    Form {
        kind: FormKind::List {
            items: seq![
                Form { kind: FormKind::Symbol("define"@), span },
                Form { kind: FormKind::Symbol(name), span },
                Form { kind: FormKind::Symbol(value), span },
            ],
            tail: None,
        },
        span,
    }
}

/// Whether each name is defined as its value.
pub open spec fn holds_definitions(forms: Seq<Form>, values: Map<Seq<char>, Seq<char>>, span: Span) -> bool {
    forall|name: Seq<char>| #[trigger]
        values.contains_key(name) ==> forms.contains(definition(name, values[name], span))
}

/// Whether forms hold what a library brings where it is imported: its forms, and definitions of the
/// names of the import set.
pub open spec fn holds_import(forms: Seq<Form>, import: Import, library: Library, span: Span) -> bool {
    &&& holds_block(forms, library.forms)
    &&& imported_exports(import, library.values) matches Ok(values)
    &&& holds_definitions(forms, values, span)
}

/// Whether the file of a library says a form.
pub open spec fn is_file_of(files: Files, name: Seq<Seq<char>>, form: Form) -> bool {
    shelved(files, name) matches Some(FileText::Source { path, text }) && library_source(name, path, text) == Ok::<
        Form,
        Problem,
    >(form)
}

/// Whether a library is what the declarations in its file come to.
pub open spec fn is_library(files: Files, name: Seq<Seq<char>>, library: Library, limit: nat) -> bool {
    exists|form: Form, active: Seq<Seq<Seq<char>>>, progress: Progress|
        is_file_of(files, name, form) && (#[trigger] declared(files, form, name, active, progress, limit) matches Ok(
            (_, found),
        ) && found == library)
}

/// Whether every library that was read is what its file says.
pub open spec fn is_true_shelf(files: Files, progress: Progress, limit: nat) -> bool {
    forall|name: Seq<Seq<char>>|
        (#[trigger] shelved(progress.libraries, name)) matches Some(library) ==> is_library(files, name, library, limit)
            && library.values.dom().finite() && library.macros.dom().finite()
}

/// Whether the forms of every library that was imported are among the forms.
pub open spec fn holds_imported(top: TopLevel, progress: Progress) -> bool {
    forall|name: Seq<Seq<char>>| #[trigger]
        top.imported.contains(name) ==> (shelved(progress.libraries, name) matches Some(library) && holds_block(
            top.forms,
            library.forms,
        ))
}

/// Whether libraries that were read stay as they are.
pub open spec fn keeps_shelf(before: Progress, after: Progress) -> bool {
    forall|name: Seq<Seq<char>>|
        (#[trigger] shelved(before.libraries, name)) is Some ==> shelved(after.libraries, name) == shelved(
            before.libraries,
            name,
        )
}

/// Whether forms and imported libraries are only added.
pub open spec fn keeps_top(before: TopLevel, after: TopLevel) -> bool {
    &&& before.forms.is_prefix_of(after.forms)
    &&& forall|name: Seq<Seq<char>>| #[trigger] before.imported.contains(name) ==> after.imported.contains(name)
}

/// Whether forms hold what an import brings in of the library that was read.
pub open spec fn is_brought(progress: Progress, forms: Seq<Form>, import: Import, span: Span) -> bool {
    shelved(progress.libraries, imported_library(import)) matches Some(library) && holds_import(
        forms,
        import,
        library,
        span,
    )
}

/// Whether forms hold what a form brings in, if it is an import declaration.
pub open spec fn all_brought(progress: Progress, forms: Seq<Form>, form: Form) -> bool {
    import_declaration(form) matches Ok(Some(imports)) ==> forall|j: int|
        0 <= j < imports.len() ==> is_brought(progress, forms, #[trigger] imports[j], form.span)
}

proof fn lemma_block_kept(forms: Seq<Form>, more: Seq<Form>, part: Seq<Form>)
    requires
        holds_block(forms, part),
        forms.is_prefix_of(more),
    ensures
        holds_block(more, part),
{
    let at = choose|at: int|
        0 <= at && at + part.len() <= forms.len() && #[trigger] forms.subrange(at, at + part.len()) == part;
    assert(more.subrange(at, at + part.len()) =~= part) by {
        assert forall|i: int| 0 <= i < part.len() implies more.subrange(at, at + part.len())[i] == part[i] by {
            assert(forms.subrange(at, at + part.len())[i] == part[i]);
            assert(forms[at + i] == more[at + i]);
        }
    }
}

proof fn lemma_definitions_kept(forms: Seq<Form>, more: Seq<Form>, values: Map<Seq<char>, Seq<char>>, span: Span)
    requires
        holds_definitions(forms, values, span),
        forms.is_prefix_of(more),
    ensures
        holds_definitions(more, values, span),
{
    assert forall|name: Seq<char>| #[trigger] values.contains_key(name) implies more.contains(
        definition(name, values[name], span),
    ) by {
        let form = definition(name, values[name], span);
        assert(forms.contains(form));
        let i = choose|i: int| 0 <= i < forms.len() && forms[i] == form;
        assert(forms[i] == more[i]);
    }
}

proof fn lemma_brought_kept(before: Progress, after: Progress, forms: Seq<Form>, more: Seq<Form>, form: Form)
    requires
        all_brought(before, forms, form),
        keeps_shelf(before, after),
        forms.is_prefix_of(more),
    ensures
        all_brought(after, more, form),
{
    if let Ok(Some(imports)) = import_declaration(form) {
        assert forall|j: int| 0 <= j < imports.len() implies is_brought(after, more, #[trigger] imports[j], form.span) by {
            lemma_one_brought_kept(before, after, forms, more, imports[j], form.span);
        }
    }
}

proof fn lemma_one_brought_kept(
    before: Progress,
    after: Progress,
    forms: Seq<Form>,
    more: Seq<Form>,
    import: Import,
    span: Span,
)
    requires
        is_brought(before, forms, import, span),
        keeps_shelf(before, after),
        forms.is_prefix_of(more),
    ensures
        is_brought(after, more, import, span),
{
    let library = shelved(before.libraries, imported_library(import))->0;
    lemma_block_kept(forms, more, library.forms);
    lemma_definitions_kept(forms, more, imported_exports(import, library.values)->Ok_0, span);
}

proof fn lemma_macros_added(macros: Macros, added: Macros, names: Seq<Seq<char>>, index: nat)
    ensures
        with_macros(macros, added, names, index) matches Ok(after) ==> (forall|name: Seq<char>| #[trigger]
            macros.contains_key(name) ==> after.contains_key(name) && after[name] == macros[name]) && (forall|i: int|
            index <= i < names.len() ==> after.contains_key(#[trigger] names[i]) && after[names[i]] == added[names[i]]),
    decreases names.len() - index,
{
    if index < names.len() {
        let name = names[index as int];
        if !macros.contains_key(name) {
            let more = macros.insert(name, added[name]);
            lemma_macros_added(more, added, names, index + 1);
            assert(more.contains_key(name));
            assert forall|other: Seq<char>| #[trigger] macros.contains_key(other) implies more.contains_key(other)
                && more[other] == macros[other] by {}
        }
    }
}

/// Importing a library adds its forms, unless they are there already, and a definition of each name
/// of the import set as the name that the library knows it by. Each name means what the library
/// exports, each macro is the one that the library exports, and nothing that was there is lost.
pub proof fn lemma_import_brings(import: Import, library: Library, top: TopLevel, span: Span)
    requires
        library.values.dom().finite(),
        library.macros.dom().finite(),
        top.imported.contains(imported_library(import)) ==> holds_block(top.forms, library.forms),
    ensures
        with_import(import, library, top, span) matches Ok(after) ==> {
            &&& holds_import(after.forms, import, library, span)
            &&& keeps_top(top, after)
            &&& after.imported.contains(imported_library(import))
            &&& forall|name: Seq<Seq<char>>| #[trigger]
                after.imported.contains(name) ==> top.imported.contains(name) || name == imported_library(import)
            &&& imported_exports(import, library.values) matches Ok(values)
            &&& forall|name: Seq<char>| #[trigger]
                values.contains_key(name) ==> after.values.contains_key(name) && after.values[name] == values[name]
            &&& forall|name: Seq<char>| #[trigger]
                top.values.contains_key(name) && !values.contains_key(name) ==> after.values.contains_key(name)
                    && after.values[name] == top.values[name]
            &&& imported_exports(import, library.macros) matches Ok(macros)
            &&& forall|name: Seq<char>| #[trigger]
                macros.contains_key(name) ==> after.macros.contains_key(name) && after.macros[name] == macros[name]
            &&& forall|name: Seq<char>| #[trigger]
                top.macros.contains_key(name) ==> after.macros.contains_key(name) && after.macros[name]
                    == top.macros[name]
        },
{
    reveal(with_import);
    if let Ok(after) = with_import(import, library, top, span) {
        let name = imported_library(import);
        let known = top.imported.contains(name);
        let values = imported_exports(import, library.values)->Ok_0;
        let macros = imported_exports(import, library.macros)->Ok_0;
        lemma_imports_come_from_exports(import, library.values);
        lemma_imports_come_from_exports(import, library.macros);
        lemma_ascending_lists(values.dom());
        lemma_ascending_lists(macros.dom());
        lemma_macros_added(top.macros, macros, ascending(macros.dom()), 0);
        assert forall|name: Seq<char>| #[trigger] macros.contains_key(name) implies after.macros.contains_key(name)
            && after.macros[name] == macros[name] by {
            assert(ascending(macros.dom()).to_set().contains(name));
            let i = choose|i: int| 0 <= i < ascending(macros.dom()).len() && ascending(macros.dom())[i] == name;
            assert(ascending(macros.dom())[i] == name);
        }
        let first = if known {
            top.forms
        } else {
            top.forms + library.forms
        };
        let aliases = alias_forms(values, span);
        assert(first.is_prefix_of(after.forms)) by {
            assert(first =~= (first + aliases).subrange(0, first.len() as int));
        }
        assert(top.forms.is_prefix_of(after.forms)) by {
            assert(top.forms =~= after.forms.subrange(0, top.forms.len() as int));
        }
        if !known {
            let at = top.forms.len() as int;
            assert(first.subrange(at, at + library.forms.len()) =~= library.forms);
            assert(holds_block(first, library.forms));
            assert(after.imported.last() == name);
            assert forall|other: Seq<Seq<char>>| #[trigger] top.imported.contains(other) implies after.imported.contains(
                other,
            ) by {
                let i = choose|i: int| 0 <= i < top.imported.len() && top.imported[i] == other;
                assert(after.imported[i] == other);
            }
        }
        lemma_block_kept(first, after.forms, library.forms);
        assert(holds_definitions(after.forms, values, span)) by {
            reveal(alias_forms);
            let names = ascending(values.dom());
            assert forall|name: Seq<char>| #[trigger] values.contains_key(name) implies after.forms.contains(
                definition(name, values[name], span),
            ) by {
                assert(names.to_set().contains(name));
                let i = choose|i: int| 0 <= i < names.len() && names[i] == name;
                assert(aliases[i] == definition(name, values[name], span));
                assert(after.forms[first.len() + i] == aliases[i]);
            }
        }
    }
}

proof fn lemma_captured_keeps(
    values: Map<Seq<char>, Seq<char>>,
    names: Seq<Seq<char>>,
    index: nat,
    span: Span,
    forms: Seq<Form>,
    found: Map<Seq<char>, Seq<char>>,
    counter: nat,
)
    ensures
        captured_from(values, names, index, span, forms, found, counter) matches Ok((_, (after, _)))
            ==> forms.is_prefix_of(after),
    decreases names.len() - index,
{
    if index < names.len() {
        if let Ok((next, alias)) = fresh_name("__macro_ref_"@, names[index as int], counter) {
            let one = alias_form(alias, values[names[index as int]], span);
            lemma_captured_keeps(
                values,
                names,
                index + 1,
                span,
                forms.push(one),
                found.insert(names[index as int], alias),
                next,
            );
            if let Ok((_, (after, _))) = captured_from(values, names, index, span, forms, found, counter) {
                assert(forms =~= after.subrange(0, forms.len() as int)) by {
                    assert forall|i: int| 0 <= i < forms.len() implies forms[i] == after[i] by {
                        assert(forms.push(one)[i] == after[i]);
                    }
                }
            }
        }
    }
}

/// Forms that are added keep what there is.
proof fn lemma_forms_added(files: Files, before: TopLevel, after: TopLevel, progress: Progress, later: Progress, limit: nat)
    requires
        is_true_shelf(files, progress, limit),
        holds_imported(before, progress),
        before.forms.is_prefix_of(after.forms),
        after.imported == before.imported,
        later.libraries == progress.libraries,
    ensures
        is_true_shelf(files, later, limit),
        holds_imported(after, later),
        keeps_top(before, after),
        keeps_shelf(progress, later),
{
    assert forall|name: Seq<Seq<char>>| #[trigger] after.imported.contains(name) implies (shelved(
        later.libraries,
        name,
    ) matches Some(library) && holds_block(after.forms, library.forms)) by {
        assert(before.imported.contains(name));
        lemma_block_kept(before.forms, after.forms, shelved(later.libraries, name)->0.forms);
    }
}

/// A library that is read is what its file says, and the libraries that were read stay.
proof fn lemma_loaded_true(files: Files, name: Seq<Seq<char>>, active: Seq<Seq<Seq<char>>>, progress: Progress, limit: nat)
    requires
        is_true_shelf(files, progress, limit),
    ensures
        loaded(files, name, active, progress, limit) matches Ok((later, library)) ==> {
            &&& is_true_shelf(files, later, limit)
            &&& keeps_shelf(progress, later)
            &&& shelved(later.libraries, name) == Some(library)
        },
    decreases outside(files, active), 10nat, 0nat,
{
    if shelved(progress.libraries, name) is None && !active.contains(name) {
        if let Some(FileText::Source { path, text }) = shelved(files, name) {
            if let Ok(form) = library_source(name, path, text) {
                lemma_outside(files, active, name);
                lemma_declared_true(files, form, name, active.push(name), progress, limit);
                if let Ok((middle, library)) = declared(files, form, name, active.push(name), progress, limit) {
                    let later = Progress { libraries: middle.libraries.push((name, library)), ..middle };
                    assert(is_library(files, name, library, limit)) by {
                        assert(is_file_of(files, name, form));
                    }
                    assert(later.libraries.drop_last() =~= middle.libraries);
                    assert forall|other: Seq<Seq<char>>| #[trigger] shelved(later.libraries, other) == (if other == name {
                        Some(library)
                    } else {
                        shelved(middle.libraries, other)
                    }) by {}
                }
            }
        }
    }
}

proof fn lemma_imports_true(
    files: Files,
    imports: Seq<Import>,
    index: nat,
    span: Span,
    active: Seq<Seq<Seq<char>>>,
    top: TopLevel,
    progress: Progress,
    limit: nat,
)
    requires
        is_true_shelf(files, progress, limit),
        holds_imported(top, progress),
    ensures
        with_imports(files, imports, index, span, active, top, progress, limit) matches Ok((later, after)) ==> {
            &&& is_true_shelf(files, later, limit)
            &&& keeps_shelf(progress, later)
            &&& holds_imported(after, later)
            &&& keeps_top(top, after)
            &&& forall|j: int|
                index <= j < imports.len() ==> is_brought(later, after.forms, #[trigger] imports[j], span)
        },
    decreases outside(files, active), 20nat, imports.len() - index,
{
    if index < imports.len() {
        let import = imports[index as int];
        lemma_loaded_true(files, imported_library(import), active, progress, limit);
        if let Ok((middle, library)) = loaded(files, imported_library(import), active, progress, limit) {
            if let Ok(next) = with_import(import, library, top, span) {
                lemma_import_brings(import, library, top, span);
                assert(holds_imported(next, middle)) by {
                    assert forall|name: Seq<Seq<char>>| #[trigger] next.imported.contains(name) implies (shelved(
                        middle.libraries,
                        name,
                    ) matches Some(found) && holds_block(next.forms, found.forms)) by {
                        if name != imported_library(import) {
                            assert(top.imported.contains(name));
                            lemma_block_kept(top.forms, next.forms, shelved(progress.libraries, name)->0.forms);
                        }
                    }
                }
                lemma_imports_true(files, imports, index + 1, span, active, next, middle, limit);
                if let Ok((later, after)) = with_imports(
                    files,
                    imports,
                    index + 1,
                    span,
                    active,
                    next,
                    middle,
                    limit,
                ) {
                    lemma_one_brought_kept(middle, later, next.forms, after.forms, import, span);
                    lemma_prefix(top.forms, next.forms, after.forms);
                }
            }
        }
    }
}

proof fn lemma_prefix(first: Seq<Form>, second: Seq<Form>, third: Seq<Form>)
    requires
        first.is_prefix_of(second),
        second.is_prefix_of(third),
    ensures
        first.is_prefix_of(third),
{
    assert forall|i: int| 0 <= i < first.len() implies first[i] == third[i] by {
        assert(first[i] == second[i]);
        assert(second[i] == third[i]);
    }
    assert(first =~= third.subrange(0, first.len() as int));
}

/// An import declaration is no definition of a macro and no export declaration.
proof fn lemma_only_import(form: Form)
    requires
        import_declaration(form) matches Ok(Some(_)),
    ensures
        forall|values: Map<Seq<char>, Seq<char>>| #[trigger]
            syntax_definition(form, values) == Ok::<Option<(Seq<char>, Transformer)>, Problem>(None),
        export_declaration(form) == Ok::<Option<Seq<(Seq<char>, Seq<char>)>>, Problem>(None),
{
    reveal(import_declaration);
    reveal(syntax_definition);
    reveal(export_declaration);
    reveal_strlit("import");
    reveal_strlit("define-syntax");
    reveal_strlit("export");
    assert("import"@.len() != "define-syntax"@.len());
    assert("import"@[0] != "export"@[0]);
}

proof fn lemma_form_true(files: Files, form: Form, active: Seq<Seq<Seq<char>>>, top: TopLevel, progress: Progress, limit: nat)
    requires
        is_true_shelf(files, progress, limit),
        holds_imported(top, progress),
    ensures
        with_form(files, form, active, top, progress, limit) matches Ok((later, after)) ==> {
            &&& is_true_shelf(files, later, limit)
            &&& keeps_shelf(progress, later)
            &&& holds_imported(after, later)
            &&& keeps_top(top, after)
            &&& all_brought(later, after.forms, form)
        },
    decreases outside(files, active), 30nat, 0nat,
{
    if let Ok(Some(imports)) = import_declaration(form) {
        lemma_only_import(form);
        lemma_imports_true(files, imports, 0, form.span, active, top, progress, limit);
    } else if let Ok((later, after)) = with_form(files, form, active, top, progress, limit) {
        reveal(captured);
        reveal(with_plain_form);
        lemma_captured_keeps(
            top.values,
            ascending(top.values.dom()),
            0,
            form.span,
            top.forms,
            Map::empty(),
            progress.counter,
        );
        assert(top.forms.is_prefix_of(after.forms)) by {
            if after.forms.len() == top.forms.len() + 1 && after.forms.drop_last() =~= top.forms {
                assert(top.forms =~= after.forms.subrange(0, top.forms.len() as int));
            }
        }
        lemma_forms_added(files, top, after, progress, later, limit);
    }
}

proof fn lemma_forms_true(
    files: Files,
    forms: Seq<Form>,
    index: nat,
    active: Seq<Seq<Seq<char>>>,
    top: TopLevel,
    progress: Progress,
    limit: nat,
)
    requires
        is_true_shelf(files, progress, limit),
        holds_imported(top, progress),
    ensures
        with_forms(files, forms, index, active, top, progress, limit) matches Ok((later, after)) ==> {
            &&& is_true_shelf(files, later, limit)
            &&& keeps_shelf(progress, later)
            &&& holds_imported(after, later)
            &&& keeps_top(top, after)
            &&& forall|i: int| index <= i < forms.len() ==> all_brought(later, after.forms, #[trigger] forms[i])
        },
    decreases outside(files, active), 40nat, forms.len() - index,
{
    if index < forms.len() {
        let form = forms[index as int];
        lemma_form_true(files, form, active, top, progress, limit);
        if let Ok((middle, next)) = with_form(files, form, active, top, progress, limit) {
            lemma_forms_true(files, forms, index + 1, active, next, middle, limit);
            if let Ok((later, after)) = with_forms(files, forms, index + 1, active, next, middle, limit) {
                lemma_brought_kept(middle, later, next.forms, after.forms, form);
                lemma_prefix(top.forms, next.forms, after.forms);
            }
        }
    }
}

proof fn lemma_declaration_true(
    files: Files,
    form: Form,
    renaming: Map<Seq<char>, Seq<char>>,
    active: Seq<Seq<Seq<char>>>,
    exports: Seq<(Seq<char>, Seq<char>)>,
    top: TopLevel,
    progress: Progress,
    limit: nat,
)
    requires
        is_true_shelf(files, progress, limit),
        holds_imported(top, progress),
    ensures
        with_declaration(files, form, renaming, active, exports, top, progress, limit) matches Ok((later, (_, after)))
            ==> {
            &&& is_true_shelf(files, later, limit)
            &&& keeps_shelf(progress, later)
            &&& holds_imported(after, later)
            &&& keeps_top(top, after)
            &&& all_brought(later, after.forms, form)
        },
    decreases outside(files, active), 50nat, 0nat,
{
    if let Ok(Some(imports)) = import_declaration(form) {
        lemma_only_import(form);
        lemma_imports_true(files, imports, 0, form.span, active, top, progress, limit);
    } else if let Ok((later, (more, after))) = with_declaration(
        files,
        form,
        renaming,
        active,
        exports,
        top,
        progress,
        limit,
    ) {
        if export_declaration(form)->Ok_0 is None && keyword_items(form, "begin"@) is Some {
            let forms = renamed_items(form, 1, renaming, Set::empty())->Ok_0;
            lemma_forms_true(files, forms, 0, active, top, progress, limit);
        } else {
            reveal(captured);
            reveal(with_library_form);
            lemma_captured_keeps(
                top.values,
                ascending(top.values.dom()),
                0,
                form.span,
                top.forms,
                Map::empty(),
                progress.counter,
            );
            assert(top.forms.is_prefix_of(after.forms)) by {
                if after.forms.len() == top.forms.len() + 1 && after.forms.drop_last() =~= top.forms {
                    assert(top.forms =~= after.forms.subrange(0, top.forms.len() as int));
                }
            }
            lemma_forms_added(files, top, after, progress, later, limit);
        }
    }
}

proof fn lemma_declarations_true(
    files: Files,
    form: Form,
    index: nat,
    renaming: Map<Seq<char>, Seq<char>>,
    active: Seq<Seq<Seq<char>>>,
    exports: Seq<(Seq<char>, Seq<char>)>,
    top: TopLevel,
    progress: Progress,
    limit: nat,
)
    requires
        is_true_shelf(files, progress, limit),
        holds_imported(top, progress),
    ensures
        with_declarations(files, form, index, renaming, active, exports, top, progress, limit) matches Ok(
            (later, (_, after)),
        ) ==> {
            &&& is_true_shelf(files, later, limit)
            &&& keeps_shelf(progress, later)
            &&& holds_imported(after, later)
            &&& keeps_top(top, after)
            &&& forall|i: int|
                index <= i < list_items(form).len() ==> all_brought(later, after.forms, #[trigger] list_items(form)[i])
        },
    decreases outside(files, active), 60nat, list_items(form).len() - index,
{
    if index < list_items(form).len() {
        let one = list_items(form)[index as int];
        lemma_declaration_true(files, one, renaming, active, exports, top, progress, limit);
        if let Ok((middle, (more, next))) = with_declaration(
            files,
            one,
            renaming,
            active,
            exports,
            top,
            progress,
            limit,
        ) {
            lemma_declarations_true(files, form, index + 1, renaming, active, more, next, middle, limit);
            if let Ok((later, (_, after))) = with_declarations(
                files,
                form,
                index + 1,
                renaming,
                active,
                more,
                next,
                middle,
                limit,
            ) {
                lemma_brought_kept(middle, later, next.forms, after.forms, one);
                lemma_prefix(top.forms, next.forms, after.forms);
            }
        }
    }
}

proof fn lemma_exported_finite(
    exports: Seq<(Seq<char>, Seq<char>)>,
    index: nat,
    renaming: Map<Seq<char>, Seq<char>>,
    macros: Macros,
    found_values: Map<Seq<char>, Seq<char>>,
    found_macros: Macros,
)
    requires
        found_values.dom().finite(),
        found_macros.dom().finite(),
    ensures
        exported(exports, index, renaming, macros, found_values, found_macros) matches Ok((values, macros))
            ==> values.dom().finite() && macros.dom().finite(),
    decreases exports.len() - index,
{
    if index < exports.len() {
        let external = exports[index as int].0;
        let internal = replaced(exports[index as int].1, renaming);
        if macros.contains_key(internal) {
            lemma_exported_finite(
                exports,
                index + 1,
                renaming,
                macros,
                found_values,
                found_macros.insert(external, macros[internal]),
            );
        } else {
            lemma_exported_finite(
                exports,
                index + 1,
                renaming,
                macros,
                found_values.insert(external, internal),
                found_macros,
            );
        }
    }
}

proof fn lemma_declared_true(
    files: Files,
    form: Form,
    name: Seq<Seq<char>>,
    active: Seq<Seq<Seq<char>>>,
    progress: Progress,
    limit: nat,
)
    requires
        is_true_shelf(files, progress, limit),
    ensures
        declared(files, form, name, active, progress, limit) matches Ok((later, library)) ==> {
            &&& is_true_shelf(files, later, limit)
            &&& keeps_shelf(progress, later)
            &&& library.values.dom().finite()
            &&& library.macros.dom().finite()
            &&& forall|i: int|
                2 <= i < list_items(form).len() ==> all_brought(later, library.forms, #[trigger] list_items(form)[i])
        },
    decreases outside(files, active), 70nat, 0nat,
{
    if let Ok(names) = names_in_items(form, 2, Set::empty()) {
        let renaming = library_renaming(name, names);
        lemma_declarations_true(files, form, 2, renaming, active, Seq::empty(), empty_top_level(), progress, limit);
        if let Ok((later, (exports, top))) = with_declarations(
            files,
            form,
            2,
            renaming,
            active,
            Seq::empty(),
            empty_top_level(),
            progress,
            limit,
        ) {
            lemma_exported_finite(exports, 0, renaming, top.macros, Map::empty(), Map::empty());
        }
    }
}

/// In a program an import declaration brings in every library that it names: the library is what its
/// file says, all its forms are in the expanded program, one behind the other, and so is a definition
/// of each imported name.
pub proof fn lemma_program_holds_imports(files: Files, forms: Seq<Form>, i: int, imports: Seq<Import>, j: int, limit: nat)
    requires
        0 <= i < forms.len(),
        !(forms.len() == 1 && library_form(forms[0]) is Some),
        import_declaration(forms[i]) == Ok::<Option<Seq<Import>>, Problem>(Some(imports)),
        0 <= j < imports.len(),
    ensures
        expanded_program(files, forms, limit) matches Ok(result) ==> exists|library: Library| #[trigger]
            is_library(files, imported_library(imports[j]), library, limit) && holds_import(
                result,
                imports[j],
                library,
                forms[i].span,
            ),
{
    let start = Progress { counter: 0, libraries: Seq::empty() };
    lemma_forms_true(files, forms, 0, Seq::empty(), empty_top_level(), start, limit);
    if let Ok((later, after)) = with_forms(files, forms, 0, Seq::empty(), empty_top_level(), start, limit) {
        assert(all_brought(later, after.forms, forms[i]));
        assert(is_brought(later, after.forms, imports[j], forms[i].span));
        let library = shelved(later.libraries, imported_library(imports[j]))->0;
        assert(is_library(files, imported_library(imports[j]), library, limit));
    }
}

/// In a library an import declaration brings in every library that it names: the library is what its
/// file says, all its forms are among the forms of the library that imports it, one behind the other,
/// and so is a definition of each imported name.
pub proof fn lemma_library_holds_imports(
    files: Files,
    form: Form,
    name: Seq<Seq<char>>,
    active: Seq<Seq<Seq<char>>>,
    progress: Progress,
    i: int,
    imports: Seq<Import>,
    j: int,
    limit: nat,
)
    requires
        is_true_shelf(files, progress, limit),
        2 <= i < list_items(form).len(),
        import_declaration(list_items(form)[i]) == Ok::<Option<Seq<Import>>, Problem>(Some(imports)),
        0 <= j < imports.len(),
    ensures
        declared(files, form, name, active, progress, limit) matches Ok((_, importing)) ==> exists|library: Library|
            #[trigger]
            is_library(files, imported_library(imports[j]), library, limit) && holds_import(
                importing.forms,
                imports[j],
                library,
                list_items(form)[i].span,
            ),
{
    lemma_declared_true(files, form, name, active, progress, limit);
    if let Ok((later, importing)) = declared(files, form, name, active, progress, limit) {
        let one = list_items(form)[i];
        assert(all_brought(later, importing.forms, one));
        assert(import_declaration(one)->Ok_0->0[j] == imports[j]);
        assert(is_brought(later, importing.forms, imports[j], one.span));
        let library = shelved(later.libraries, imported_library(imports[j]))->0;
        assert(is_library(files, imported_library(imports[j]), library, limit));
    }
}

/// An import declaration does the same in a library as in a program: afterwards the names mean the
/// same, and the same macros and forms are there.
pub proof fn lemma_import_in_library(
    files: Files,
    form: Form,
    renaming: Map<Seq<char>, Seq<char>>,
    active: Seq<Seq<Seq<char>>>,
    exports: Seq<(Seq<char>, Seq<char>)>,
    top: TopLevel,
    progress: Progress,
    limit: nat,
)
    requires
        import_declaration(form) matches Ok(Some(_)),
    ensures
        match (
            with_declaration(files, form, renaming, active, exports, top, progress, limit),
            with_form(files, form, active, top, progress, limit),
        ) {
            (Ok((left_progress, (left_exports, left))), Ok((right_progress, right))) => left == right && left_progress
                == right_progress && left_exports == exports,
            (Err(left), Err(right)) => left == right,
            _ => false,
        },
{
    lemma_only_import(form);
}

} // verus!
