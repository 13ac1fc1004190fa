//! What holds of the expansion of whole programs.
use crate::expand::declarations::{
    defined_name, export_declaration, import_declaration, keyword_items, library_form, names_in_items,
    syntax_definition, Import, Transformer,
};
use crate::expand::expressions::expanded;
use crate::expand::forms::list_items;
use crate::expand::imports::imported_library;
use crate::expand::laws::{lemma_higher_limit, lemma_no_macros, undotted, well_bound};
use crate::expand::libraries::{
    declared, empty_top_level, expanded_program, library_renaming, library_source, loaded, with_declaration,
    with_declarations, with_form, with_forms, with_import, with_imports, with_library_form, with_plain_form, FileText,
    Files, Progress, TopLevel,
};
use crate::expand::outcome::Stop;
use crate::expand::rename::{renamed, renamed_items};
use crate::expand::shelf::{lemma_outside, outside, shelved};
use crate::frontend::ast::{Form, Span};
use vstd::prelude::*;

verus! {

broadcast use vstd::seq_lib::group_seq_properties;

/// Whether all that is known of files in one place is known in another.
pub open spec fn holds_all_of(more: Files, files: Files) -> bool {
    forall|name: Seq<Seq<char>>|
        (#[trigger] shelved(files, name)) is Some ==> shelved(more, name) == shelved(files, name)
}

/// Whether a result rests on no limit and, where more files are known later, not on what is known
/// of files.
spec fn comes_through<T>(files: Files, more: Files, step: Result<T, Stop>) -> bool {
    match step {
        Err(Stop::Exhausted) => false,
        Err(Stop::Needs(name)) => files == more,
        _ => true,
    }
}

/// A higher limit changes no result: a program that expands, fails or asks for a library within a
/// limit does so within every higher one.
pub proof fn lemma_higher_limit_program(files: Files, forms: Seq<Form>, limit: nat, higher: nat)
    requires
        limit <= higher,
        expanded_program(files, forms, limit) != Err::<Seq<Form>, Stop>(Stop::Exhausted),
    ensures
        expanded_program(files, forms, higher) == expanded_program(files, forms, limit),
{
    lemma_program(files, files, forms, limit, higher);
}

/// Files that a program did not ask for change no result: a program that expands or fails does so
/// whatever else comes to be known of files.
pub proof fn lemma_more_files_program(files: Files, more: Files, forms: Seq<Form>, limit: nat)
    requires
        holds_all_of(more, files),
        match expanded_program(files, forms, limit) {
            Ok(_) => true,
            Err(Stop::Failed(_)) => true,
            Err(_) => false,
        },
    ensures
        expanded_program(more, forms, limit) == expanded_program(files, forms, limit),
{
    lemma_program(files, more, forms, limit, limit);
}

proof fn lemma_program(files: Files, more: Files, forms: Seq<Form>, limit: nat, higher: nat)
    requires
        limit <= higher,
        holds_all_of(more, files),
        comes_through(files, more, expanded_program(files, forms, limit)),
    ensures
        expanded_program(more, forms, higher) == expanded_program(files, forms, limit),
{
    let start = Progress { counter: 0, libraries: Seq::empty() };
    if forms.len() == 1 && library_form(forms[0]) is Some {
        lemma_declared(files, more, forms[0], library_form(forms[0])->0, Seq::empty(), start, limit, higher);
    } else {
        lemma_with_forms(files, more, forms, 0, Seq::empty(), empty_top_level(), start, limit, higher);
    }
}

proof fn lemma_loaded(
    files: Files,
    more: Files,
    name: Seq<Seq<char>>,
    active: Seq<Seq<Seq<char>>>,
    progress: Progress,
    limit: nat,
    higher: nat,
)
    requires
        limit <= higher,
        holds_all_of(more, files),
        comes_through(files, more, loaded(files, name, active, progress, limit)),
    ensures
        loaded(more, name, active, progress, higher) == loaded(files, name, active, progress, limit),
    decreases outside(files, active), 10nat, 0nat,
{
    if shelved(progress.libraries, name) is None && !active.contains(name) {
        if let Some(FileText::Source { path, text }) = shelved(files, name) {
            if let Ok(form) = library_source(name, path, text) {
                lemma_outside(files, active, name);
                lemma_declared(files, more, form, name, active.push(name), progress, limit, higher);
            }
        }
    }
}

proof fn lemma_with_imports(
    files: Files,
    more: Files,
    imports: Seq<Import>,
    index: nat,
    span: Span,
    active: Seq<Seq<Seq<char>>>,
    top: TopLevel,
    progress: Progress,
    limit: nat,
    higher: nat,
)
    requires
        limit <= higher,
        holds_all_of(more, files),
        comes_through(files, more, with_imports(files, imports, index, span, active, top, progress, limit)),
    ensures
        with_imports(more, imports, index, span, active, top, progress, higher) == with_imports(
            files,
            imports,
            index,
            span,
            active,
            top,
            progress,
            limit,
        ),
    decreases outside(files, active), 20nat, imports.len() - index,
{
    if index < imports.len() {
        let name = imported_library(imports[index as int]);
        lemma_loaded(files, more, name, active, progress, limit, higher);
        if let Ok((progress, library)) = loaded(files, name, active, progress, limit) {
            if let Ok(top) = with_import(imports[index as int], library, top, span) {
                lemma_with_imports(files, more, imports, index + 1, span, active, top, progress, limit, higher);
            }
        }
    }
}

proof fn lemma_with_form(
    files: Files,
    more: Files,
    form: Form,
    active: Seq<Seq<Seq<char>>>,
    top: TopLevel,
    progress: Progress,
    limit: nat,
    higher: nat,
)
    requires
        limit <= higher,
        holds_all_of(more, files),
        comes_through(files, more, with_form(files, form, active, top, progress, limit)),
    ensures
        with_form(more, form, active, top, progress, higher) == with_form(files, form, active, top, progress, limit),
    decreases outside(files, active), 30nat, 0nat,
{
    if let Ok(None) = syntax_definition(form, top.values) {
        match import_declaration(form) {
            Ok(Some(imports)) => {
                lemma_with_imports(files, more, imports, 0, form.span, active, top, progress, limit, higher);
            },
            Ok(None) => {
                reveal(with_plain_form);
                if library_form(form) is None {
                    lemma_higher_limit(form, top.macros, limit, higher, progress.counter);
                }
            },
            _ => {},
        }
    }
}

proof fn lemma_with_forms(
    files: Files,
    more: Files,
    forms: Seq<Form>,
    index: nat,
    active: Seq<Seq<Seq<char>>>,
    top: TopLevel,
    progress: Progress,
    limit: nat,
    higher: nat,
)
    requires
        limit <= higher,
        holds_all_of(more, files),
        comes_through(files, more, with_forms(files, forms, index, active, top, progress, limit)),
    ensures
        with_forms(more, forms, index, active, top, progress, higher) == with_forms(
            files,
            forms,
            index,
            active,
            top,
            progress,
            limit,
        ),
    decreases outside(files, active), 40nat, forms.len() - index,
{
    if index < forms.len() {
        lemma_with_form(files, more, forms[index as int], active, top, progress, limit, higher);
        if let Ok((progress, top)) = with_form(files, forms[index as int], active, top, progress, limit) {
            lemma_with_forms(files, more, forms, index + 1, active, top, progress, limit, higher);
        }
    }
}

proof fn lemma_with_declaration(
    files: Files,
    more: Files,
    form: Form,
    renaming: Map<Seq<char>, Seq<char>>,
    active: Seq<Seq<Seq<char>>>,
    exports: Seq<(Seq<char>, Seq<char>)>,
    top: TopLevel,
    progress: Progress,
    limit: nat,
    higher: nat,
)
    requires
        limit <= higher,
        holds_all_of(more, files),
        comes_through(files, more, with_declaration(files, form, renaming, active, exports, top, progress, limit)),
    ensures
        with_declaration(more, form, renaming, active, exports, top, progress, higher) == with_declaration(
            files,
            form,
            renaming,
            active,
            exports,
            top,
            progress,
            limit,
        ),
    decreases outside(files, active), 50nat, 0nat,
{
    if let Ok(None) = export_declaration(form) {
        match import_declaration(form) {
            Ok(Some(imports)) => {
                lemma_with_imports(files, more, imports, 0, form.span, active, top, progress, limit, higher);
            },
            Ok(None) => {
                if keyword_items(form, "begin"@) is Some {
                    if let Ok(forms) = renamed_items(form, 1, renaming, Set::empty()) {
                        lemma_with_forms(files, more, forms, 0, active, top, progress, limit, higher);
                    }
                } else {
                    reveal(with_library_form);
                    if let Ok(plain) = renamed(form, renaming, Set::empty()) {
                        if let Ok(None) = syntax_definition(plain, top.values) {
                            if !(expanded(plain, top.macros, limit, progress.counter) == Err::<(nat, Form), Stop>(
                                Stop::Exhausted,
                            )) {
                                lemma_higher_limit(plain, top.macros, limit, higher, progress.counter);
                            }
                        }
                    }
                }
            },
            _ => {},
        }
    }
}

proof fn lemma_with_declarations(
    files: Files,
    more: Files,
    form: Form,
    index: nat,
    renaming: Map<Seq<char>, Seq<char>>,
    active: Seq<Seq<Seq<char>>>,
    exports: Seq<(Seq<char>, Seq<char>)>,
    top: TopLevel,
    progress: Progress,
    limit: nat,
    higher: nat,
)
    requires
        limit <= higher,
        holds_all_of(more, files),
        comes_through(files, more, with_declarations(files, form, index, renaming, active, exports, top, progress, limit)),
    ensures
        with_declarations(more, form, index, renaming, active, exports, top, progress, higher) == with_declarations(
            files,
            form,
            index,
            renaming,
            active,
            exports,
            top,
            progress,
            limit,
        ),
    decreases outside(files, active), 60nat, list_items(form).len() - index,
{
    if index < list_items(form).len() {
        let item = list_items(form)[index as int];
        lemma_with_declaration(files, more, item, renaming, active, exports, top, progress, limit, higher);
        if let Ok((progress, (exports, top))) = with_declaration(
            files,
            item,
            renaming,
            active,
            exports,
            top,
            progress,
            limit,
        ) {
            lemma_with_declarations(
                files,
                more,
                form,
                index + 1,
                renaming,
                active,
                exports,
                top,
                progress,
                limit,
                higher,
            );
        }
    }
}

proof fn lemma_declared(
    files: Files,
    more: Files,
    form: Form,
    name: Seq<Seq<char>>,
    active: Seq<Seq<Seq<char>>>,
    progress: Progress,
    limit: nat,
    higher: nat,
)
    requires
        limit <= higher,
        holds_all_of(more, files),
        comes_through(files, more, declared(files, form, name, active, progress, limit)),
    ensures
        declared(more, form, name, active, progress, higher) == declared(files, form, name, active, progress, limit),
    decreases outside(files, active), 70nat, 0nat,
{
    if let Ok(names) = names_in_items(form, 2, Set::empty()) {
        lemma_with_declarations(
            files,
                more,
            form,
            2,
            library_renaming(name, names),
            active,
            Seq::empty(),
            empty_top_level(),
            progress,
            limit,
            higher,
        );
    }
}

/// Whether a form of a program defines no macro, imports nothing, is no library, and defines a name
/// if it is a definition.
pub open spec fn is_plain(form: Form) -> bool {
    &&& keyword_items(form, "define-syntax"@) matches Some(items) ==> items.len() != 3
    &&& keyword_items(form, "import"@) is None
    &&& library_form(form) is None
    &&& defined_name(form) is Ok
}

/// Whether expansion has nothing to do in a form of a program.
pub open spec fn needs_nothing(form: Form) -> bool {
    is_plain(form) && undotted(form) && well_bound(form)
}

proof fn lemma_plain_forms(files: Files, forms: Seq<Form>, index: nat, top: TopLevel, progress: Progress, limit: nat)
    requires
        forall|i: int| 0 <= i < forms.len() ==> needs_nothing(#[trigger] forms[i]),
        index <= forms.len(),
        top.forms == forms.take(index as int),
        top.macros == Map::<Seq<char>, Transformer>::empty(),
    ensures
        with_forms(files, forms, index, Seq::empty(), top, progress, limit) matches Ok((_, top)) && top.forms == forms,
    decreases forms.len() - index,
{
    if index >= forms.len() {
        assert(forms.take(index as int) =~= forms);
    } else {
        let form = forms[index as int];
        assert(needs_nothing(form));
        reveal(syntax_definition);
        reveal(import_declaration);
        reveal(with_plain_form);
        lemma_no_macros(form, limit, progress.counter);
        let step = with_form(files, form, Seq::empty(), top, progress, limit);
        assert(step is Ok);
        if let Ok((progress, top)) = step {
            assert(top.forms =~= forms.take(index as int + 1));
            lemma_plain_forms(files, forms, index + 1, top, progress, limit);
        }
    }
}

/// A program that defines no macros and imports nothing is left as it is, whatever the limit and
/// the files.
pub proof fn lemma_no_macros_program(files: Files, forms: Seq<Form>, limit: nat)
    requires
        forall|i: int| 0 <= i < forms.len() ==> needs_nothing(#[trigger] forms[i]),
    ensures
        expanded_program(files, forms, limit) == Ok::<Seq<Form>, Stop>(forms),
{
    let start = Progress { counter: 0, libraries: Seq::empty() };
    assert(empty_top_level().forms =~= forms.take(0));
    lemma_plain_forms(files, forms, 0, empty_top_level(), start, limit);
    if forms.len() == 1 {
        assert(needs_nothing(forms[0]));
    }
}

} // verus!
