//! What declarations say: which names a library defines and hands out, and what import sets ask for.
use crate::error::Problem;
use crate::expand::declarations::{
    defined_name, export_declaration, export_list, export_of, identifiers, import_declaration, import_set_of,
    import_sets, keyword_items, names_in_form, names_in_items, rename_pair, rename_pairs, syntax_definition, Import,
};
use crate::expand::expressions::Macros;
use crate::expand::forms::{list_items, proper_items, symbol_of};
use crate::expand::imports::replaced;
use crate::expand::libraries::exported;
use crate::expand::template_laws::starts;
use crate::frontend::ast::{Form, FormKind};
use vstd::prelude::*;

verus! {

broadcast use vstd::seq_lib::group_seq_properties;

/// Whether an item of an export declaration hands out a name under another.
pub open spec fn is_export(item: Form, external: Seq<char>, internal: Seq<char>) -> bool {
    ||| symbol_of(item) == Some(internal) && external == internal
    ||| proper_items(item) is Some && starts(list_items(item), "rename"@) && list_items(item).len() == 3 && symbol_of(
        list_items(item)[1],
    ) == Some(internal) && symbol_of(list_items(item)[2]) == Some(external)
}

/// An export is what its item says: a name by itself, or a name and the one that it gets outside.
pub proof fn lemma_export(item: Form, external: Seq<char>, internal: Seq<char>)
    ensures
        export_of(item) == Ok::<(Seq<char>, Seq<char>), Problem>((external, internal)) <==> is_export(
            item,
            external,
            internal,
        ),
{
}

proof fn lemma_export_list(items: Seq<Form>, index: nat, found: Seq<(Seq<char>, Seq<char>)>)
    ensures
        export_list(items, index, found) matches Ok(all) ==> found.is_prefix_of(all) && all.len() == found.len() + (
        if items.len() > index {
            items.len() - index
        } else {
            0
        }) && forall|i: int|
            index <= i < items.len() ==> is_export(
                #[trigger] items[i],
                all[i - index + found.len()].0,
                all[i - index + found.len()].1,
            ),
    decreases items.len() - index,
{
    if index < items.len() {
        if let Ok(export) = export_of(items[index as int]) {
            let next = found.push(export);
            lemma_export_list(items, index + 1, next);
            if let Ok(all) = export_list(items, index, found) {
                assert(all[found.len() as int] == next[found.len() as int]);
                assert(found =~= all.subrange(0, found.len() as int)) by {
                    assert forall|i: int| 0 <= i < found.len() implies found[i] == all[i] by {
                        assert(next[i] == all[i]);
                    }
                }
                lemma_export(items[index as int], export.0, export.1);
                assert forall|i: int| index <= i < items.len() implies is_export(
                    #[trigger] items[i],
                    all[i - index + found.len()].0,
                    all[i - index + found.len()].1,
                ) by {
                    if i > index {
                        assert(i - (index + 1) + next.len() == i - index + found.len());
                    }
                }
            }
        }
    } else {
        assert(found =~= found.subrange(0, found.len() as int));
    }
}

/// An export declaration hands out what its items say, in their order.
pub proof fn lemma_exports(form: Form)
    ensures
        export_declaration(form) matches Ok(Some(exports)) ==> starts(list_items(form), "export"@) && exports.len()
            == list_items(form).len() - 1 && forall|i: int|
            0 <= i < exports.len() ==> is_export(
                list_items(form)[i + 1],
                (#[trigger] exports[i]).0,
                exports[i].1,
            ),
{
    reveal(export_declaration);
    if let Ok(Some(exports)) = export_declaration(form) {
        let items = list_items(form);
        lemma_export_list(items, 1, Seq::empty());
        assert forall|i: int| 0 <= i < exports.len() implies is_export(
            items[i + 1],
            (#[trigger] exports[i]).0,
            exports[i].1,
        ) by {
            assert(items[i + 1] == items[i + 1]);
        }
    }
}

/// Whether what a library knows by the inner name of an export is handed out under its outer name: a macro
/// as it is, and a value by the name that it has inside.
pub open spec fn is_handed_out(
    export: (Seq<char>, Seq<char>),
    renaming: Map<Seq<char>, Seq<char>>,
    macros: Macros,
    values: Map<Seq<char>, Seq<char>>,
    handed: Macros,
) -> bool {
    let inner = if renaming.contains_key(export.1) {
        renaming[export.1]
    } else {
        export.1
    };
    if macros.contains_key(inner) {
        handed.contains_key(export.0) && handed[export.0] == macros[inner]
    } else {
        values.contains_key(export.0) && values[export.0] == inner
    }
}

proof fn lemma_handed_out_from(
    exports: Seq<(Seq<char>, Seq<char>)>,
    index: nat,
    renaming: Map<Seq<char>, Seq<char>>,
    macros: Macros,
    found_values: Map<Seq<char>, Seq<char>>,
    found_macros: Macros,
)
    ensures
        exported(exports, index, renaming, macros, found_values, found_macros) matches Ok((values, handed)) ==> {
            &&& forall|name: Seq<char>| #[trigger]
                found_values.contains_key(name) ==> values.contains_key(name) && values[name] == found_values[name]
            &&& forall|name: Seq<char>| #[trigger]
                found_macros.contains_key(name) ==> handed.contains_key(name) && handed[name] == found_macros[name]
            &&& forall|i: int|
                index <= i < exports.len() ==> is_handed_out(#[trigger] exports[i], renaming, macros, values, handed)
        },
    decreases exports.len() - index,
{
    if index < exports.len() {
        let external = exports[index as int].0;
        let internal = replaced(exports[index as int].1, renaming);
        if macros.contains_key(internal) {
            let more = found_macros.insert(external, macros[internal]);
            if !found_macros.contains_key(external) {
                lemma_handed_out_from(exports, index + 1, renaming, macros, found_values, more);
                assert(more.contains_key(external));
                assert forall|name: Seq<char>| #[trigger] found_macros.contains_key(name) implies more.contains_key(name)
                    && more[name] == found_macros[name] by {}
            }
        } else if !found_values.contains_key(external) {
            let more = found_values.insert(external, internal);
            lemma_handed_out_from(exports, index + 1, renaming, macros, more, found_macros);
            assert(more.contains_key(external));
            assert forall|name: Seq<char>| #[trigger] found_values.contains_key(name) implies more.contains_key(name)
                && more[name] == found_values[name] by {}
        }
    }
}

/// A library hands out each of its exports.
pub proof fn lemma_handed_out(exports: Seq<(Seq<char>, Seq<char>)>, renaming: Map<Seq<char>, Seq<char>>, macros: Macros)
    ensures
        exported(exports, 0, renaming, macros, Map::empty(), Map::empty()) matches Ok((values, handed)) ==> forall|i: int|
            0 <= i < exports.len() ==> is_handed_out(#[trigger] exports[i], renaming, macros, values, handed),
{
    lemma_handed_out_from(exports, 0, renaming, macros, Map::empty(), Map::empty());
}

/// Whether a form at the top level of a library defines a name.
pub open spec fn defines(form: Form, name: Seq<char>) -> bool
    decreases form, 1nat, 0nat,
{
    match form.kind {
        FormKind::List { items, tail: None } => if starts(items, "begin"@) {
            defines_from(form, 1, name)
        } else if starts(items, "define-syntax"@) {
            items.len() == 3 && symbol_of(items[1]) == Some(name)
        } else if starts(items, "define"@) {
            items.len() >= 3 && (symbol_of(items[1]) == Some(name) || starts(list_items(items[1]), name))
        } else {
            false
        },
        _ => false,
    }
}

/// The same for the items of a list from one on.
pub open spec fn defines_from(form: Form, index: nat, name: Seq<char>) -> bool
    decreases form, 0nat, list_items(form).len() - index,
{
    index < list_items(form).len() && (defines(list_items(form)[index as int], name) || defines_from(
        form,
        index + 1,
        name,
    ))
}

/// The names that are collected are exactly those that the forms define.
pub proof fn lemma_names_defined(form: Form, index: nat, names: Set<Seq<char>>, name: Seq<char>)
    ensures
        names_in_items(form, index, names) matches Ok(all) ==> (all.contains(name) <==> names.contains(name)
            || defines_from(form, index, name)),
    decreases form, 0nat, list_items(form).len() - index,
{
    if index < list_items(form).len() {
        let item = list_items(form)[index as int];
        lemma_name_defined(item, names, name);
        if let Ok(more) = names_in_form(item, names) {
            lemma_names_defined(form, index + 1, more, name);
        }
    }
}

proof fn lemma_name_defined(form: Form, names: Set<Seq<char>>, name: Seq<char>)
    ensures
        names_in_form(form, names) matches Ok(all) ==> (all.contains(name) <==> names.contains(name) || defines(
            form,
            name,
        )),
    decreases form, 1nat, 0nat,
{
    reveal(export_declaration);
    reveal(import_declaration);
    reveal(syntax_definition);
    reveal(defined_name);
    lemma_declaration_keywords();
    if keyword_items(form, "begin"@) is Some {
        lemma_names_defined(form, 1, names, name);
    }
}

proof fn lemma_declaration_keywords()
    ensures
        "begin"@ != "define"@ && "begin"@ != "define-syntax"@,
        "export"@ != "begin"@ && "export"@ != "define"@ && "export"@ != "define-syntax"@,
        "import"@ != "begin"@ && "import"@ != "define"@ && "import"@ != "define-syntax"@ && "import"@ != "export"@,
        "define"@ != "define-syntax"@,
{
    reveal_strlit("begin");
    reveal_strlit("define");
    reveal_strlit("define-syntax");
    reveal_strlit("export");
    reveal_strlit("import");
    assert("begin"@[0] == 'b' && "define"@[0] == 'd' && "define-syntax"@[0] == 'd' && "export"@[0] == 'e');
    assert("import"@[0] == 'i' && "define"@.len() == 6 && "define-syntax"@.len() == 13);
}

/// Whether the items of a list from one on are names.
pub open spec fn are_names(items: Seq<Form>, start: int, names: Seq<Seq<char>>) -> bool {
    &&& names.len() == items.len() - start
    &&& forall|i: int| 0 <= i < names.len() ==> symbol_of(items[i + start]) == Some(#[trigger] names[i])
}

/// Whether an item gives a name another.
pub open spec fn is_rename(item: Form, old_name: Seq<char>, new_name: Seq<char>) -> bool {
    proper_items(item) is Some && list_items(item).len() == 2 && symbol_of(list_items(item)[0]) == Some(old_name)
        && symbol_of(list_items(item)[1]) == Some(new_name)
}

/// Whether the items of a list from one on give names others.
pub open spec fn are_renames(items: Seq<Form>, start: int, renames: Seq<(Seq<char>, Seq<char>)>) -> bool {
    &&& renames.len() == items.len() - start
    &&& forall|i: int|
        0 <= i < renames.len() ==> is_rename(items[i + start], (#[trigger] renames[i]).0, renames[i].1)
}

/// Whether a form asks for an import set.
pub open spec fn asks_for(form: Form, import: Import) -> bool
    decreases form,
{
    match form.kind {
        FormKind::List { items, tail: None } => if items.len() == 0 {
            false
        } else if starts(items, "only"@) {
            &&& import matches Import::Only { set, names }
            &&& items.len() >= 3
            &&& asks_for(items[1], *set)
            &&& are_names(items, 2, names)
        } else if starts(items, "except"@) {
            &&& import matches Import::Except { set, names }
            &&& items.len() >= 3
            &&& asks_for(items[1], *set)
            &&& are_names(items, 2, names)
        } else if starts(items, "prefix"@) {
            &&& import matches Import::Prefix { set, prefix }
            &&& items.len() == 3
            &&& asks_for(items[1], *set)
            &&& symbol_of(items[2]) == Some(prefix)
        } else if starts(items, "rename"@) {
            &&& import matches Import::Rename { set, renames }
            &&& items.len() >= 3
            &&& asks_for(items[1], *set)
            &&& are_renames(items, 2, renames)
        } else {
            import matches Import::Library(names) && are_names(items, 0, names)
        },
        _ => false,
    }
}

proof fn lemma_names_read(items: Seq<Form>, index: nat, context: Seq<char>, found: Seq<Seq<char>>)
    requires
        index <= items.len(),
    ensures
        identifiers(items, index, context, found) matches Ok(names) ==> found.is_prefix_of(names) && names.len()
            == found.len() + items.len() - index && forall|i: int|
            index <= i < items.len() ==> symbol_of(#[trigger] items[i]) == Some(names[i - index + found.len()]),
    decreases items.len() - index,
{
    if index < items.len() {
        if let Some(name) = symbol_of(items[index as int]) {
            let next = found.push(name);
            lemma_names_read(items, index + 1, context, next);
            if let Ok(names) = identifiers(items, index, context, found) {
                assert(names[found.len() as int] == next[found.len() as int]);
                assert(found =~= names.subrange(0, found.len() as int)) by {
                    assert forall|i: int| 0 <= i < found.len() implies found[i] == names[i] by {
                        assert(next[i] == names[i]);
                    }
                }
                assert forall|i: int| index <= i < items.len() implies symbol_of(#[trigger] items[i]) == Some(
                    names[i - index + found.len()],
                ) by {
                    if i > index {
                        assert(i - (index + 1) + next.len() == i - index + found.len());
                    }
                }
            }
        }
    } else {
        assert(found =~= found.subrange(0, found.len() as int));
    }
}

proof fn lemma_renames_read(items: Seq<Form>, index: nat, found: Seq<(Seq<char>, Seq<char>)>)
    requires
        index <= items.len(),
    ensures
        rename_pairs(items, index, found) matches Ok(pairs) ==> found.is_prefix_of(pairs) && pairs.len() == found.len()
            + items.len() - index && forall|i: int|
            index <= i < items.len() ==> is_rename(
                #[trigger] items[i],
                pairs[i - index + found.len()].0,
                pairs[i - index + found.len()].1,
            ),
    decreases items.len() - index,
{
    if index < items.len() {
        if let Ok(pair) = rename_pair(items[index as int]) {
            let next = found.push(pair);
            lemma_renames_read(items, index + 1, next);
            if let Ok(pairs) = rename_pairs(items, index, found) {
                assert(pairs[found.len() as int] == next[found.len() as int]);
                assert(found =~= pairs.subrange(0, found.len() as int)) by {
                    assert forall|i: int| 0 <= i < found.len() implies found[i] == pairs[i] by {
                        assert(next[i] == pairs[i]);
                    }
                }
                assert forall|i: int| index <= i < items.len() implies is_rename(
                    #[trigger] items[i],
                    pairs[i - index + found.len()].0,
                    pairs[i - index + found.len()].1,
                ) by {
                    if i > index {
                        assert(i - (index + 1) + next.len() == i - index + found.len());
                    }
                }
            }
        }
    } else {
        assert(found =~= found.subrange(0, found.len() as int));
    }
}

/// An import set is what its form asks for: its keyword says which kind it is, and the names that it lists
/// are its names, in their order.
pub proof fn lemma_import_set(form: Form)
    ensures
        import_set_of(form) matches Ok(import) ==> asks_for(form, import),
    decreases form,
{
    if let FormKind::List { items, tail: None } = form.kind {
        lemma_names_read(items, 0, "library name"@, Seq::empty());
        if items.len() >= 3 {
            lemma_renames_read(items, 2, Seq::empty());
            lemma_import_set(items[1]);
            lemma_names_read(items, 2, "only import set identifiers"@, Seq::empty());
            lemma_names_read(items, 2, "except import set identifiers"@, Seq::empty());
        }
    }
}

proof fn lemma_import_sets(items: Seq<Form>, index: nat, found: Seq<Import>)
    ensures
        import_sets(items, index, found) matches Ok(all) ==> found.is_prefix_of(all) && all.len() == found.len() + (
        if items.len() > index {
            items.len() - index
        } else {
            0
        }) && forall|i: int|
            index <= i < items.len() ==> asks_for(#[trigger] items[i], all[i - index + found.len()]),
    decreases items.len() - index,
{
    if index < items.len() {
        lemma_import_set(items[index as int]);
        if let Ok(import) = import_set_of(items[index as int]) {
            let next = found.push(import);
            lemma_import_sets(items, index + 1, next);
            if let Ok(all) = import_sets(items, index, found) {
                assert(all[found.len() as int] == next[found.len() as int]);
                assert(found =~= all.subrange(0, found.len() as int)) by {
                    assert forall|i: int| 0 <= i < found.len() implies found[i] == all[i] by {
                        assert(next[i] == all[i]);
                    }
                }
                assert forall|i: int| index <= i < items.len() implies asks_for(
                    #[trigger] items[i],
                    all[i - index + found.len()],
                ) by {
                    if i > index {
                        assert(i - (index + 1) + next.len() == i - index + found.len());
                    }
                }
            }
        }
    } else {
        assert(found =~= found.subrange(0, found.len() as int));
    }
}

/// An import declaration asks for what its items say, in their order.
pub proof fn lemma_imports(form: Form)
    ensures
        import_declaration(form) matches Ok(Some(imports)) ==> starts(list_items(form), "import"@) && imports.len()
            == list_items(form).len() - 1 && forall|i: int|
            0 <= i < imports.len() ==> asks_for(list_items(form)[i + 1], #[trigger] imports[i]),
{
    reveal(import_declaration);
    if let Ok(Some(imports)) = import_declaration(form) {
        let items = list_items(form);
        lemma_import_sets(items, 1, Seq::empty());
        assert forall|i: int| 0 <= i < imports.len() implies asks_for(items[i + 1], #[trigger] imports[i]) by {
            assert(items[i + 1] == items[i + 1]);
        }
    }
}

} // verus!
