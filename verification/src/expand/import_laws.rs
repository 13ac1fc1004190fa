//! What holds of import sets as a whole.
use crate::expand::declarations::Import;
use crate::expand::imports::{
    except_names, imported_exports, imported_names, only_exports, only_names, prefixed_exports, prefixed_names,
    replaced, replaced_exports, replaced_names, replacements, Library,
};
use crate::names::{ascending, insert_sorted, lemma_ascending, lemma_insert_sorted, names_ascend};
use vstd::prelude::*;

verus! {

broadcast use vstd::seq_lib::group_seq_properties;

/// Every finite set of names can be listed in ascending order.
pub(crate) proof fn lemma_ascending_lists(names: Set<Seq<char>>)
    requires
        names.finite(),
    ensures
        names_ascend(ascending(names)),
        ascending(names).to_set() == names,
    decreases names.len(),
{
    if names.len() == 0 {
        let list = Seq::<Seq<char>>::empty();
        assert(list.to_set() =~= names);
        lemma_ascending(list);
    } else {
        let name = names.choose();
        let rest = names.remove(name);
        lemma_ascending_lists(rest);
        let list = insert_sorted(ascending(rest), name);
        lemma_insert_sorted(ascending(rest), name);
        assert(list.to_set() =~= names) by {
            assert forall|x: Seq<char>| list.to_set().contains(x) <==> names.contains(x) by {
                assert(ascending(rest).to_set().contains(x) <==> rest.contains(x));
            }
        }
        lemma_ascending(list);
    }
}

proof fn lemma_only_names(names: Set<Seq<char>>, only: Seq<Seq<char>>, index: nat, found: Set<Seq<char>>)
    ensures
        only_names(names, only, index, found) matches Ok(all) ==> {
            &&& forall|i: int| index <= i < only.len() ==> names.contains(#[trigger] only[i])
            &&& forall|name: Seq<char>| #[trigger]
                all.contains(name) <==> found.contains(name) || exists|i: int|
                    index <= i < only.len() && #[trigger] only[i] == name
        },
    decreases only.len() - index,
{
    if index < only.len() && names.contains(only[index as int]) {
        let next = found.insert(only[index as int]);
        lemma_only_names(names, only, index + 1, next);
        if let Ok(all) = only_names(names, only, index + 1, next) {
            assert forall|name: Seq<char>| #[trigger] all.contains(name) <==> found.contains(name) || exists|i: int|
                index <= i < only.len() && #[trigger] only[i] == name by {
                assert(next.contains(name) <==> found.contains(name) || only[index as int] == name);
            }
        }
    }
}

proof fn lemma_only_exports<T>(exports: Map<Seq<char>, T>, only: Seq<Seq<char>>, index: nat, found: Map<Seq<char>, T>)
    requires
        found.dom().finite(),
        forall|name: Seq<char>| #[trigger]
            found.contains_key(name) ==> exports.contains_key(name) && found[name] == exports[name],
    ensures
        only_exports(exports, only, index, found) matches Ok(all) ==> {
            &&& all.dom().finite()
            &&& forall|name: Seq<char>| #[trigger]
                all.contains_key(name) ==> exports.contains_key(name) && all[name] == exports[name]
            &&& forall|name: Seq<char>| #[trigger]
                all.contains_key(name) <==> found.contains_key(name) || (exports.contains_key(name) && exists|i: int|
                    index <= i < only.len() && #[trigger] only[i] == name)
        },
    decreases only.len() - index,
{
    if index < only.len() {
        let name = only[index as int];
        let next = if exports.contains_key(name) { found.insert(name, exports[name]) } else { found };
        if !(exports.contains_key(name) && found.contains_key(name)) {
            lemma_only_exports(exports, only, index + 1, next);
            if let Ok(all) = only_exports(exports, only, index + 1, next) {
                assert forall|x: Seq<char>| #[trigger]
                    all.contains_key(x) <==> found.contains_key(x) || (exports.contains_key(x) && exists|i: int|
                        index <= i < only.len() && #[trigger] only[i] == x) by {
                    assert(next.contains_key(x) <==> found.contains_key(x) || (exports.contains_key(name) && x
                        == name));
                }
            }
        }
    }
}

proof fn lemma_except_names(names: Set<Seq<char>>, excluded: Seq<Seq<char>>, index: nat)
    ensures
        except_names(names, excluded, index) matches Ok(all) ==> forall|name: Seq<char>| #[trigger]
            all.contains(name) <==> names.contains(name) && !(exists|i: int|
                index <= i < excluded.len() && #[trigger] excluded[i] == name),
    decreases excluded.len() - index,
{
    if index < excluded.len() && names.contains(excluded[index as int]) {
        let next = names.remove(excluded[index as int]);
        lemma_except_names(next, excluded, index + 1);
        if let Ok(all) = except_names(next, excluded, index + 1) {
            assert forall|name: Seq<char>| #[trigger] all.contains(name) <==> names.contains(name) && !(exists|i: int|
                index <= i < excluded.len() && #[trigger] excluded[i] == name) by {
                assert(next.contains(name) <==> names.contains(name) && excluded[index as int] != name);
            }
        }
    }
}

/// Whether `part` gives the names among `names` the new names that `whole` gives them, and no
/// other names.
spec fn is_part(part: Map<Seq<char>, Seq<char>>, whole: Map<Seq<char>, Seq<char>>, names: Set<Seq<char>>) -> bool {
    forall|name: Seq<char>|
        {
            &&& #[trigger] part.contains_key(name) <==> whole.contains_key(name) && names.contains(name)
            &&& part.contains_key(name) ==> part[name] == whole[name]
        }
}

/// New names for some of the names are the new names that all of them get.
proof fn lemma_replacements_agree(
    all: Set<Seq<char>>,
    some: Set<Seq<char>>,
    renames: Seq<(Seq<char>, Seq<char>)>,
    index: nat,
    whole: Map<Seq<char>, Seq<char>>,
    part: Map<Seq<char>, Seq<char>>,
)
    requires
        some.subset_of(all),
        is_part(part, whole, some),
    ensures
        match (replacements(all, renames, index, true, whole), replacements(some, renames, index, false, part)) {
            (Ok(whole), Ok(part)) => is_part(part, whole, some),
            (Ok(_), Err(_)) => false,
            _ => true,
        },
    decreases renames.len() - index,
{
    if index < renames.len() {
        let (from, to) = renames[index as int];
        if all.contains(from) && !whole.contains_key(from) {
            let next = if some.contains(from) { part.insert(from, to) } else { part };
            assert(!part.contains_key(from));
            lemma_replacements_agree(all, some, renames, index + 1, whole.insert(from, to), next);
        }
    }
}

proof fn lemma_replaced_names(
    names: Seq<Seq<char>>,
    index: nat,
    replacements: Map<Seq<char>, Seq<char>>,
    found: Set<Seq<char>>,
)
    ensures
        replaced_names(names, index, replacements, found) matches Ok(all) ==> forall|name: Seq<char>| #[trigger]
            all.contains(name) <==> found.contains(name) || exists|i: int|
                index <= i < names.len() && replaced(#[trigger] names[i], replacements) == name,
    decreases names.len() - index,
{
    if index < names.len() {
        let name = replaced(names[index as int], replacements);
        if !found.contains(name) {
            let next = found.insert(name);
            lemma_replaced_names(names, index + 1, replacements, next);
            if let Ok(all) = replaced_names(names, index + 1, replacements, next) {
                assert forall|x: Seq<char>| #[trigger] all.contains(x) <==> found.contains(x) || exists|i: int|
                    index <= i < names.len() && replaced(#[trigger] names[i], replacements) == x by {
                    assert(next.contains(x) <==> found.contains(x) || replaced(
                        names[index as int],
                        replacements,
                    ) == x);
                }
            }
        }
    }
}

proof fn lemma_replaced_exports<T>(
    exports: Map<Seq<char>, T>,
    names: Seq<Seq<char>>,
    index: nat,
    replacements: Map<Seq<char>, Seq<char>>,
    found: Map<Seq<char>, T>,
)
    requires
        found.dom().finite(),
    ensures
        replaced_exports(exports, names, index, replacements, found) matches Ok(all) ==> {
            &&& all.dom().finite()
            &&& forall|name: Seq<char>| #[trigger] found.contains_key(name) ==> all.contains_key(name) && all[name]
                == found[name]
            &&& forall|i: int|
                index <= i < names.len() ==> all.contains_key(replaced(#[trigger] names[i], replacements))
                    && all[replaced(names[i], replacements)] == exports[names[i]]
            &&& forall|name: Seq<char>| #[trigger]
                all.contains_key(name) ==> found.contains_key(name) || exists|i: int|
                    index <= i < names.len() && replaced(#[trigger] names[i], replacements) == name
        },
    decreases names.len() - index,
{
    if index < names.len() {
        let name = replaced(names[index as int], replacements);
        if !found.contains_key(name) {
            let next = found.insert(name, exports[names[index as int]]);
            lemma_replaced_exports(exports, names, index + 1, replacements, next);
            if let Ok(all) = replaced_exports(exports, names, index + 1, replacements, next) {
                assert(next.contains_key(name));
                assert forall|x: Seq<char>| #[trigger] found.contains_key(x) implies all.contains_key(x) && all[x]
                    == found[x] by {
                    assert(next.contains_key(x));
                }
                assert forall|x: Seq<char>| #[trigger] all.contains_key(x) implies found.contains_key(x)
                    || exists|i: int| index <= i < names.len() && replaced(#[trigger] names[i], replacements) == x by {
                    if !found.contains_key(x) {
                        assert(next.contains_key(x) <==> x == name);
                        if x == name {
                            assert(replaced(names[index as int], replacements) == x);
                        }
                    }
                }
            }
        }
    }
}

/// Whether all that is imported comes from what is exported.
pub open spec fn comes_from<T>(imported: Map<Seq<char>, T>, exports: Map<Seq<char>, T>) -> bool {
    forall|name: Seq<char>| #[trigger]
        imported.contains_key(name) ==> exists|source: Seq<char>| #[trigger]
            exports.contains_key(source) && exports[source] == imported[name]
}

/// An import set brings in nothing but what the library exports, if under other names.
pub proof fn lemma_imports_come_from_exports<T>(import: Import, exports: Map<Seq<char>, T>)
    requires
        exports.dom().finite(),
    ensures
        imported_exports(import, exports) matches Ok(imported) ==> imported.dom().finite() && comes_from(
            imported,
            exports,
        ),
    decreases import,
{
    match import {
        Import::Library(name) => {
            assert(forall|name: Seq<char>| #[trigger] exports.contains_key(name) ==> exports[name] == exports[name]);
        },
        Import::Only { set, names } => {
            lemma_imports_come_from_exports(*set, exports);
            if let Ok(known) = imported_exports(*set, exports) {
                lemma_only_exports(known, names, 0, Map::empty());
            }
        },
        Import::Except { set, names } => {
            lemma_imports_come_from_exports(*set, exports);
            if let Ok(known) = imported_exports(*set, exports) {
                let imported = known.remove_keys(names.to_set());
                assert(imported.dom() =~= known.dom().difference(names.to_set()));
                assert forall|name: Seq<char>| #[trigger] imported.contains_key(name) implies known.contains_key(
                    name,
                ) && imported[name] == known[name] by {}
            }
        },
        Import::Prefix { set, prefix } => {
            lemma_imports_come_from_exports(*set, exports);
            if let Ok(known) = imported_exports(*set, exports) {
                lemma_prefixed(known, prefix);
                let imported = prefixed_exports(known, prefix);
                assert forall|name: Seq<char>| #[trigger] imported.contains_key(name) implies exists|
                    source: Seq<char>,
                | #[trigger]
                    exports.contains_key(source) && exports[source] == imported[name] by {
                    assert(known.contains_key(name.skip(prefix.len() as int)));
                }
            }
        },
        Import::Rename { set, renames } => {
            lemma_imports_come_from_exports(*set, exports);
            if let Ok(known) = imported_exports(*set, exports) {
                lemma_ascending_lists(known.dom());
                if let Ok(replacements) = replacements(known.dom(), renames, 0, false, Map::empty()) {
                    let names = ascending(known.dom());
                    lemma_replaced_exports(known, names, 0, replacements, Map::empty());
                    if let Ok(imported) = replaced_exports(known, names, 0, replacements, Map::empty()) {
                        assert forall|name: Seq<char>| #[trigger] imported.contains_key(name) implies exists|
                            source: Seq<char>,
                        | #[trigger]
                            exports.contains_key(source) && exports[source] == imported[name] by {
                            let i = choose|i: int|
                                0 <= i < names.len() && replaced(#[trigger] names[i], replacements) == name;
                            assert(names.to_set().contains(names[i]));
                            assert(known.contains_key(names[i]));
                        }
                    }
                }
            }
        },
    }
}

proof fn lemma_prefixed<T>(exports: Map<Seq<char>, T>, prefix: Seq<char>)
    requires
        exports.dom().finite(),
    ensures
        prefixed_exports(exports, prefix).dom() == prefixed_names(exports.dom(), prefix),
        prefixed_exports(exports, prefix).dom().finite(),
{
    let mapped = prefixed_exports(exports, prefix).dom();
    let named = prefixed_names(exports.dom(), prefix);
    exports.dom().lemma_map_finite(|name: Seq<char>| prefix + name);
    assert forall|name: Seq<char>| mapped.contains(name) <==> named.contains(name) by {
        if mapped.contains(name) {
            let rest = name.skip(prefix.len() as int);
            assert(prefix + rest =~= name);
            assert(exports.dom().contains(rest));
        }
        if named.contains(name) {
            let rest = choose|rest: Seq<char>| exports.dom().contains(rest) && name == prefix + rest;
            assert(name.skip(prefix.len() as int) =~= rest);
            assert(prefix.is_prefix_of(name));
        }
    }
    assert(mapped =~= named);
}

/// An import set brings in what it names: the names that it brings in are those of the values and
/// of the macros that it brings in.
pub proof fn lemma_imports_what_it_names(import: Import, library: Library)
    requires
        library.values.dom().finite(),
        library.macros.dom().finite(),
    ensures
        match (
            imported_names(import, library),
            imported_exports(import, library.values),
            imported_exports(import, library.macros),
        ) {
            (Ok(names), Ok(values), Ok(macros)) => names == values.dom() + macros.dom(),
            _ => true,
        },
    decreases import,
{
    lemma_imports_come_from_exports(import, library.values);
    lemma_imports_come_from_exports(import, library.macros);
    match import {
        Import::Library(name) => {},
        Import::Only { set, names: only } => {
            lemma_imports_what_it_names(*set, library);
            lemma_imports_come_from_exports(*set, library.values);
            lemma_imports_come_from_exports(*set, library.macros);
            if let (Ok(known), Ok(values), Ok(macros)) = (
                imported_names(*set, library),
                imported_exports(*set, library.values),
                imported_exports(*set, library.macros),
            ) {
                lemma_only_names(known, only, 0, Set::empty());
                lemma_only_exports(values, only, 0, Map::empty());
                lemma_only_exports(macros, only, 0, Map::empty());
                if let (Ok(all), Ok(some), Ok(others)) = (
                    only_names(known, only, 0, Set::empty()),
                    only_exports(values, only, 0, Map::empty()),
                    only_exports(macros, only, 0, Map::empty()),
                ) {
                    assert forall|name: Seq<char>| all.contains(name) <==> (some.dom() + others.dom()).contains(
                        name,
                    ) by {
                        assert(some.dom().contains(name) <==> some.contains_key(name));
                        assert(others.dom().contains(name) <==> others.contains_key(name));
                        assert(known.contains(name) <==> values.contains_key(name) || macros.contains_key(name));
                    }
                    assert(all =~= some.dom() + others.dom());
                }
            }
        },
        Import::Except { set, names: excluded } => {
            lemma_imports_what_it_names(*set, library);
            if let (Ok(known), Ok(values), Ok(macros)) = (
                imported_names(*set, library),
                imported_exports(*set, library.values),
                imported_exports(*set, library.macros),
            ) {
                lemma_except_names(known, excluded, 0);
                if let Ok(all) = except_names(known, excluded, 0) {
                    let some = values.remove_keys(excluded.to_set());
                    let others = macros.remove_keys(excluded.to_set());
                    assert forall|name: Seq<char>| all.contains(name) <==> (some.dom() + others.dom()).contains(
                        name,
                    ) by {
                        assert(known.contains(name) <==> values.contains_key(name) || macros.contains_key(name));
                        assert(excluded.to_set().contains(name) <==> excluded.contains(name));
                    }
                    assert(all =~= some.dom() + others.dom());
                }
            }
        },
        Import::Prefix { set, prefix } => {
            lemma_imports_what_it_names(*set, library);
            lemma_imports_come_from_exports(*set, library.values);
            lemma_imports_come_from_exports(*set, library.macros);
            if let (Ok(known), Ok(values), Ok(macros)) = (
                imported_names(*set, library),
                imported_exports(*set, library.values),
                imported_exports(*set, library.macros),
            ) {
                lemma_prefixed(values, prefix);
                lemma_prefixed(macros, prefix);
                let all = prefixed_names(known, prefix);
                let some = prefixed_names(values.dom(), prefix);
                let others = prefixed_names(macros.dom(), prefix);
                assert forall|name: Seq<char>| all.contains(name) <==> (some + others).contains(name) by {
                    if all.contains(name) {
                        let rest = choose|rest: Seq<char>| known.contains(rest) && name == prefix + rest;
                        assert(values.dom().contains(rest) || macros.dom().contains(rest));
                    }
                    if some.contains(name) {
                        let rest = choose|rest: Seq<char>| values.dom().contains(rest) && name == prefix + rest;
                        assert(known.contains(rest));
                    }
                    if others.contains(name) {
                        let rest = choose|rest: Seq<char>| macros.dom().contains(rest) && name == prefix + rest;
                        assert(known.contains(rest));
                    }
                }
                assert(all =~= some + others);
            }
        },
        Import::Rename { set, renames } => {
            lemma_imports_what_it_names(*set, library);
            lemma_imports_come_from_exports(*set, library.values);
            lemma_imports_come_from_exports(*set, library.macros);
            if let (Ok(known), Ok(values), Ok(macros)) = (
                imported_names(*set, library),
                imported_exports(*set, library.values),
                imported_exports(*set, library.macros),
            ) {
                lemma_renamed(known, values, macros, renames);
            }
        },
    }
}

proof fn lemma_renamed<T, U>(
    known: Set<Seq<char>>,
    values: Map<Seq<char>, T>,
    macros: Map<Seq<char>, U>,
    renames: Seq<(Seq<char>, Seq<char>)>,
)
    requires
        known == values.dom() + macros.dom(),
        values.dom().finite(),
        macros.dom().finite(),
    ensures
        match (
            replacements(known, renames, 0, true, Map::empty()),
            replacements(values.dom(), renames, 0, false, Map::empty()),
            replacements(macros.dom(), renames, 0, false, Map::empty()),
        ) {
            (Ok(whole), Ok(one), Ok(other)) => match (
                replaced_names(ascending(known), 0, whole, Set::empty()),
                replaced_exports(values, ascending(values.dom()), 0, one, Map::empty()),
                replaced_exports(macros, ascending(macros.dom()), 0, other, Map::empty()),
            ) {
                (Ok(names), Ok(values), Ok(macros)) => names == values.dom() + macros.dom(),
                _ => true,
            },
            _ => true,
        },
{
    let none = Map::<Seq<char>, Seq<char>>::empty();
    lemma_replacements_agree(known, values.dom(), renames, 0, none, none);
    lemma_replacements_agree(known, macros.dom(), renames, 0, none, none);
    lemma_ascending_lists(known);
    lemma_ascending_lists(values.dom());
    lemma_ascending_lists(macros.dom());
    if let (Ok(whole), Ok(one), Ok(other)) = (
        replacements(known, renames, 0, true, none),
        replacements(values.dom(), renames, 0, false, none),
        replacements(macros.dom(), renames, 0, false, none),
    ) {
        let list = ascending(known);
        let one_list = ascending(values.dom());
        let other_list = ascending(macros.dom());
        lemma_replaced_names(list, 0, whole, Set::empty());
        lemma_replaced_exports(values, one_list, 0, one, Map::empty());
        lemma_replaced_exports(macros, other_list, 0, other, Map::empty());
        if let (Ok(names), Ok(some), Ok(others)) = (
            replaced_names(list, 0, whole, Set::empty()),
            replaced_exports(values, one_list, 0, one, Map::empty()),
            replaced_exports(macros, other_list, 0, other, Map::empty()),
        ) {
            assert forall|name: Seq<char>| names.contains(name) <==> (some.dom() + others.dom()).contains(name) by {
                if names.contains(name) {
                    let i = choose|i: int| 0 <= i < list.len() && replaced(#[trigger] list[i], whole) == name;
                    let source = list[i];
                    assert(list.to_set().contains(source));
                    assert(known.contains(source));
                    if values.dom().contains(source) {
                        assert(one_list.to_set().contains(source));
                        let j = choose|j: int| 0 <= j < one_list.len() && one_list[j] == source;
                        assert(one.contains_key(source) <==> whole.contains_key(source));
                        assert(some.contains_key(replaced(one_list[j], one)));
                    } else {
                        assert(other_list.to_set().contains(source));
                        let j = choose|j: int| 0 <= j < other_list.len() && other_list[j] == source;
                        assert(other.contains_key(source) <==> whole.contains_key(source));
                        assert(others.contains_key(replaced(other_list[j], other)));
                    }
                }
                if some.contains_key(name) {
                    let j = choose|j: int| 0 <= j < one_list.len() && replaced(#[trigger] one_list[j], one) == name;
                    let source = one_list[j];
                    assert(one_list.to_set().contains(source));
                    assert(known.contains(source));
                    assert(list.to_set().contains(source));
                    let i = choose|i: int| 0 <= i < list.len() && list[i] == source;
                    assert(one.contains_key(source) <==> whole.contains_key(source));
                    assert(replaced(list[i], whole) == name);
                }
                if others.contains_key(name) {
                    let j = choose|j: int|
                        0 <= j < other_list.len() && replaced(#[trigger] other_list[j], other) == name;
                    let source = other_list[j];
                    assert(other_list.to_set().contains(source));
                    assert(known.contains(source));
                    assert(list.to_set().contains(source));
                    let i = choose|i: int| 0 <= i < list.len() && list[i] == source;
                    assert(other.contains_key(source) <==> whole.contains_key(source));
                    assert(replaced(list[i], whole) == name);
                }
            }
            assert(names =~= some.dom() + others.dom());
        }
    }
}

/// What a name is called after rename clauses: the new name of its clause, or the name itself.
pub open spec fn is_new_name(renames: Seq<(Seq<char>, Seq<char>)>, name: Seq<char>, new_name: Seq<char>) -> bool {
    ||| exists|i: int| 0 <= i < renames.len() && #[trigger] renames[i] == (name, new_name)
    ||| new_name == name && forall|i: int| 0 <= i < renames.len() ==> (#[trigger] renames[i]).0 != name
}

proof fn lemma_replacements(
    names: Set<Seq<char>>,
    renames: Seq<(Seq<char>, Seq<char>)>,
    index: nat,
    found: Map<Seq<char>, Seq<char>>,
)
    ensures
        replacements(names, renames, index, false, found) matches Ok(all) ==> {
            &&& forall|name: Seq<char>| #[trigger]
                found.contains_key(name) ==> all.contains_key(name) && all[name] == found[name]
            &&& forall|i: int|
                index <= i < renames.len() && names.contains((#[trigger] renames[i]).0) ==> all.contains_key(renames[i].0)
                    && all[renames[i].0] == renames[i].1
            &&& forall|name: Seq<char>| #[trigger]
                all.contains_key(name) ==> found.contains_key(name) || exists|i: int|
                    index <= i < renames.len() && (#[trigger] renames[i]).0 == name
        },
    decreases renames.len() - index,
{
    if index < renames.len() {
        let (from, to) = renames[index as int];
        if !names.contains(from) {
            lemma_replacements(names, renames, index + 1, found);
        } else if !found.contains_key(from) {
            let next = found.insert(from, to);
            lemma_replacements(names, renames, index + 1, next);
            assert(next.contains_key(from));
            assert(renames[index as int].0 == from);
            if let Ok(all) = replacements(names, renames, index + 1, false, next) {
                assert forall|name: Seq<char>| #[trigger] found.contains_key(name) implies all.contains_key(name)
                    && all[name] == found[name] by {
                    assert(next.contains_key(name));
                }
                assert forall|name: Seq<char>| #[trigger] all.contains_key(name) implies found.contains_key(name)
                    || exists|i: int| index <= i < renames.len() && (#[trigger] renames[i]).0 == name by {
                    if !found.contains_key(name) && name != from {
                        assert(!next.contains_key(name));
                    }
                }
            }
        }
    }
}

/// Each kind of import set picks from the set that it is made of: `only` the names that it lists, `except` all
/// others, `prefix` all under names that start with the prefix, and `rename` all, those with a clause under
/// their new names. What a name stands for stays.
pub proof fn lemma_import_selects<T>(import: Import, exports: Map<Seq<char>, T>)
    requires
        exports.dom().finite(),
    ensures
        imported_exports(import, exports) matches Ok(found) ==> match import {
            Import::Library(_) => found == exports,
            Import::Only { set, names } => imported_exports(*set, exports) matches Ok(inner) && forall|name: Seq<char>|
                #![trigger found.contains_key(name)]
                (found.contains_key(name) <==> inner.contains_key(name) && names.contains(name)) && (found.contains_key(
                    name,
                ) ==> found[name] == inner[name]),
            Import::Except { set, names } => imported_exports(*set, exports) matches Ok(inner) && forall|name: Seq<char>|
                #![trigger found.contains_key(name)]
                (found.contains_key(name) <==> inner.contains_key(name) && !names.contains(name)) && (found.contains_key(
                    name,
                ) ==> found[name] == inner[name]),
            Import::Prefix { set, prefix } => imported_exports(*set, exports) matches Ok(inner) && (forall|
                name: Seq<char>,
            | #[trigger]
                inner.contains_key(name) ==> found.contains_key(prefix + name) && found[prefix + name] == inner[name]) && (
            forall|name: Seq<char>| #[trigger]
                found.contains_key(name) ==> prefix.is_prefix_of(name) && inner.contains_key(
                    name.skip(prefix.len() as int),
                )),
            Import::Rename { set, renames } => imported_exports(*set, exports) matches Ok(inner) && (forall|
                name: Seq<char>,
            | #[trigger]
                inner.contains_key(name) ==> exists|new_name: Seq<char>| #[trigger]
                    is_new_name(renames, name, new_name) && found.contains_key(new_name) && found[new_name]
                        == inner[name]) && (forall|new_name: Seq<char>| #[trigger]
                found.contains_key(new_name) ==> exists|name: Seq<char>| #[trigger]
                    inner.contains_key(name) && is_new_name(renames, name, new_name)),
        },
{
    match import {
        Import::Library(_) => {},
        Import::Only { set, names } => {
            lemma_imports_come_from_exports(*set, exports);
            if let Ok(known) = imported_exports(*set, exports) {
                lemma_only_exports(known, names, 0, Map::empty());
                if let Ok(found) = imported_exports(import, exports) {
                    assert forall|name: Seq<char>|
                        #![trigger found.contains_key(name)]
                        (found.contains_key(name) <==> known.contains_key(name) && names.contains(name)) && (
                        found.contains_key(name) ==> found[name] == known[name]) by {
                        if names.contains(name) {
                            let i = choose|i: int| 0 <= i < names.len() && names[i] == name;
                            assert(names[i] == name);
                        }
                    }
                }
            }
        },
        Import::Except { set, names } => {
            if let Ok(known) = imported_exports(*set, exports) {
                let found = known.remove_keys(names.to_set());
                assert forall|name: Seq<char>|
                    #![trigger found.contains_key(name)]
                    (found.contains_key(name) <==> known.contains_key(name) && !names.contains(name)) && (
                    found.contains_key(name) ==> found[name] == known[name]) by {
                    assert(names.to_set().contains(name) == names.contains(name));
                }
            }
        },
        Import::Prefix { set, prefix } => {
            if let Ok(known) = imported_exports(*set, exports) {
                let found = prefixed_exports(known, prefix);
                assert forall|name: Seq<char>| #[trigger] known.contains_key(name) implies found.contains_key(
                    prefix + name,
                ) && found[prefix + name] == known[name] by {
                    assert((prefix + name).skip(prefix.len() as int) =~= name);
                    assert(prefix =~= (prefix + name).subrange(0, prefix.len() as int));
                }
            }
        },
        Import::Rename { set, renames } => {
            lemma_imports_come_from_exports(*set, exports);
            if let Ok(known) = imported_exports(*set, exports) {
                lemma_ascending_lists(known.dom());
                lemma_replacements(known.dom(), renames, 0, Map::empty());
                if let Ok(replacements) = replacements(known.dom(), renames, 0, false, Map::empty()) {
                    let names = ascending(known.dom());
                    lemma_replaced_exports(known, names, 0, replacements, Map::empty());
                    if let Ok(found) = replaced_exports(known, names, 0, replacements, Map::empty()) {
                        assert forall|name: Seq<char>| #[trigger] known.contains_key(name) implies is_new_name(
                            renames,
                            name,
                            replaced(name, replacements),
                        ) by {
                            if exists|i: int| 0 <= i < renames.len() && (#[trigger] renames[i]).0 == name {
                                let i = choose|i: int| 0 <= i < renames.len() && (#[trigger] renames[i]).0 == name;
                                assert(renames[i] == (name, replacements[name]));
                            }
                        }
                        assert forall|name: Seq<char>| #[trigger] known.contains_key(name) implies exists|
                            new_name: Seq<char>,
                        | #[trigger]
                            is_new_name(renames, name, new_name) && found.contains_key(new_name) && found[new_name]
                                == known[name] by {
                            assert(names.to_set().contains(name));
                            let i = choose|i: int| 0 <= i < names.len() && names[i] == name;
                            assert(names[i] == name);
                            assert(is_new_name(renames, name, replaced(name, replacements)));
                        }
                        assert forall|new_name: Seq<char>| #[trigger] found.contains_key(new_name) implies exists|
                            name: Seq<char>,
                        | #[trigger]
                            known.contains_key(name) && is_new_name(renames, name, new_name) by {
                            let i = choose|i: int|
                                0 <= i < names.len() && replaced(#[trigger] names[i], replacements) == new_name;
                            assert(names.to_set().contains(names[i]));
                            assert(known.contains_key(names[i]));
                        }
                    }
                }
            }
        },
    }
}

} // verus!
