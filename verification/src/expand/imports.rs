//! What import sets make of what a library exports.
use crate::error::{CompileError, Problem};
use crate::expand::declarations::{pair_texts, Import, ImportSet, SyntaxRules, Transformer};
use crate::expand::forms::{clone_exprs, expand_error_with};
use crate::expand::rename::renamed_as;
use crate::frontend::ast::{forms_of, Expr, Form};
use crate::names::{
    ascending, name_texts, pairs_map, sorted, with_names, Duplicate, NameMap, NameSet,
};
use crate::text::{join, join3, same};
use vstd::prelude::*;

verus! {

broadcast use vstd::seq_lib::group_seq_properties;

/// A library that was read: its forms, and the values and macros that it exports.
pub struct LoadedLibrary {
    pub forms: Vec<Expr>,
    pub value_exports: NameMap<String>,
    pub macro_exports: NameMap<SyntaxRules>,
}

/// The meaning of a library.
pub struct Library {
    pub forms: Seq<Form>,
    pub values: Map<Seq<char>, Seq<char>>,
    pub macros: Map<Seq<char>, Transformer>,
}

impl View for LoadedLibrary {
    type V = Library;

    open spec fn view(&self) -> Library {
        Library {
            forms: forms_of(self.forms@),
            values: self.value_exports@,
            macros: self.macro_exports@,
        }
    }
}

impl Duplicate for LoadedLibrary {
    fn duplicate(&self) -> (copy: Self) {
        let forms = clone_exprs(&self.forms, 0);
        assert(forms_of(self.forms@).skip(0) =~= forms_of(self.forms@));
        LoadedLibrary {
            forms,
            value_exports: self.value_exports.duplicate_map(),
            macro_exports: self.macro_exports.duplicate_map(),
        }
    }
}

/// The library that an import set is about.
pub open spec fn imported_library(import: Import) -> Seq<Seq<char>>
    decreases import,
{
    match import {
        Import::Library(name) => name,
        Import::Only { set, names } => imported_library(*set),
        Import::Except { set, names } => imported_library(*set),
        Import::Prefix { set, prefix } => imported_library(*set),
        Import::Rename { set, renames } => imported_library(*set),
    }
}

/// The names `only` from one on, which must be exported, with those found.
pub open spec fn only_names(names: Set<Seq<char>>, only: Seq<Seq<char>>, index: nat, found: Set<Seq<char>>) -> Result<
    Set<Seq<char>>,
    Problem,
>
    decreases only.len() - index,
{
    if index >= only.len() {
        Ok(found)
    } else if !names.contains(only[index as int]) {
        Err(Problem::Expand("only import references unknown export '"@ + only[index as int] + "'"@))
    } else {
        only_names(names, only, index + 1, found.insert(only[index as int]))
    }
}

/// The names without those excluded from one on, each of which must be there.
pub open spec fn except_names(names: Set<Seq<char>>, excluded: Seq<Seq<char>>, index: nat) -> Result<
    Set<Seq<char>>,
    Problem,
>
    decreases excluded.len() - index,
{
    if index >= excluded.len() {
        Ok(names)
    } else if !names.contains(excluded[index as int]) {
        Err(Problem::Expand("except import references unknown export '"@ + excluded[index as int] + "'"@))
    } else {
        except_names(names.remove(excluded[index as int]), excluded, index + 1)
    }
}

/// The names with a prefix.
pub open spec fn prefixed_names(names: Set<Seq<char>>, prefix: Seq<char>) -> Set<Seq<char>> {
    names.map(|name: Seq<char>| prefix + name)
}

/// The new name for each old name, from one rename clause on, with those found. Where `strict`,
/// an unknown old name is an error; else it is passed over.
pub open spec fn replacements(
    names: Set<Seq<char>>,
    renames: Seq<(Seq<char>, Seq<char>)>,
    index: nat,
    strict: bool,
    found: Map<Seq<char>, Seq<char>>,
) -> Result<Map<Seq<char>, Seq<char>>, Problem>
    decreases renames.len() - index,
{
    if index >= renames.len() {
        Ok(found)
    } else {
        let (from, to) = renames[index as int];
        if !names.contains(from) {
            if strict {
                Err(Problem::Expand("rename import references unknown export '"@ + from + "'"@))
            } else {
                replacements(names, renames, index + 1, strict, found)
            }
        } else if found.contains_key(from) {
            Err(Problem::Expand("duplicate rename source '"@ + from + "'"@))
        } else {
            replacements(names, renames, index + 1, strict, found.insert(from, to))
        }
    }
}

/// What a name is called after renaming.
pub open spec fn replaced(name: Seq<char>, replacements: Map<Seq<char>, Seq<char>>) -> Seq<char> {
    if replacements.contains_key(name) {
        replacements[name]
    } else {
        name
    }
}

/// The new names from one on, which must differ, with those found.
pub open spec fn replaced_names(
    names: Seq<Seq<char>>,
    index: nat,
    replacements: Map<Seq<char>, Seq<char>>,
    found: Set<Seq<char>>,
) -> Result<Set<Seq<char>>, Problem>
    decreases names.len() - index,
{
    if index >= names.len() {
        Ok(found)
    } else {
        let name = replaced(names[index as int], replacements);
        if found.contains(name) {
            Err(Problem::Expand("duplicate binding for '"@ + name + "' after rename import"@))
        } else {
            replaced_names(names, index + 1, replacements, found.insert(name))
        }
    }
}

/// The names that an import set brings in.
pub open spec fn imported_names(import: Import, library: Library) -> Result<Set<Seq<char>>, Problem>
    decreases import,
{
    match import {
        Import::Library(name) => Ok(library.values.dom() + library.macros.dom()),
        Import::Only { set, names } => match imported_names(*set, library) {
            Err(problem) => Err(problem),
            Ok(known) => only_names(known, names, 0, Set::empty()),
        },
        Import::Except { set, names } => match imported_names(*set, library) {
            Err(problem) => Err(problem),
            Ok(known) => except_names(known, names, 0),
        },
        Import::Prefix { set, prefix } => match imported_names(*set, library) {
            Err(problem) => Err(problem),
            Ok(known) => Ok(prefixed_names(known, prefix)),
        },
        Import::Rename { set, renames } => match imported_names(*set, library) {
            Err(problem) => Err(problem),
            Ok(known) => match replacements(known, renames, 0, true, Map::empty()) {
                Err(problem) => Err(problem),
                Ok(replacements) => replaced_names(ascending(known), 0, replacements, Set::empty()),
            },
        },
    }
}

/// The exports among `only` from one on, with those found. None may be named twice.
pub open spec fn only_exports<T>(
    exports: Map<Seq<char>, T>,
    only: Seq<Seq<char>>,
    index: nat,
    found: Map<Seq<char>, T>,
) -> Result<Map<Seq<char>, T>, Problem>
    decreases only.len() - index,
{
    if index >= only.len() {
        Ok(found)
    } else {
        let name = only[index as int];
        if !exports.contains_key(name) {
            only_exports(exports, only, index + 1, found)
        } else if found.contains_key(name) {
            Err(Problem::Expand("duplicate binding for '"@ + name + "' in only import"@))
        } else {
            only_exports(exports, only, index + 1, found.insert(name, exports[name]))
        }
    }
}

/// The exports under names with a prefix.
pub open spec fn prefixed_exports<T>(exports: Map<Seq<char>, T>, prefix: Seq<char>) -> Map<Seq<char>, T> {
    Map::new(
        |name: Seq<char>| prefix.is_prefix_of(name) && exports.contains_key(name.skip(prefix.len() as int)),
        |name: Seq<char>| exports[name.skip(prefix.len() as int)],
    )
}

/// The exports under their new names from one name on, which must differ, with those found.
pub open spec fn replaced_exports<T>(
    exports: Map<Seq<char>, T>,
    names: Seq<Seq<char>>,
    index: nat,
    replacements: Map<Seq<char>, Seq<char>>,
    found: Map<Seq<char>, T>,
) -> Result<Map<Seq<char>, T>, Problem>
    decreases names.len() - index,
{
    if index >= names.len() {
        Ok(found)
    } else {
        let name = replaced(names[index as int], replacements);
        if found.contains_key(name) {
            Err(Problem::Expand("duplicate binding for '"@ + name + "' after rename import"@))
        } else {
            replaced_exports(
                exports,
                names,
                index + 1,
                replacements,
                found.insert(name, exports[names[index as int]]),
            )
        }
    }
}

/// What an import set makes of exports.
pub open spec fn imported_exports<T>(import: Import, exports: Map<Seq<char>, T>) -> Result<Map<Seq<char>, T>, Problem>
    decreases import,
{
    match import {
        Import::Library(name) => Ok(exports),
        Import::Only { set, names } => match imported_exports(*set, exports) {
            Err(problem) => Err(problem),
            Ok(known) => only_exports(known, names, 0, Map::empty()),
        },
        Import::Except { set, names } => match imported_exports(*set, exports) {
            Err(problem) => Err(problem),
            Ok(known) => Ok(known.remove_keys(names.to_set())),
        },
        Import::Prefix { set, prefix } => match imported_exports(*set, exports) {
            Err(problem) => Err(problem),
            Ok(known) => Ok(prefixed_exports(known, prefix)),
        },
        Import::Rename { set, renames } => match imported_exports(*set, exports) {
            Err(problem) => Err(problem),
            Ok(known) => match replacements(known.dom(), renames, 0, false, Map::empty()) {
                Err(problem) => Err(problem),
                Ok(replacements) => replaced_exports(
                    known,
                    ascending(known.dom()),
                    0,
                    replacements,
                    Map::empty(),
                ),
            },
        },
    }
}

fn filter_names(names: &NameSet, only: &Vec<String>) -> (result: Result<NameSet, CompileError>)
    ensures
        renamed_as(result, only_names(names@, name_texts(only@), 0, Set::empty())),
{
    let mut filtered = NameSet::new();
    let mut index: usize = 0;
    while index < only.len()
        invariant
            index <= only@.len(),
            only_names(names@, name_texts(only@), 0, Set::empty()) == only_names(
                names@,
                name_texts(only@),
                index as nat,
                filtered@,
            ),
        decreases only@.len() - index,
    {
        assert(name_texts(only@)[index as int] == only@[index as int]@);
        if !names.contains(only[index].as_str()) {
            return expand_error_with(
                join3("only import references unknown export '", only[index].as_str(), "'"),
            );
        }
        filtered.insert(only[index].clone());
        index = index + 1;
    }
    Ok(filtered)
}

/// A set without a name.
fn without_name(names: &NameSet, name: &str) -> (rest: NameSet)
    ensures
        rest@ == names@.remove(name@),
{
    let mut rest = NameSet::new();
    let mut index: usize = 0;
    assert(rest@ =~= name_texts(names.names@.subrange(0, 0)).to_set().remove(name@));
    while index < names.names.len()
        invariant
            index <= names.names@.len(),
            rest@ == name_texts(names.names@.subrange(0, index as int)).to_set().remove(name@),
        decreases names.names@.len() - index,
    {
        if !same(names.names[index].as_str(), name) {
            rest.insert(names.names[index].clone());
        }
        proof {
            let shorter = name_texts(names.names@.subrange(0, index as int));
            let next = name_texts(names.names@.subrange(0, index + 1));
            assert(next =~= shorter.push(names.names@[index as int]@));
            assert forall|x: Seq<char>| next.contains(x) <==> shorter.contains(x) || x == names.names@[index as int]@ by {
                if shorter.contains(x) {
                    let k = choose|k: int| 0 <= k < shorter.len() && shorter[k] == x;
                    assert(next[k] == x);
                }
                assert(next[index as int] == names.names@[index as int]@);
            }
            assert(rest@ =~= next.to_set().remove(name@));
        }
        index = index + 1;
    }
    assert(names.names@.subrange(0, names.names@.len() as int) =~= names.names@);
    rest
}

fn exclude_names(names: NameSet, excluded: &Vec<String>) -> (result: Result<NameSet, CompileError>)
    ensures
        renamed_as(result, except_names(names@, name_texts(excluded@), 0)),
{
    let mut rest = names;
    let mut index: usize = 0;
    while index < excluded.len()
        invariant
            index <= excluded@.len(),
            except_names(names@, name_texts(excluded@), 0) == except_names(
                rest@,
                name_texts(excluded@),
                index as nat,
            ),
        decreases excluded@.len() - index,
    {
        assert(name_texts(excluded@)[index as int] == excluded@[index as int]@);
        if !rest.contains(excluded[index].as_str()) {
            return expand_error_with(
                join3("except import references unknown export '", excluded[index].as_str(), "'"),
            );
        }
        rest = without_name(&rest, excluded[index].as_str());
        index = index + 1;
    }
    Ok(rest)
}

fn prefix_names(names: &NameSet, prefix: &str) -> (prefixed: NameSet)
    ensures
        prefixed@ == prefixed_names(names@, prefix@),
{
    let mut prefixed = NameSet::new();
    let mut index: usize = 0;
    assert(prefixed@ =~= prefixed_names(name_texts(names.names@.subrange(0, 0)).to_set(), prefix@));
    while index < names.names.len()
        invariant
            index <= names.names@.len(),
            prefixed@ == prefixed_names(name_texts(names.names@.subrange(0, index as int)).to_set(), prefix@),
        decreases names.names@.len() - index,
    {
        prefixed.insert(join(prefix, names.names[index].as_str()));
        proof {
            let added = names.names@[index as int]@;
            let shorter = name_texts(names.names@.subrange(0, index as int));
            let next = name_texts(names.names@.subrange(0, index + 1));
            assert(next =~= shorter.push(added));
            assert forall|x: Seq<char>| prefixed_names(next.to_set(), prefix@).contains(x) <==> prefixed_names(
                shorter.to_set(),
                prefix@,
            ).contains(x) || x == prefix@ + added by {
                if prefixed_names(shorter.to_set(), prefix@).contains(x) {
                    let m = choose|m: Seq<char>| shorter.to_set().contains(m) && x == prefix@ + m;
                    let k = choose|k: int| 0 <= k < shorter.len() && shorter[k] == m;
                    assert(next[k] == m);
                    assert(next.to_set().contains(m));
                }
                if prefixed_names(next.to_set(), prefix@).contains(x) {
                    let m = choose|m: Seq<char>| next.to_set().contains(m) && x == prefix@ + m;
                    let k = choose|k: int| 0 <= k < next.len() && next[k] == m;
                    if k < shorter.len() {
                        assert(shorter[k] == m);
                        assert(shorter.to_set().contains(m));
                    }
                }
                assert(next[index as int] == added);
                assert(next.to_set().contains(added));
            }
            assert(prefixed@ =~= prefixed_names(next.to_set(), prefix@));
        }
        index = index + 1;
    }
    assert(names.names@.subrange(0, names.names@.len() as int) =~= names.names@);
    prefixed
}

fn collect_replacements(names: &NameSet, renames: &Vec<(String, String)>, strict: bool) -> (result: Result<
    NameMap<String>,
    CompileError,
>)
    ensures
        renamed_as(result, replacements(names@, pair_texts(renames@), 0, strict, Map::empty())),
{
    let mut found: NameMap<String> = NameMap::new();
    let mut index: usize = 0;
    while index < renames.len()
        invariant
            index <= renames@.len(),
            replacements(names@, pair_texts(renames@), 0, strict, Map::empty()) == replacements(
                names@,
                pair_texts(renames@),
                index as nat,
                strict,
                found@,
            ),
        decreases renames@.len() - index,
    {
        assert(pair_texts(renames@)[index as int] == (renames@[index as int].0@, renames@[index as int].1@));
        let from = renames[index].0.as_str();
        if !names.contains(from) {
            if strict {
                return expand_error_with(join3("rename import references unknown export '", from, "'"));
            }
        } else if found.contains_key(from) {
            return expand_error_with(join3("duplicate rename source '", from, "'"));
        } else {
            found.insert(renames[index].0.clone(), renames[index].1.clone());
        }
        index = index + 1;
    }
    Ok(found)
}

pub fn replacement_for(name: &String, replacements: &NameMap<String>) -> (result: String)
    ensures
        result@ == replaced(name@, replacements@),
{
    match replacements.get(name.as_str()) {
        Some(replacement) => replacement.clone(),
        None => name.clone(),
    }
}

fn rename_names(names: &NameSet, renames: &Vec<(String, String)>) -> (result: Result<NameSet, CompileError>)
    ensures
        renamed_as(
            result,
            match replacements(names@, pair_texts(renames@), 0, true, Map::empty()) {
                Err(problem) => Err(problem),
                Ok(replacements) => replaced_names(ascending(names@), 0, replacements, Set::empty()),
            },
        ),
{
    let replacements = collect_replacements(names, renames, true)?;
    let order = sorted(names);
    let mut renamed = NameSet::new();
    let mut index: usize = 0;
    while index < order.len()
        invariant
            index <= order@.len(),
            name_texts(order@) == ascending(names@),
            replaced_names(ascending(names@), 0, replacements@, Set::empty()) == replaced_names(
                ascending(names@),
                index as nat,
                replacements@,
                renamed@,
            ),
            self::replacements(names@, pair_texts(renames@), 0, true, Map::empty()) == Ok::<
                Map<Seq<char>, Seq<char>>,
                Problem,
            >(replacements@),
        decreases order@.len() - index,
    {
        assert(name_texts(order@)[index as int] == order@[index as int]@);
        let name = replacement_for(&order[index], &replacements);
        if renamed.contains(name.as_str()) {
            return expand_error_with(
                join3("duplicate binding for '", name.as_str(), "' after rename import"),
            );
        }
        renamed.insert(name);
        index = index + 1;
    }
    Ok(renamed)
}

fn filter_exports<T: Duplicate>(exports: &NameMap<T>, only: &Vec<String>) -> (result: Result<
    NameMap<T>,
    CompileError,
>)
    ensures
        renamed_as(result, only_exports(exports@, name_texts(only@), 0, Map::empty())),
{
    let mut filtered: NameMap<T> = NameMap::new();
    let mut index: usize = 0;
    while index < only.len()
        invariant
            index <= only@.len(),
            only_exports(exports@, name_texts(only@), 0, Map::empty()) == only_exports(
                exports@,
                name_texts(only@),
                index as nat,
                filtered@,
            ),
        decreases only@.len() - index,
    {
        assert(name_texts(only@)[index as int] == only@[index as int]@);
        if let Some(value) = exports.get(only[index].as_str()) {
            if filtered.contains_key(only[index].as_str()) {
                return expand_error_with(
                    join3("duplicate binding for '", only[index].as_str(), "' in only import"),
                );
            }
            filtered.insert(only[index].clone(), value.duplicate());
        }
        index = index + 1;
    }
    Ok(filtered)
}

fn exclude_exports<T: Duplicate>(exports: NameMap<T>, names: &Vec<String>) -> (rest: NameMap<T>)
    ensures
        rest@ == exports@.remove_keys(name_texts(names@).to_set()),
{
    let mut rest = exports;
    let mut index: usize = 0;
    assert(rest@ =~= exports@.remove_keys(name_texts(names@.subrange(0, 0)).to_set()));
    while index < names.len()
        invariant
            index <= names@.len(),
            rest@ == exports@.remove_keys(name_texts(names@.subrange(0, index as int)).to_set()),
        decreases names@.len() - index,
    {
        rest.remove(names[index].as_str());
        proof {
            let shorter = name_texts(names@.subrange(0, index as int));
            let next = name_texts(names@.subrange(0, index + 1));
            assert(next =~= shorter.push(names@[index as int]@));
            assert forall|x: Seq<char>| next.contains(x) <==> shorter.contains(x) || x == names@[index as int]@ by {
                if shorter.contains(x) {
                    let k = choose|k: int| 0 <= k < shorter.len() && shorter[k] == x;
                    assert(next[k] == x);
                }
                assert(next[index as int] == names@[index as int]@);
            }
            assert(rest@ =~= exports@.remove_keys(next.to_set()));
        }
        index = index + 1;
    }
    assert(names@.subrange(0, names@.len() as int) =~= names@);
    rest
}

proof fn lemma_prefixed_insert<T>(exports: Map<Seq<char>, T>, prefix: Seq<char>, name: Seq<char>, value: T)
    ensures
        prefixed_exports(exports.insert(name, value), prefix) == prefixed_exports(exports, prefix).insert(
            prefix + name,
            value,
        ),
{
    let left = prefixed_exports(exports.insert(name, value), prefix);
    let right = prefixed_exports(exports, prefix).insert(prefix + name, value);
    assert forall|x: Seq<char>| #[trigger] left.contains_key(x) == right.contains_key(x) by {
        if prefix.is_prefix_of(x) {
            assert(x =~= prefix + x.skip(prefix.len() as int));
        }
        assert((prefix + name).skip(prefix.len() as int) =~= name);
        assert((prefix + name).subrange(0, prefix.len() as int) =~= prefix);
    }
    assert forall|x: Seq<char>| #[trigger] left.contains_key(x) implies left[x] == right[x] by {
        assert(x =~= prefix + x.skip(prefix.len() as int));
        assert((prefix + name).skip(prefix.len() as int) =~= name);
    }
    assert(left =~= right);
}

fn prefix_exports<T: Duplicate>(exports: &NameMap<T>, prefix: &str) -> (prefixed: NameMap<T>)
    ensures
        prefixed@ == prefixed_exports(exports@, prefix@),
{
    let mut prefixed: NameMap<T> = NameMap::new();
    let mut index: usize = 0;
    assert(prefixed@ =~= prefixed_exports(pairs_map(exports.pairs@.subrange(0, 0)), prefix@));
    while index < exports.pairs.len()
        invariant
            index <= exports.pairs@.len(),
            prefixed@ == prefixed_exports(pairs_map(exports.pairs@.subrange(0, index as int)), prefix@),
        decreases exports.pairs@.len() - index,
    {
        let name = join(prefix, exports.pairs[index].0.as_str());
        let value = exports.pairs[index].1.duplicate();
        prefixed.insert(name, value);
        proof {
            let next = exports.pairs@.subrange(0, index + 1);
            assert(next.drop_last() =~= exports.pairs@.subrange(0, index as int));
            assert(next.last() == exports.pairs@[index as int]);
            lemma_prefixed_insert(
                pairs_map(next.drop_last()),
                prefix@,
                exports.pairs@[index as int].0@,
                exports.pairs@[index as int].1@,
            );
        }
        index = index + 1;
    }
    assert(exports.pairs@.subrange(0, exports.pairs@.len() as int) =~= exports.pairs@);
    prefixed
}

fn rename_exports<T: Duplicate>(exports: &NameMap<T>, renames: &Vec<(String, String)>) -> (result: Result<
    NameMap<T>,
    CompileError,
>)
    ensures
        renamed_as(
            result,
            match replacements(exports@.dom(), pair_texts(renames@), 0, false, Map::empty()) {
                Err(problem) => Err(problem),
                Ok(replacements) => replaced_exports(
                    exports@,
                    ascending(exports@.dom()),
                    0,
                    replacements,
                    Map::empty(),
                ),
            },
        ),
{
    let names = exports.key_set();
    let replacements = collect_replacements(&names, renames, false)?;
    let order = sorted(&names);
    let mut renamed: NameMap<T> = NameMap::new();
    let mut index: usize = 0;
    while index < order.len()
        invariant
            index <= order@.len(),
            name_texts(order@) == ascending(exports@.dom()),
            forall|i: int| 0 <= i < order@.len() ==> exports@.contains_key((#[trigger] order@[i])@),
            replaced_exports(exports@, ascending(exports@.dom()), 0, replacements@, Map::empty())
                == replaced_exports(
                exports@,
                ascending(exports@.dom()),
                index as nat,
                replacements@,
                renamed@,
            ),
            self::replacements(exports@.dom(), pair_texts(renames@), 0, false, Map::empty()) == Ok::<
                Map<Seq<char>, Seq<char>>,
                Problem,
            >(replacements@),
        decreases order@.len() - index,
    {
        assert(name_texts(order@)[index as int] == order@[index as int]@);
        let name = replacement_for(&order[index], &replacements);
        if renamed.contains_key(name.as_str()) {
            return expand_error_with(
                join3("duplicate binding for '", name.as_str(), "' after rename import"),
            );
        }
        if let Some(value) = exports.get(order[index].as_str()) {
            renamed.insert(name, value.duplicate());
        }
        index = index + 1;
    }
    Ok(renamed)
}

impl ImportSet {
    /// The library that the import set is about.
    pub fn library_name(&self) -> (name: &Vec<String>)
        ensures
            name_texts(name@) == imported_library(self@),
        decreases *self,
    {
        match self {
            ImportSet::Library(name) => name,
            ImportSet::Only { set, names: _ } => set.library_name(),
            ImportSet::Except { set, names: _ } => set.library_name(),
            ImportSet::Prefix { set, prefix: _ } => set.library_name(),
            ImportSet::Rename { set, renames: _ } => set.library_name(),
        }
    }

    /// The names that the import set brings in.
    pub fn apply_names(&self, library: &LoadedLibrary) -> (result: Result<NameSet, CompileError>)
        ensures
            renamed_as(result, imported_names(self@, library@)),
        decreases *self,
    {
        match self {
            ImportSet::Library(_) => {
                let values = library.value_exports.key_set();
                let macros = library.macro_exports.key_set();
                Ok(with_names(&values, &macros.names))
            },
            ImportSet::Only { set, names } => {
                let known = set.apply_names(library)?;
                filter_names(&known, names)
            },
            ImportSet::Except { set, names } => {
                let known = set.apply_names(library)?;
                exclude_names(known, names)
            },
            ImportSet::Prefix { set, prefix } => {
                let known = set.apply_names(library)?;
                Ok(prefix_names(&known, prefix.as_str()))
            },
            ImportSet::Rename { set, renames } => {
                let known = set.apply_names(library)?;
                rename_names(&known, renames)
            },
        }
    }

    fn apply_exports<T: Duplicate>(&self, exports: &NameMap<T>) -> (result: Result<NameMap<T>, CompileError>)
        ensures
            renamed_as(result, imported_exports(self@, exports@)),
        decreases *self,
    {
        match self {
            ImportSet::Library(_) => Ok(exports.duplicate_map()),
            ImportSet::Only { set, names } => {
                let known = set.apply_exports(exports)?;
                filter_exports(&known, names)
            },
            ImportSet::Except { set, names } => {
                let known = set.apply_exports(exports)?;
                Ok(exclude_exports(known, names))
            },
            ImportSet::Prefix { set, prefix } => {
                let known = set.apply_exports(exports)?;
                Ok(prefix_exports(&known, prefix.as_str()))
            },
            ImportSet::Rename { set, renames } => {
                let known = set.apply_exports(exports)?;
                rename_exports(&known, renames)
            },
        }
    }

    /// The values that the import set brings in.
    pub fn apply_values(&self, library: &LoadedLibrary) -> (result: Result<NameMap<String>, CompileError>)
        ensures
            renamed_as(result, imported_exports(self@, library@.values)),
    {
        self.apply_exports(&library.value_exports)
    }

    /// The macros that the import set brings in.
    pub fn apply_macros(&self, library: &LoadedLibrary) -> (result: Result<NameMap<SyntaxRules>, CompileError>)
        ensures
            renamed_as(result, imported_exports(self@, library@.macros)),
    {
        self.apply_exports(&library.macro_exports)
    }
}

} // verus!
