//! Collections keyed by names: scopes, sets of names and sorted lists of names.
use crate::text::{before, lemma_name_order, name_before, same};
use vstd::prelude::*;

verus! {

broadcast use vstd::seq_lib::group_seq_properties;

/// Values that can be copied without changing what they stand for.
pub trait Duplicate: View + Sized {
    fn duplicate(&self) -> (copy: Self)
        ensures
            copy@ == self@,
    ;
}

impl Duplicate for String {
    fn duplicate(&self) -> (copy: Self) {
        self.clone()
    }
}

/// The characters of each of a row of names.
pub open spec fn name_texts(names: Seq<String>) -> Seq<Seq<char>> {
    names.map_values(|name: String| name@)
}

/// Whether `name` is one of `names`.
pub fn contains_name(names: &Vec<String>, name: &str) -> (found: bool)
    ensures
        found == name_texts(names@).contains(name@),
{
    let mut index: usize = 0;
    while index < names.len()
        invariant
            index <= names@.len(),
            forall|i: int| 0 <= i < index ==> (#[trigger] names@[i])@ != name@,
        decreases names@.len() - index,
    {
        if same(names[index].as_str(), name) {
            assert(name_texts(names@)[index as int] == name@);
            return true;
        }
        index = index + 1;
    }
    assert forall|i: int| 0 <= i < name_texts(names@).len() implies name_texts(names@)[i] != name@ by {
        assert(name_texts(names@)[i] == names@[i]@);
    }
    false
}

/// A copy of a row of names.
pub fn clone_names(names: &Vec<String>) -> (copy: Vec<String>)
    ensures
        copy@ == names@,
{
    let mut copy: Vec<String> = Vec::new();
    let mut index: usize = 0;
    while index < names.len()
        invariant
            index <= names@.len(),
            copy@ == names@.subrange(0, index as int),
        decreases names@.len() - index,
    {
        copy.push(names[index].clone());
        assert(names@.subrange(0, index + 1) =~= names@.subrange(0, index as int).push(names@[index as int]));
        index = index + 1;
    }
    assert(names@.subrange(0, names@.len() as int) =~= names@);
    copy
}

/// Adds copies of all of `more` at the end of `names`.
pub fn extend_names(names: &mut Vec<String>, more: &Vec<String>)
    ensures
        final(names)@ == old(names)@ + more@,
{
    let mut index: usize = 0;
    assert(names@ =~= old(names)@ + more@.subrange(0, 0));
    while index < more.len()
        invariant
            index <= more@.len(),
            names@ == old(names)@ + more@.subrange(0, index as int),
        decreases more@.len() - index,
    {
        names.push(more[index].clone());
        assert(more@.subrange(0, index + 1) =~= more@.subrange(0, index as int).push(more@[index as int]));
        assert(names@ =~= old(names)@ + more@.subrange(0, index + 1));
        index = index + 1;
    }
    assert(more@.subrange(0, more@.len() as int) =~= more@);
}

/// What a row of key-value pairs maps each key to: the last pair with that key counts.
pub open spec fn pairs_map<V: View>(pairs: Seq<(String, V)>) -> Map<Seq<char>, V::V>
    decreases pairs.len(),
{
    if pairs.len() == 0 {
        Map::empty()
    } else {
        pairs_map(pairs.drop_last()).insert(pairs.last().0@, pairs.last().1@)
    }
}

/// A map from names to values. Binding a name again replaces what it was bound to.
pub struct NameMap<V> {
    pub pairs: Vec<(String, V)>,
}

impl<V: View> View for NameMap<V> {
    type V = Map<Seq<char>, V::V>;

    open spec fn view(&self) -> Map<Seq<char>, V::V> {
        pairs_map(self.pairs@)
    }
}

proof fn lemma_pairs_map_from<V: View>(pairs: Seq<(String, V)>, from: int, name: Seq<char>)
    requires
        0 <= from <= pairs.len(),
        forall|i: int| from <= i < pairs.len() ==> (#[trigger] pairs[i]).0@ != name,
    ensures
        pairs_map(pairs).contains_key(name) == pairs_map(pairs.subrange(0, from)).contains_key(name),
        pairs_map(pairs)[name] == pairs_map(pairs.subrange(0, from))[name],
    decreases pairs.len() - from,
{
    if from == pairs.len() {
        assert(pairs.subrange(0, from) =~= pairs);
    } else {
        lemma_pairs_map_from(pairs, from + 1, name);
        assert(pairs.subrange(0, from + 1).drop_last() =~= pairs.subrange(0, from));
        assert(pairs.subrange(0, from + 1).last() == pairs[from]);
    }
}

impl<V: Duplicate> NameMap<V> {
    /// The map that binds nothing.
    pub fn new() -> (map: Self)
        ensures
            map@ == Map::<Seq<char>, V::V>::empty(),
    {
        NameMap { pairs: Vec::new() }
    }

    /// What `name` is bound to.
    pub fn get(&self, name: &str) -> (value: Option<&V>)
        ensures
            match value {
                Some(value) => self@.contains_key(name@) && value@ == self@[name@],
                None => !self@.contains_key(name@),
            },
    {
        let mut end: usize = self.pairs.len();
        while end > 0
            invariant
                end <= self.pairs@.len(),
                forall|i: int| end <= i < self.pairs@.len() ==> (#[trigger] self.pairs@[i]).0@ != name@,
            decreases end,
        {
            if same(self.pairs[end - 1].0.as_str(), name) {
                proof {
                    lemma_pairs_map_from(self.pairs@, end as int, name@);
                    assert(self.pairs@.subrange(0, end as int).last() == self.pairs@[end - 1]);
                }
                return Some(&self.pairs[end - 1].1);
            }
            end = end - 1;
        }
        proof {
            lemma_pairs_map_from(self.pairs@, 0, name@);
            assert(self.pairs@.subrange(0, 0).len() == 0);
        }
        None
    }

    /// Whether `name` is bound.
    pub fn contains_key(&self, name: &str) -> (found: bool)
        ensures
            found == self@.contains_key(name@),
    {
        self.get(name).is_some()
    }

    /// Binds `name` to `value`.
    pub fn insert(&mut self, name: String, value: V)
        ensures
            final(self)@ == old(self)@.insert(name@, value@),
    {
        self.pairs.push((name, value));
        assert(self.pairs@.drop_last() =~= old(self).pairs@);
    }

    /// Binds everything that `other` binds as `other` binds it.
    pub fn extend(&mut self, other: &Self)
        ensures
            final(self)@ == old(self)@.union_prefer_right(other@),
    {
        let mut index: usize = 0;
        assert(self@ =~= old(self)@.union_prefer_right(pairs_map(other.pairs@.subrange(0, 0))));
        while index < other.pairs.len()
            invariant
                index <= other.pairs@.len(),
                self@ == old(self)@.union_prefer_right(pairs_map(other.pairs@.subrange(0, index as int))),
            decreases other.pairs@.len() - index,
        {
            let name = other.pairs[index].0.clone();
            let value = other.pairs[index].1.duplicate();
            self.insert(name, value);
            proof {
                let next = other.pairs@.subrange(0, index + 1);
                assert(next.drop_last() =~= other.pairs@.subrange(0, index as int));
                assert(next.last() == other.pairs@[index as int]);
                assert(self@ =~= old(self)@.union_prefer_right(pairs_map(next)));
            }
            index = index + 1;
        }
        assert(other.pairs@.subrange(0, other.pairs@.len() as int) =~= other.pairs@);
    }

    /// Unbinds `name`.
    pub fn remove(&mut self, name: &str)
        ensures
            final(self)@ == old(self)@.remove(name@),
    {
        let mut kept: Self = Self::new();
        let mut index: usize = 0;
        assert(kept@ =~= pairs_map(self.pairs@.subrange(0, 0)).remove(name@));
        while index < self.pairs.len()
            invariant
                index <= self.pairs@.len(),
                kept@ == pairs_map(self.pairs@.subrange(0, index as int)).remove(name@),
                self@ == old(self)@,
            decreases self.pairs@.len() - index,
        {
            if !same(self.pairs[index].0.as_str(), name) {
                let key = self.pairs[index].0.clone();
                let value = self.pairs[index].1.duplicate();
                kept.insert(key, value);
            }
            proof {
                let next = self.pairs@.subrange(0, index + 1);
                assert(next.drop_last() =~= self.pairs@.subrange(0, index as int));
                assert(next.last() == self.pairs@[index as int]);
                assert(kept@ =~= pairs_map(next).remove(name@));
            }
            index = index + 1;
        }
        assert(self.pairs@.subrange(0, self.pairs@.len() as int) =~= self.pairs@);
        *self = kept;
    }

    /// The names that the map binds.
    pub fn key_set(&self) -> (names: NameSet)
        ensures
            names@ == self@.dom(),
    {
        let mut names = NameSet::new();
        let mut index: usize = 0;
        assert(names@ =~= pairs_map(self.pairs@.subrange(0, 0)).dom());
        while index < self.pairs.len()
            invariant
                index <= self.pairs@.len(),
                names@ == pairs_map(self.pairs@.subrange(0, index as int)).dom(),
            decreases self.pairs@.len() - index,
        {
            names.insert(self.pairs[index].0.clone());
            proof {
                let next = self.pairs@.subrange(0, index + 1);
                assert(next.drop_last() =~= self.pairs@.subrange(0, index as int));
                assert(next.last() == self.pairs@[index as int]);
                assert(names@ =~= pairs_map(next).dom());
            }
            index = index + 1;
        }
        assert(self.pairs@.subrange(0, self.pairs@.len() as int) =~= self.pairs@);
        names
    }

    /// A copy of the map.
    pub fn duplicate_map(&self) -> (copy: Self)
        ensures
            copy@ == self@,
    {
        let mut copy = Self::new();
        copy.extend(self);
        assert(Map::<Seq<char>, V::V>::empty().union_prefer_right(self@) =~= self@);
        copy
    }
}

/// A set of names.
pub struct NameSet {
    pub names: Vec<String>,
}

impl View for NameSet {
    type V = Set<Seq<char>>;

    open spec fn view(&self) -> Set<Seq<char>> {
        name_texts(self.names@).to_set()
    }
}

impl Duplicate for NameSet {
    fn duplicate(&self) -> (copy: Self) {
        NameSet { names: clone_names(&self.names) }
    }
}

impl NameSet {
    /// The set without names.
    pub fn new() -> (set: Self)
        ensures
            set@ == Set::<Seq<char>>::empty(),
    {
        let set = NameSet { names: Vec::new() };
        assert(set@ =~= Set::<Seq<char>>::empty());
        set
    }

    /// Whether `name` is in the set.
    pub fn contains(&self, name: &str) -> (found: bool)
        ensures
            found == self@.contains(name@),
    {
        contains_name(&self.names, name)
    }

    /// Puts `name` into the set.
    pub fn insert(&mut self, name: String)
        ensures
            final(self)@ == old(self)@.insert(name@),
    {
        if contains_name(&self.names, name.as_str()) {
            assert(self@ =~= self@.insert(name@));
            return;
        }
        let ghost before_texts = name_texts(self.names@);
        self.names.push(name);
        proof {
            assert(name_texts(self.names@) =~= before_texts.push(name@));
            assert forall|x: Seq<char>| before_texts.push(name@).contains(x) == (before_texts.contains(x) || x == name@) by {
                if before_texts.contains(x) {
                    let i = choose|i: int| 0 <= i < before_texts.len() && before_texts[i] == x;
                    assert(before_texts.push(name@)[i] == x);
                }
                assert(before_texts.push(name@)[before_texts.len() as int] == name@);
            }
            assert(self@ =~= old(self)@.insert(name@));
        }
    }
}

/// `names` with `name` in its place among them; `names` itself where `name` is already there.
pub open spec fn insert_sorted(names: Seq<Seq<char>>, name: Seq<char>) -> Seq<Seq<char>>
    decreases names.len(),
{
    if names.len() == 0 {
        seq![name]
    } else if names.last() == name {
        names
    } else if name_before(names.last(), name) {
        names.push(name)
    } else {
        insert_sorted(names.drop_last(), name).push(names.last())
    }
}

/// Whether names stand in strictly ascending order.
pub open spec fn names_ascend(names: Seq<Seq<char>>) -> bool {
    forall|i: int, j: int| 0 <= i < j < names.len() ==> name_before(#[trigger] names[i], #[trigger] names[j])
}

/// Inserting a name keeps a list of names ascending and adds exactly that name to it.
pub proof fn lemma_insert_sorted(names: Seq<Seq<char>>, name: Seq<char>)
    requires
        names_ascend(names),
    ensures
        names_ascend(insert_sorted(names, name)),
        forall|x: Seq<char>| #[trigger] insert_sorted(names, name).contains(x) <==> names.contains(x) || x == name,
    decreases names.len(),
{
    let result = insert_sorted(names, name);
    if names.len() == 0 {
        assert(result[0] == name);
    } else if names.last() == name {
        assert(names[names.len() - 1] == name);
    } else if name_before(names.last(), name) {
        assert forall|i: int, j: int| 0 <= i < j < result.len() implies name_before(#[trigger] result[i], #[trigger] result[j]) by {
            if j == names.len() && i < names.len() - 1 {
                assert(name_before(names[i], names[names.len() - 1]));
                lemma_name_order(names[i], names.last(), name);
            }
        }
        assert forall|x: Seq<char>| #[trigger] result.contains(x) <==> names.contains(x) || x == name by {
            if names.contains(x) {
                let i = choose|i: int| 0 <= i < names.len() && names[i] == x;
                assert(result[i] == x);
            }
            assert(result[names.len() as int] == name);
        }
    } else {
        lemma_name_order(names.last(), name, name);
        let shorter = names.drop_last();
        lemma_insert_sorted(shorter, name);
        let inner = insert_sorted(shorter, name);
        assert forall|i: int, j: int| 0 <= i < j < result.len() implies name_before(#[trigger] result[i], #[trigger] result[j]) by {
            if j == inner.len() {
                assert(inner.contains(inner[i]));
                if inner[i] != name {
                    assert(shorter.contains(inner[i]));
                    let k = choose|k: int| 0 <= k < shorter.len() && shorter[k] == inner[i];
                    assert(name_before(names[k], names[names.len() - 1]));
                }
            }
        }
        assert forall|x: Seq<char>| #[trigger] result.contains(x) <==> names.contains(x) || x == name by {
            if names.contains(x) {
                let i = choose|i: int| 0 <= i < names.len() && names[i] == x;
                if i < shorter.len() {
                    assert(shorter[i] == x);
                    assert(inner.contains(x));
                    let k = choose|k: int| 0 <= k < inner.len() && inner[k] == x;
                    assert(result[k] == x);
                } else {
                    assert(result[inner.len() as int] == x);
                }
            }
            if x == name {
                assert(inner.contains(x));
                let k = choose|k: int| 0 <= k < inner.len() && inner[k] == x;
                assert(result[k] == x);
            }
            if result.contains(x) {
                let k = choose|k: int| 0 <= k < result.len() && result[k] == x;
                if k < inner.len() {
                    assert(inner.contains(x));
                    if x != name {
                        let i = choose|i: int| 0 <= i < shorter.len() && shorter[i] == x;
                        assert(names[i] == x);
                    }
                } else {
                    assert(names[names.len() - 1] == x);
                }
            }
        }
    }
}

/// Puts `name` in its place among `names`.
pub fn insert_name_sorted(names: &mut Vec<String>, name: &str)
    ensures
        name_texts(final(names)@) == insert_sorted(name_texts(old(names)@), name@),
    decreases old(names)@.len(),
{
    let ghost texts = name_texts(names@);
    match names.pop() {
        None => {
            names.push(name.to_owned());
            assert(name_texts(names@) =~= seq![name@]);
        },
        Some(last) => {
            assert(texts.drop_last() =~= name_texts(names@));
            assert(texts.last() == last@);
            if same(last.as_str(), name) {
                names.push(last);
                assert(name_texts(names@) =~= texts);
            } else if before(last.as_str(), name) {
                names.push(last);
                names.push(name.to_owned());
                assert(name_texts(names@) =~= texts.push(name@));
            } else {
                insert_name_sorted(names, name);
                let ghost inner = name_texts(names@);
                names.push(last);
                assert(name_texts(names@) =~= inner.push(last@));
            }
        },
    }
}

/// The names of a finite set in ascending order.
pub open spec fn ascending(names: Set<Seq<char>>) -> Seq<Seq<char>> {
    choose|list: Seq<Seq<char>>| names_ascend(list) && #[trigger] list.to_set() == names
}

proof fn lemma_ascending_unique(left: Seq<Seq<char>>, right: Seq<Seq<char>>)
    requires
        names_ascend(left),
        names_ascend(right),
        left.to_set() == right.to_set(),
    ensures
        left == right,
    decreases left.len(),
{
    if left.len() == 0 {
        if right.len() > 0 {
            assert(right.to_set().contains(right[0]));
            assert(left.to_set().contains(right[0]));
        }
        assert(left =~= right);
    } else {
        assert(left.to_set().contains(left.last()));
        assert(right.to_set().contains(left.last()));
        let i = choose|i: int| 0 <= i < right.len() && right[i] == left.last();
        assert(right.to_set().contains(right.last()));
        assert(left.to_set().contains(right.last()));
        let j = choose|j: int| 0 <= j < left.len() && left[j] == right.last();
        if i < right.len() - 1 {
            assert(name_before(right[i], right[right.len() - 1]));
            if j < left.len() - 1 {
                assert(name_before(left[j], left[left.len() - 1]));
            }
            lemma_name_order(left.last(), right.last(), left.last());
        }
        assert(left.last() == right.last());
        let l = left.drop_last();
        let r = right.drop_last();
        assert forall|x: Seq<char>| l.to_set().contains(x) <==> r.to_set().contains(x) by {
            if l.contains(x) {
                let k = choose|k: int| 0 <= k < l.len() && l[k] == x;
                assert(name_before(left[k], left[left.len() - 1]));
                lemma_name_order(x, x, x);
                assert(left[k] == x);
                assert(left.to_set().contains(x));
                assert(right.to_set().contains(x));
                let m = choose|m: int| 0 <= m < right.len() && right[m] == x;
                assert(m < right.len() - 1);
                assert(r[m] == x);
            }
            if r.contains(x) {
                let k = choose|k: int| 0 <= k < r.len() && r[k] == x;
                assert(name_before(right[k], right[right.len() - 1]));
                lemma_name_order(x, x, x);
                assert(right[k] == x);
                assert(right.to_set().contains(x));
                assert(left.to_set().contains(x));
                let m = choose|m: int| 0 <= m < left.len() && left[m] == x;
                assert(m < left.len() - 1);
                assert(l[m] == x);
            }
        }
        assert(l.to_set() =~= r.to_set());
        assert(names_ascend(l)) by {
            assert forall|a: int, b: int| 0 <= a < b < l.len() implies name_before(#[trigger] l[a], #[trigger] l[b]) by {
                assert(name_before(left[a], left[b]));
            }
        }
        assert(names_ascend(r)) by {
            assert forall|a: int, b: int| 0 <= a < b < r.len() implies name_before(#[trigger] r[a], #[trigger] r[b]) by {
                assert(name_before(right[a], right[b]));
            }
        }
        lemma_ascending_unique(l, r);
        assert(left =~= l.push(left.last()));
        assert(right =~= r.push(right.last()));
    }
}

/// An ascending list of names is the only one that lists exactly its names.
pub proof fn lemma_ascending(list: Seq<Seq<char>>)
    requires
        names_ascend(list),
    ensures
        ascending(list.to_set()) == list,
{
    assert(names_ascend(list) && list.to_set() == list.to_set());
    lemma_ascending_unique(ascending(list.to_set()), list);
}

/// The names in ascending order.
pub fn sorted(names: &NameSet) -> (list: Vec<String>)
    ensures
        name_texts(list@) == ascending(names@),
        forall|i: int| 0 <= i < list@.len() ==> names@.contains((#[trigger] list@[i])@),
{
    let mut list: Vec<String> = Vec::new();
    let mut index: usize = 0;
    assert(name_texts(list@).to_set() =~= name_texts(names.names@.subrange(0, 0)).to_set());
    while index < names.names.len()
        invariant
            index <= names.names@.len(),
            names_ascend(name_texts(list@)),
            name_texts(list@).to_set() == name_texts(names.names@.subrange(0, index as int)).to_set(),
        decreases names.names@.len() - index,
    {
        proof {
            lemma_insert_sorted(name_texts(list@), names.names@[index as int]@);
        }
        let ghost before_list = name_texts(list@);
        insert_name_sorted(&mut list, names.names[index].as_str());
        proof {
            let next = names.names@.subrange(0, index + 1);
            let shorter = names.names@.subrange(0, index as int);
            assert(name_texts(next) =~= name_texts(shorter).push(names.names@[index as int]@));
            assert forall|x: Seq<char>| name_texts(list@).to_set().contains(x) <==> name_texts(next).to_set().contains(x) by {
                assert(before_list.to_set().contains(x) <==> name_texts(shorter).to_set().contains(x));
                if name_texts(shorter).contains(x) {
                    let k = choose|k: int| 0 <= k < name_texts(shorter).len() && name_texts(shorter)[k] == x;
                    assert(name_texts(next)[k] == x);
                }
                assert(name_texts(next)[index as int] == names.names@[index as int]@);
            }
            assert(name_texts(list@).to_set() =~= name_texts(next).to_set());
        }
        index = index + 1;
    }
    proof {
        assert(names.names@.subrange(0, names.names@.len() as int) =~= names.names@);
        lemma_ascending(name_texts(list@));
        assert forall|i: int| 0 <= i < list@.len() implies names@.contains((#[trigger] list@[i])@) by {
            assert(name_texts(list@)[i] == list@[i]@);
            assert(name_texts(list@).to_set().contains(list@[i]@));
        }
    }
    list
}

/// A set with names added.
pub fn with_names(bound: &NameSet, names: &Vec<String>) -> (extended: NameSet)
    ensures
        extended@ == bound@ + name_texts(names@).to_set(),
{
    let mut extended = bound.duplicate();
    let mut index: usize = 0;
    assert(extended@ =~= bound@ + name_texts(names@.subrange(0, 0)).to_set());
    while index < names.len()
        invariant
            index <= names@.len(),
            extended@ == bound@ + name_texts(names@.subrange(0, index as int)).to_set(),
        decreases names@.len() - index,
    {
        extended.insert(names[index].clone());
        proof {
            let shorter = name_texts(names@.subrange(0, index as int));
            let next = name_texts(names@.subrange(0, index + 1));
            assert(next =~= shorter.push(names@[index as int]@));
            assert forall|x: Seq<char>| next.contains(x) <==> shorter.contains(x) || x == names@[index as int]@ by {
                if shorter.contains(x) {
                    let k = choose|k: int| 0 <= k < shorter.len() && shorter[k] == x;
                    assert(next[k] == x);
                }
                assert(next[index as int] == names@[index as int]@);
            }
            assert(extended@ =~= bound@ + next.to_set());
        }
        index = index + 1;
    }
    assert(names@.subrange(0, names@.len() as int) =~= names@);
    extended
}

} // verus!
