//! Things kept under the names of libraries, and rows of such names.
use crate::names::name_texts;
use crate::text::same;
use vstd::prelude::*;

verus! {

broadcast use vstd::seq_lib::group_seq_properties;

/// What was put under a name last.
pub open spec fn shelved<T>(entries: Seq<(Seq<Seq<char>>, T)>, name: Seq<Seq<char>>) -> Option<T>
    decreases entries.len(),
{
    if entries.len() == 0 {
        None
    } else if entries.last().0 == name {
        Some(entries.last().1)
    } else {
        shelved(entries.drop_last(), name)
    }
}

/// Things kept under the names of libraries.
pub struct Shelf<T> {
    pub entries: Vec<(Vec<String>, T)>,
}

/// What a shelf holds.
pub open spec fn entries_of<T: View>(entries: Seq<(Vec<String>, T)>) -> Seq<(Seq<Seq<char>>, T::V)> {
    entries.map_values(|entry: (Vec<String>, T)| (name_texts(entry.0@), entry.1@))
}

impl<T: View> View for Shelf<T> {
    type V = Seq<(Seq<Seq<char>>, T::V)>;

    open spec fn view(&self) -> Seq<(Seq<Seq<char>>, T::V)> {
        entries_of(self.entries@)
    }
}

/// Whether two rows of names are the same.
pub fn same_names(left: &Vec<String>, right: &Vec<String>) -> (equal: bool)
    ensures
        equal == (name_texts(left@) == name_texts(right@)),
{
    if left.len() != right.len() {
        assert(name_texts(left@).len() != name_texts(right@).len());
        return false;
    }
    let mut index: usize = 0;
    while index < left.len()
        invariant
            index <= left@.len(),
            left@.len() == right@.len(),
            forall|i: int| 0 <= i < index ==> (#[trigger] left@[i])@ == right@[i]@,
        decreases left@.len() - index,
    {
        if !same(left[index].as_str(), right[index].as_str()) {
            assert(name_texts(left@)[index as int] != name_texts(right@)[index as int]);
            return false;
        }
        index = index + 1;
    }
    assert(name_texts(left@) =~= name_texts(right@));
    true
}

/// A row of names of libraries.
pub open spec fn row_texts(rows: Seq<Vec<String>>) -> Seq<Seq<Seq<char>>> {
    rows.map_values(|row: Vec<String>| name_texts(row@))
}

/// Whether a name of a library is in a row.
pub fn contains_row(rows: &Vec<Vec<String>>, name: &Vec<String>) -> (found: bool)
    ensures
        found == row_texts(rows@).contains(name_texts(name@)),
{
    let mut index: usize = 0;
    while index < rows.len()
        invariant
            index <= rows@.len(),
            forall|i: int| 0 <= i < index ==> #[trigger] row_texts(rows@)[i] != name_texts(name@),
        decreases rows@.len() - index,
    {
        assert(row_texts(rows@)[index as int] == name_texts(rows@[index as int]@));
        if same_names(&rows[index], name) {
            return true;
        }
        index = index + 1;
    }
    false
}

impl<T: View> Shelf<T> {
    /// A shelf that holds nothing.
    pub fn new() -> (shelf: Self)
        ensures
            shelf@ == Seq::<(Seq<Seq<char>>, T::V)>::empty(),
    {
        let shelf = Shelf { entries: Vec::new() };
        assert(shelf@ =~= Seq::<(Seq<Seq<char>>, T::V)>::empty());
        shelf
    }

    /// Puts something under a name.
    pub fn put(&mut self, name: Vec<String>, item: T)
        ensures
            final(self)@ == old(self)@.push((name_texts(name@), item@)),
    {
        self.entries.push((name, item));
        assert(self@ =~= old(self)@.push((name_texts(name@), item@)));
    }

    /// What was put under a name last.
    pub fn find(&self, name: &Vec<String>) -> (item: Option<&T>)
        ensures
            match item {
                Some(item) => shelved(self@, name_texts(name@)) == Some(item@),
                None => shelved(self@, name_texts(name@)) is None,
            },
    {
        let mut index: usize = self.entries.len();
        assert(self@.subrange(0, index as int) =~= self@);
        while index > 0
            invariant
                index <= self.entries@.len(),
                shelved(self@, name_texts(name@)) == shelved(self@.subrange(0, index as int), name_texts(name@)),
            decreases index,
        {
            index = index - 1;
            proof {
                let longer = self@.subrange(0, index + 1);
                assert(longer.last() == self@[index as int]);
                assert(self@[index as int] == (
                    name_texts(self.entries@[index as int].0@),
                    self.entries@[index as int].1@,
                ));
                assert(longer.drop_last() =~= self@.subrange(0, index as int));
            }
            if same_names(&self.entries[index].0, name) {
                return Some(&self.entries[index].1);
            }
        }
        None
    }
}

/// How many of the entries have names that are not in a row.
pub open spec fn outside<T>(entries: Seq<(Seq<Seq<char>>, T)>, row: Seq<Seq<Seq<char>>>) -> nat
    decreases entries.len(),
{
    if entries.len() == 0 {
        0
    } else {
        outside(entries.drop_last(), row) + if row.contains(entries.last().0) { 0nat } else { 1nat }
    }
}

/// A longer row leaves out no more entries, and fewer where the new name is that of an entry.
pub proof fn lemma_outside<T>(entries: Seq<(Seq<Seq<char>>, T)>, row: Seq<Seq<Seq<char>>>, name: Seq<Seq<char>>)
    ensures
        outside(entries, row.push(name)) <= outside(entries, row),
        shelved(entries, name) is Some && !row.contains(name) ==> outside(entries, row.push(name)) < outside(
            entries,
            row,
        ),
    decreases entries.len(),
{
    if entries.len() > 0 {
        lemma_outside(entries.drop_last(), row, name);
        let last = entries.last().0;
        if row.contains(last) {
            let i = choose|i: int| 0 <= i < row.len() && row[i] == last;
            assert(row.push(name)[i] == last);
        }
        assert(row.push(name)[row.len() as int] == name);
    }
}

} // verus!
