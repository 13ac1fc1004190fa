//! Lists: chains of pairs.
use crate::runtime::error::RuntimeError;
use crate::runtime::heap::{allocated_rooted, object_at, Outcome, Runtime, World};
use crate::runtime::layout::EMPTY_LIST;
use crate::runtime::object::{Object, Thing};
use vstd::prelude::*;

verus! {

broadcast use vstd::seq_lib::group_seq_properties;

/// What the pair holds that a word refers to.
pub open spec fn pair_at(objects: Map<usize, Thing>, bits: usize) -> Option<(usize, usize)> {
    match object_at(objects, bits) {
        Some(Thing::Pair { car, cdr }) => Some((car, cdr)),
        _ => None,
    }
}

/// The elements of a chain of at most `limit` pairs, and what follows its last pair.
pub open spec fn spine_within(objects: Map<usize, Thing>, bits: usize, limit: nat) -> Option<(Seq<usize>, usize)>
    decreases limit,
{
    match pair_at(objects, bits) {
        None => Some((Seq::empty(), bits)),
        Some((car, cdr)) => if limit == 0 {
            None
        } else {
            match spine_within(objects, cdr, (limit - 1) as nat) {
                None => None,
                Some((rest, end)) => Some((seq![car] + rest, end)),
            }
        },
    }
}

/// Whether a chain of pairs comes to an end.
pub open spec fn chain_ends(objects: Map<usize, Thing>, bits: usize) -> bool {
    exists|limit: nat| (#[trigger] spine_within(objects, bits, limit)) is Some
}

/// The elements of a chain of pairs that comes to an end, and what follows its last pair.
pub open spec fn spine(objects: Map<usize, Thing>, bits: usize) -> (Seq<usize>, usize) {
    spine_within(objects, bits, choose|limit: nat| (#[trigger] spine_within(objects, bits, limit)) is Some)->0
}

/// The elements of a list: a chain of pairs that the empty list follows.
pub open spec fn elements_of(objects: Map<usize, Thing>, bits: usize) -> Result<Seq<usize>, RuntimeError> {
    if spine(objects, bits).1 == EMPTY_LIST {
        Ok(spine(objects, bits).0)
    } else {
        Err(RuntimeError::InvalidObjectKind)
    }
}

proof fn lemma_spine_within(objects: Map<usize, Thing>, bits: usize, less: nat, more: nat)
    requires
        less <= more,
        spine_within(objects, bits, less) is Some,
    ensures
        spine_within(objects, bits, more) == spine_within(objects, bits, less),
    decreases less,
{
    if let Some((car, cdr)) = pair_at(objects, bits) {
        lemma_spine_within(objects, cdr, (less - 1) as nat, (more - 1) as nat);
    }
}

/// The spine does not depend on how far one is ready to go.
pub proof fn lemma_spine(objects: Map<usize, Thing>, bits: usize, limit: nat)
    requires
        spine_within(objects, bits, limit) is Some,
    ensures
        chain_ends(objects, bits),
        spine_within(objects, bits, limit) == Some(spine(objects, bits)),
{
    let chosen = choose|limit: nat| (#[trigger] spine_within(objects, bits, limit)) is Some;
    if chosen <= limit {
        lemma_spine_within(objects, bits, chosen, limit);
    } else {
        lemma_spine_within(objects, bits, limit, chosen);
    }
}

/// The spine of a pair is its first part before the spine of its second part.
pub proof fn lemma_spine_step(objects: Map<usize, Thing>, bits: usize)
    ensures
        match pair_at(objects, bits) {
            None => chain_ends(objects, bits) && spine(objects, bits) == (Seq::<usize>::empty(), bits),
            Some((car, cdr)) => (chain_ends(objects, bits) <==> chain_ends(objects, cdr)) && (chain_ends(
                objects,
                bits,
            ) ==> spine(objects, bits) == (seq![car] + spine(objects, cdr).0, spine(objects, cdr).1)),
        },
{
    match pair_at(objects, bits) {
        None => {
            lemma_spine(objects, bits, 0);
        },
        Some((car, cdr)) => {
            if chain_ends(objects, bits) {
                let limit = choose|limit: nat| (#[trigger] spine_within(objects, bits, limit)) is Some;
                lemma_spine(objects, bits, limit);
                lemma_spine(objects, cdr, (limit - 1) as nat);
            }
            if chain_ends(objects, cdr) {
                let limit = choose|limit: nat| (#[trigger] spine_within(objects, cdr, limit)) is Some;
                lemma_spine(objects, cdr, limit);
                lemma_spine(objects, bits, limit + 1);
            }
        },
    }
}

/// What follows `index` pairs.
pub open spec fn tail_of(objects: Map<usize, Thing>, bits: usize, index: nat) -> Result<usize, RuntimeError>
    decreases index,
{
    if index == 0 {
        Ok(bits)
    } else {
        match pair_at(objects, bits) {
            None => Err(RuntimeError::InvalidObjectKind),
            Some((car, cdr)) => tail_of(objects, cdr, (index - 1) as nat),
        }
    }
}

/// The element that follows `index` others.
pub open spec fn element_of(objects: Map<usize, Thing>, bits: usize, index: nat) -> Result<usize, RuntimeError> {
    match tail_of(objects, bits, index) {
        Err(error) => Err(error),
        Ok(tail) => match pair_at(objects, tail) {
            None => Err(RuntimeError::InvalidObjectKind),
            Some((car, cdr)) => Ok(car),
        },
    }
}

/// New pairs that hold elements, before `tail`.
pub open spec fn consed(world: World, elements: Seq<usize>, tail: usize) -> Outcome<usize>
    decreases elements.len(),
{
    if elements.len() == 0 {
        (world, Ok(tail))
    } else {
        match allocated_rooted(world, Thing::Pair { car: elements.last(), cdr: tail }) {
            (world, Err(error)) => (world, Err(error)),
            (world, Ok(pair)) => consed(world, elements.drop_last(), pair),
        }
    }
}

/// A new list with elements, before `tail`, made on behalf of a thread.
#[verifier::opaque]
pub open spec fn list_made(world: World, elements: Seq<usize>, tail: usize) -> Outcome<usize> {
    if world.current == 0 {
        (world, Err(RuntimeError::InvalidThread))
    } else {
        consed(world, elements, tail)
    }
}

/// A list, copied, before another.
#[verifier::opaque]
pub open spec fn appended(world: World, left: usize, right: usize) -> Outcome<usize> {
    if left == EMPTY_LIST {
        (world, Ok(right))
    } else {
        match elements_of(world.objects, left) {
            Err(error) => (world, Err(error)),
            Ok(elements) => list_made(world, elements, right),
        }
    }
}

/// A copy of a list.
#[verifier::opaque]
pub open spec fn list_copied(world: World, list: usize) -> Outcome<usize> {
    match elements_of(world.objects, list) {
        Err(error) => (world, Err(error)),
        Ok(elements) => list_made(world, elements, EMPTY_LIST),
    }
}

/// The elements of a list in the opposite order.
#[verifier::opaque]
pub open spec fn list_reversed(world: World, list: usize) -> Outcome<usize> {
    match elements_of(world.objects, list) {
        Err(error) => (world, Err(error)),
        Ok(elements) => list_made(world, elements.reverse(), EMPTY_LIST),
    }
}

impl Runtime {
    /// What the pair holds that a word refers to.
    pub fn pair(&self, bits: usize) -> (pair: Option<(usize, usize)>)
        requires
            self@.well_formed(),
        ensures
            pair == pair_at(self@.objects, bits),
    {
        match self.object(bits) {
            Some(Object::Pair { car, cdr }) => Some((*car, *cdr)),
            _ => None,
        }
    }

    /// The elements of a list.
    pub fn collect_list_elements(&self, list: usize) -> (result: Result<Vec<usize>, RuntimeError>)
        requires
            self@.well_formed(),
            chain_ends(self@.objects, list),
        ensures
            match result {
                Ok(elements) => elements_of(self@.objects, list) == Ok::<Seq<usize>, RuntimeError>(elements@),
                Err(error) => elements_of(self@.objects, list) == Err::<Seq<usize>, RuntimeError>(error),
            },
    {
        let ghost objects = self@.objects;
        let ghost mut limit = choose|limit: nat| (#[trigger] spine_within(objects, list, limit)) is Some;
        let mut elements: Vec<usize> = Vec::new();
        let mut value: usize = list;
        proof {
            lemma_spine(objects, list, limit);
        }
        let mut next = self.pair(value);
        while next.is_some()
            invariant
                self@.well_formed(),
                objects == self@.objects,
                next == pair_at(objects, value),
                spine_within(objects, value, limit) is Some,
                chain_ends(objects, value),
                spine(objects, list) == (elements@ + spine(objects, value).0, spine(objects, value).1),
            decreases limit,
        {
            let (car, cdr) = next.unwrap();
            proof {
                lemma_spine_step(objects, value);
                limit = (limit - 1) as nat;
                assert(elements@.push(car) + spine(objects, cdr).0 =~= elements@ + (seq![car] + spine(objects, cdr).0));
            }
            elements.push(car);
            value = cdr;
            next = self.pair(value);
        }
        proof {
            lemma_spine_step(objects, value);
        }
        if value == EMPTY_LIST {
            Ok(elements)
        } else {
            Err(RuntimeError::InvalidObjectKind)
        }
    }

    /// Whether a word is a list.
    pub fn is_proper_list(&self, list: usize) -> (result: bool)
        requires
            self@.well_formed(),
            chain_ends(self@.objects, list),
        ensures
            result == (elements_of(self@.objects, list) is Ok),
    {
        self.collect_list_elements(list).is_ok()
    }

    /// The number of elements of a list.
    pub fn proper_list_length(&self, list: usize) -> (result: Result<usize, RuntimeError>)
        requires
            self@.well_formed(),
            chain_ends(self@.objects, list),
        ensures
            match result {
                Ok(length) => elements_of(self@.objects, list) is Ok && length == elements_of(
                    self@.objects,
                    list,
                )->Ok_0.len(),
                Err(error) => elements_of(self@.objects, list) == Err::<Seq<usize>, RuntimeError>(error),
            },
    {
        let elements = self.collect_list_elements(list)?;
        Ok(elements.len())
    }

    /// What follows `index` pairs.
    pub fn list_tail_value(&self, list: usize, index: usize) -> (result: Result<usize, RuntimeError>)
        requires
            self@.well_formed(),
        ensures
            result == tail_of(self@.objects, list, index as nat),
    {
        let mut value: usize = list;
        let mut left: usize = index;
        while left > 0
            invariant
                self@.well_formed(),
                tail_of(self@.objects, list, index as nat) == tail_of(self@.objects, value, left as nat),
            decreases left,
        {
            match self.pair(value) {
                None => {
                    return Err(RuntimeError::InvalidObjectKind);
                },
                Some((_, cdr)) => {
                    value = cdr;
                },
            }
            left = left - 1;
        }
        Ok(value)
    }

    /// The element that follows `index` others.
    pub fn list_ref_value(&self, list: usize, index: usize) -> (result: Result<usize, RuntimeError>)
        requires
            self@.well_formed(),
        ensures
            result == element_of(self@.objects, list, index as nat),
    {
        let tail: usize = self.list_tail_value(list, index)?;
        match self.pair(tail) {
            None => Err(RuntimeError::InvalidObjectKind),
            Some((car, _)) => Ok(car),
        }
    }

    /// Makes a list with elements, before `tail`.
    pub fn make_list(&mut self, elements: &Vec<usize>, tail: usize) -> (result: Result<usize, RuntimeError>)
        requires
            old(self)@.well_formed(),
        ensures
            final(self)@.well_formed(),
            (final(self)@, result) == list_made(old(self)@, elements@, tail),
    {
        reveal(list_made);
        if self.current == 0 {
            return Err(RuntimeError::InvalidThread);
        }
        let mut list: usize = tail;
        let mut left: usize = elements.len();
        assert(elements@.subrange(0, left as int) =~= elements@);
        while left > 0
            invariant
                left <= elements@.len(),
                self@.well_formed(),
                old(self)@.current != 0,
                list_made(old(self)@, elements@, tail) == consed(
                    self@,
                    elements@.subrange(0, left as int),
                    list,
                ),
            decreases left,
        {
            proof {
                assert(elements@.subrange(0, left as int).drop_last() =~= elements@.subrange(0, left - 1));
                assert(elements@.subrange(0, left as int).last() == elements@[left - 1]);
            }
            left = left - 1;
            match self.alloc_pair_checked(elements[left], list) {
                Ok(pair) => {
                    list = pair;
                },
                Err(error) => {
                    return Err(error);
                },
            }
        }
        Ok(list)
    }

    /// A list, copied, before another.
    pub fn append_two_lists(&mut self, left: usize, right: usize) -> (result: Result<usize, RuntimeError>)
        requires
            old(self)@.well_formed(),
            chain_ends(old(self)@.objects, left),
        ensures
            final(self)@.well_formed(),
            (final(self)@, result) == appended(old(self)@, left, right),
    {
        reveal(appended);
        if left == EMPTY_LIST {
            return Ok(right);
        }
        let elements = self.collect_list_elements(left)?;
        self.make_list(&elements, right)
    }

    /// A copy of a list.
    pub fn copy_list(&mut self, list: usize) -> (result: Result<usize, RuntimeError>)
        requires
            old(self)@.well_formed(),
            chain_ends(old(self)@.objects, list),
        ensures
            final(self)@.well_formed(),
            (final(self)@, result) == list_copied(old(self)@, list),
    {
        reveal(list_copied);
        let elements = self.collect_list_elements(list)?;
        self.make_list(&elements, EMPTY_LIST)
    }

    /// The elements of a list in the opposite order.
    pub fn reverse_list(&mut self, list: usize) -> (result: Result<usize, RuntimeError>)
        requires
            old(self)@.well_formed(),
            chain_ends(old(self)@.objects, list),
        ensures
            final(self)@.well_formed(),
            (final(self)@, result) == list_reversed(old(self)@, list),
    {
        reveal(list_reversed);
        let elements = self.collect_list_elements(list)?;
        let mut reversed: Vec<usize> = Vec::new();
        let mut left: usize = elements.len();
        while left > 0
            invariant
                left <= elements@.len(),
                reversed@ == elements@.reverse().subrange(0, elements@.len() - left),
            decreases left,
        {
            left = left - 1;
            reversed.push(elements[left]);
            assert(reversed@ =~= elements@.reverse().subrange(0, elements@.len() - left));
        }
        assert(reversed@ =~= elements@.reverse());
        self.make_list(&reversed, EMPTY_LIST)
    }
}

} // verus!
