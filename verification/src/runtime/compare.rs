//! Equality of values, and searches in lists that use it.
use crate::runtime::error::RuntimeError;
use crate::runtime::heap::{object_at, same_bytes, Runtime};
use crate::runtime::layout::{BOOL_FALSE, EMPTY_LIST};
use crate::runtime::lists::pair_at;
use crate::runtime::object::{Object, Thing};
use vstd::prelude::*;

verus! {

broadcast use vstd::seq_lib::group_seq_properties;

/// Whether two values have the same contents, found by going at most `depth` objects deep.
pub open spec fn equal_within(objects: Map<usize, Thing>, left: usize, right: usize, depth: nat) -> Option<bool>
    decreases depth, 1nat, 0nat,
{
    if left == right {
        Some(true)
    } else {
        match (object_at(objects, left), object_at(objects, right)) {
            (Some(Thing::Pair { car: a, cdr: b }), Some(Thing::Pair { car: c, cdr: d })) => if depth == 0 {
                None
            } else {
                match equal_within(objects, a, c, (depth - 1) as nat) {
                    Some(true) => equal_within(objects, b, d, (depth - 1) as nat),
                    found => found,
                }
            },
            (Some(Thing::Text(a)), Some(Thing::Text(b))) => Some(a == b),
            (Some(Thing::Symbol(a)), Some(Thing::Symbol(b))) => Some(a == b),
            (Some(Thing::Vector(a)), Some(Thing::Vector(b))) => if a.len() != b.len() {
                Some(false)
            } else if depth == 0 {
                None
            } else {
                rows_equal_within(objects, a, b, 0, (depth - 1) as nat)
            },
            (Some(Thing::Boxed(a)), Some(Thing::Boxed(b))) => if depth == 0 {
                None
            } else {
                equal_within(objects, a, b, (depth - 1) as nat)
            },
            (Some(Thing::Values(a)), Some(Thing::Values(b))) => if a.len() != b.len() {
                Some(false)
            } else if depth == 0 {
                None
            } else {
                rows_equal_within(objects, a, b, 0, (depth - 1) as nat)
            },
            _ => Some(false),
        }
    }
}

/// Whether two rows of values have the same contents from one on.
pub open spec fn rows_equal_within(objects: Map<usize, Thing>, left: Seq<usize>, right: Seq<usize>, index: nat, depth: nat) -> Option<
    bool,
>
    decreases depth, 2nat, left.len() - index,
{
    if index >= left.len() || index >= right.len() {
        Some(true)
    } else {
        match equal_within(objects, left[index as int], right[index as int], depth) {
            Some(true) => rows_equal_within(objects, left, right, index + 1, depth),
            found => found,
        }
    }
}

/// Whether comparing two values comes to an end.
pub open spec fn comparison_ends(objects: Map<usize, Thing>, left: usize, right: usize) -> bool {
    exists|depth: nat| (#[trigger] equal_within(objects, left, right, depth)) is Some
}

/// Whether two values have the same contents, where comparing them comes to an end.
pub open spec fn equal_contents(objects: Map<usize, Thing>, left: usize, right: usize) -> bool {
    equal_within(
        objects,
        left,
        right,
        choose|depth: nat| (#[trigger] equal_within(objects, left, right, depth)) is Some,
    )->0
}

proof fn lemma_equal_deeper(objects: Map<usize, Thing>, left: usize, right: usize, less: nat, more: nat)
    requires
        less <= more,
        equal_within(objects, left, right, less) is Some,
    ensures
        equal_within(objects, left, right, more) == equal_within(objects, left, right, less),
    decreases less, 1nat, 0nat,
{
    if left != right {
        match (object_at(objects, left), object_at(objects, right)) {
            (Some(Thing::Pair { car: a, cdr: b }), Some(Thing::Pair { car: c, cdr: d })) => {
                lemma_equal_deeper(objects, a, c, (less - 1) as nat, (more - 1) as nat);
                if equal_within(objects, a, c, (less - 1) as nat) == Some(true) {
                    lemma_equal_deeper(objects, b, d, (less - 1) as nat, (more - 1) as nat);
                }
            },
            (Some(Thing::Vector(a)), Some(Thing::Vector(b))) => {
                if a.len() == b.len() {
                    lemma_rows_equal_deeper(objects, a, b, 0, (less - 1) as nat, (more - 1) as nat);
                }
            },
            (Some(Thing::Boxed(a)), Some(Thing::Boxed(b))) => {
                lemma_equal_deeper(objects, a, b, (less - 1) as nat, (more - 1) as nat);
            },
            (Some(Thing::Values(a)), Some(Thing::Values(b))) => {
                if a.len() == b.len() {
                    lemma_rows_equal_deeper(objects, a, b, 0, (less - 1) as nat, (more - 1) as nat);
                }
            },
            _ => {},
        }
    }
}

proof fn lemma_rows_equal_deeper(
    objects: Map<usize, Thing>,
    left: Seq<usize>,
    right: Seq<usize>,
    index: nat,
    less: nat,
    more: nat,
)
    requires
        less <= more,
        rows_equal_within(objects, left, right, index, less) is Some,
    ensures
        rows_equal_within(objects, left, right, index, more) == rows_equal_within(
            objects,
            left,
            right,
            index,
            less,
        ),
    decreases less, 2nat, left.len() - index,
{
    if index < left.len() && index < right.len() {
        lemma_equal_deeper(objects, left[index as int], right[index as int], less, more);
        if equal_within(objects, left[index as int], right[index as int], less) == Some(true) {
            lemma_rows_equal_deeper(objects, left, right, index + 1, less, more);
        }
    }
}

/// What comparing two values comes to does not depend on how deep one is ready to go.
pub proof fn lemma_equal_contents(objects: Map<usize, Thing>, left: usize, right: usize, depth: nat)
    requires
        equal_within(objects, left, right, depth) is Some,
    ensures
        comparison_ends(objects, left, right),
        equal_within(objects, left, right, depth) == Some(equal_contents(objects, left, right)),
{
    let chosen = choose|depth: nat| (#[trigger] equal_within(objects, left, right, depth)) is Some;
    if chosen <= depth {
        lemma_equal_deeper(objects, left, right, chosen, depth);
    } else {
        lemma_equal_deeper(objects, left, right, depth, chosen);
    }
}

proof fn lemma_equal_within_symmetric(objects: Map<usize, Thing>, left: usize, right: usize, depth: nat)
    ensures
        equal_within(objects, left, right, depth) == equal_within(objects, right, left, depth),
    decreases depth, 1nat, 0nat,
{
    if left != right {
        match (object_at(objects, left), object_at(objects, right)) {
            (Some(Thing::Pair { car: a, cdr: b }), Some(Thing::Pair { car: c, cdr: d })) => {
                if depth > 0 {
                    lemma_equal_within_symmetric(objects, a, c, (depth - 1) as nat);
                    lemma_equal_within_symmetric(objects, b, d, (depth - 1) as nat);
                }
            },
            (Some(Thing::Vector(a)), Some(Thing::Vector(b))) => {
                if a.len() == b.len() && depth > 0 {
                    lemma_rows_equal_symmetric(objects, a, b, 0, (depth - 1) as nat);
                }
            },
            (Some(Thing::Boxed(a)), Some(Thing::Boxed(b))) => {
                if depth > 0 {
                    lemma_equal_within_symmetric(objects, a, b, (depth - 1) as nat);
                }
            },
            (Some(Thing::Values(a)), Some(Thing::Values(b))) => {
                if a.len() == b.len() && depth > 0 {
                    lemma_rows_equal_symmetric(objects, a, b, 0, (depth - 1) as nat);
                }
            },
            _ => {},
        }
    }
}

proof fn lemma_rows_equal_symmetric(objects: Map<usize, Thing>, left: Seq<usize>, right: Seq<usize>, index: nat, depth: nat)
    requires
        left.len() == right.len(),
    ensures
        rows_equal_within(objects, left, right, index, depth) == rows_equal_within(
            objects,
            right,
            left,
            index,
            depth,
        ),
    decreases depth, 2nat, left.len() - index,
{
    if index < left.len() {
        lemma_equal_within_symmetric(objects, left[index as int], right[index as int], depth);
        lemma_rows_equal_symmetric(objects, left, right, index + 1, depth);
    }
}

/// Every value has the same contents as itself, and it does not matter which of two values is
/// named first.
pub proof fn lemma_equal_contents_symmetric(objects: Map<usize, Thing>, left: usize, right: usize)
    ensures
        comparison_ends(objects, left, left) && equal_contents(objects, left, left),
        comparison_ends(objects, left, right) == comparison_ends(objects, right, left),
        comparison_ends(objects, left, right) ==> equal_contents(objects, left, right) == equal_contents(
            objects,
            right,
            left,
        ),
{
    lemma_equal_contents(objects, left, left, 0);
    if comparison_ends(objects, left, right) {
        let depth = choose|depth: nat| (#[trigger] equal_within(objects, left, right, depth)) is Some;
        lemma_equal_within_symmetric(objects, left, right, depth);
        lemma_equal_contents(objects, left, right, depth);
        lemma_equal_contents(objects, right, left, depth);
    }
    if comparison_ends(objects, right, left) {
        let depth = choose|depth: nat| (#[trigger] equal_within(objects, right, left, depth)) is Some;
        lemma_equal_within_symmetric(objects, left, right, depth);
        lemma_equal_contents(objects, left, right, depth);
    }
}

/// Whether a value is the one that is searched for: the same, or with the same contents.
pub open spec fn found_within(objects: Map<usize, Thing>, target: usize, value: usize, deep: bool, limit: nat) -> Option<
    bool,
> {
    if deep {
        equal_within(objects, target, value, limit)
    } else {
        Some(target == value)
    }
}

/// The part of a list that starts with a value, found within `limit` steps; false where there is
/// none.
pub open spec fn member_within(objects: Map<usize, Thing>, target: usize, list: usize, deep: bool, limit: nat) -> Option<
    Result<usize, RuntimeError>,
>
    decreases limit,
{
    if list == EMPTY_LIST {
        Some(Ok(BOOL_FALSE))
    } else {
        match pair_at(objects, list) {
            None => Some(Err(RuntimeError::InvalidObjectKind)),
            Some((car, cdr)) => if limit == 0 {
                None
            } else {
                match found_within(objects, target, car, deep, (limit - 1) as nat) {
                    None => None,
                    Some(true) => Some(Ok(list)),
                    Some(false) => member_within(objects, target, cdr, deep, (limit - 1) as nat),
                }
            },
        }
    }
}

/// The first pair in a list of pairs that starts with a value, found within `limit` steps; false
/// where there is none.
pub open spec fn assoc_within(objects: Map<usize, Thing>, target: usize, list: usize, deep: bool, limit: nat) -> Option<
    Result<usize, RuntimeError>,
>
    decreases limit,
{
    if list == EMPTY_LIST {
        Some(Ok(BOOL_FALSE))
    } else {
        match pair_at(objects, list) {
            None => Some(Err(RuntimeError::InvalidObjectKind)),
            Some((candidate, cdr)) => match pair_at(objects, candidate) {
                None => Some(Err(RuntimeError::InvalidObjectKind)),
                Some((key, _)) => if limit == 0 {
                    None
                } else {
                    match found_within(objects, target, key, deep, (limit - 1) as nat) {
                        None => None,
                        Some(true) => Some(Ok(candidate)),
                        Some(false) => assoc_within(objects, target, cdr, deep, (limit - 1) as nat),
                    }
                },
            },
        }
    }
}

/// Whether a search for a member comes to an end.
pub open spec fn member_search_ends(objects: Map<usize, Thing>, target: usize, list: usize, deep: bool) -> bool {
    exists|limit: nat| (#[trigger] member_within(objects, target, list, deep, limit)) is Some
}

/// What a search for a member finds, where it comes to an end.
pub open spec fn member_found(objects: Map<usize, Thing>, target: usize, list: usize, deep: bool) -> Result<
    usize,
    RuntimeError,
> {
    member_within(
        objects,
        target,
        list,
        deep,
        choose|limit: nat| (#[trigger] member_within(objects, target, list, deep, limit)) is Some,
    )->0
}

/// Whether a search in a list of pairs comes to an end.
pub open spec fn assoc_search_ends(objects: Map<usize, Thing>, target: usize, list: usize, deep: bool) -> bool {
    exists|limit: nat| (#[trigger] assoc_within(objects, target, list, deep, limit)) is Some
}

/// What a search in a list of pairs finds, where it comes to an end.
pub open spec fn assoc_found(objects: Map<usize, Thing>, target: usize, list: usize, deep: bool) -> Result<
    usize,
    RuntimeError,
> {
    assoc_within(
        objects,
        target,
        list,
        deep,
        choose|limit: nat| (#[trigger] assoc_within(objects, target, list, deep, limit)) is Some,
    )->0
}

impl Runtime {
    fn equal_at(&self, left: usize, right: usize, depth: Ghost<nat>) -> (equal: bool)
        requires
            self@.well_formed(),
            equal_within(self@.objects, left, right, depth@) is Some,
        ensures
            Some(equal) == equal_within(self@.objects, left, right, depth@),
        decreases depth@, 1nat, 0nat,
    {
        if left == right {
            return true;
        }
        let ghost less = (depth@ - 1) as nat;
        match (self.object(left), self.object(right)) {
            (Some(Object::Pair { car: a, cdr: b }), Some(Object::Pair { car: c, cdr: d })) => {
                self.equal_at(*a, *c, Ghost(less)) && self.equal_at(*b, *d, Ghost(less))
            },
            (Some(Object::Text(a)), Some(Object::Text(b))) => same_bytes(a, b),
            (Some(Object::Symbol(a)), Some(Object::Symbol(b))) => same_bytes(a, b),
            (Some(Object::Vector(a)), Some(Object::Vector(b))) => {
                a.len() == b.len() && self.rows_equal_at(a, b, 0, Ghost(less))
            },
            (Some(Object::Boxed(a)), Some(Object::Boxed(b))) => self.equal_at(*a, *b, Ghost(less)),
            (Some(Object::Values(a)), Some(Object::Values(b))) => {
                a.len() == b.len() && self.rows_equal_at(a, b, 0, Ghost(less))
            },
            _ => false,
        }
    }

    fn rows_equal_at(&self, left: &Vec<usize>, right: &Vec<usize>, index: usize, depth: Ghost<nat>) -> (equal: bool)
        requires
            self@.well_formed(),
            index <= left@.len(),
            rows_equal_within(self@.objects, left@, right@, index as nat, depth@) is Some,
        ensures
            Some(equal) == rows_equal_within(self@.objects, left@, right@, index as nat, depth@),
        decreases depth@, 2nat, left@.len() - index,
    {
        if index >= left.len() || index >= right.len() {
            return true;
        }
        self.equal_at(left[index], right[index], depth) && self.rows_equal_at(left, right, index + 1, depth)
    }

    /// Whether two values have the same contents.
    pub fn equal_value(&self, left: usize, right: usize) -> (equal: bool)
        requires
            self@.well_formed(),
            comparison_ends(self@.objects, left, right),
        ensures
            equal == equal_contents(self@.objects, left, right),
    {
        let ghost depth = choose|depth: nat| (#[trigger] equal_within(self@.objects, left, right, depth)) is Some;
        self.equal_at(left, right, Ghost(depth))
    }

    fn is_target(&self, target: usize, value: usize, deep: bool, limit: Ghost<nat>) -> (found: bool)
        requires
            self@.well_formed(),
            found_within(self@.objects, target, value, deep, limit@) is Some,
        ensures
            Some(found) == found_within(self@.objects, target, value, deep, limit@),
    {
        if deep {
            self.equal_at(target, value, limit)
        } else {
            target == value
        }
    }

    /// The part of a list that starts with a value, or false.
    pub fn member_with(&self, target: usize, list: usize, deep: bool) -> (result: Result<usize, RuntimeError>)
        requires
            self@.well_formed(),
            member_search_ends(self@.objects, target, list, deep),
        ensures
            result == member_found(self@.objects, target, list, deep),
    {
        let ghost objects = self@.objects;
        let ghost mut limit = choose|limit: nat| (#[trigger] member_within(objects, target, list, deep, limit)) is Some;
        let ghost expected = member_within(objects, target, list, deep, limit);
        let mut rest: usize = list;
        while rest != EMPTY_LIST
            invariant
                self@.well_formed(),
                objects == self@.objects,
                member_within(objects, target, rest, deep, limit) == expected,
                expected == Some(member_found(objects, target, list, deep)),
            decreases limit,
        {
            match self.pair(rest) {
                None => {
                    return Err(RuntimeError::InvalidObjectKind);
                },
                Some((car, cdr)) => {
                    proof {
                        limit = (limit - 1) as nat;
                    }
                    if self.is_target(target, car, deep, Ghost(limit)) {
                        return Ok(rest);
                    }
                    rest = cdr;
                },
            }
        }
        Ok(BOOL_FALSE)
    }

    /// The first pair in a list of pairs that starts with a value, or false.
    pub fn assoc_with(&self, target: usize, list: usize, deep: bool) -> (result: Result<usize, RuntimeError>)
        requires
            self@.well_formed(),
            assoc_search_ends(self@.objects, target, list, deep),
        ensures
            result == assoc_found(self@.objects, target, list, deep),
    {
        let ghost objects = self@.objects;
        let ghost mut limit = choose|limit: nat| (#[trigger] assoc_within(objects, target, list, deep, limit)) is Some;
        let ghost expected = assoc_within(objects, target, list, deep, limit);
        let mut rest: usize = list;
        while rest != EMPTY_LIST
            invariant
                self@.well_formed(),
                objects == self@.objects,
                assoc_within(objects, target, rest, deep, limit) == expected,
                expected == Some(assoc_found(objects, target, list, deep)),
            decreases limit,
        {
            match self.pair(rest) {
                None => {
                    return Err(RuntimeError::InvalidObjectKind);
                },
                Some((candidate, cdr)) => match self.pair(candidate) {
                    None => {
                        return Err(RuntimeError::InvalidObjectKind);
                    },
                    Some((key, _)) => {
                        proof {
                            limit = (limit - 1) as nat;
                        }
                        if self.is_target(target, key, deep, Ghost(limit)) {
                            return Ok(candidate);
                        }
                        rest = cdr;
                    },
                },
            }
        }
        Ok(BOOL_FALSE)
    }
}

} // verus!
