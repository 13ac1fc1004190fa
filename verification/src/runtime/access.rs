//! Reading and changing the parts of objects.
use crate::runtime::error::RuntimeError;
use crate::runtime::heap::{
    allocated_rooted, copy_bytes, object_at, storable, stored, told, with_symbol, written, Outcome, Runtime, World,
};
use crate::runtime::layout::{EMPTY_LIST, UNSPECIFIED};
use crate::runtime::lists::list_made;
use crate::runtime::object::{replaced, Object, Thing};
use crate::runtime::value::{fits_fixnum, fixnum_bits, Value};
use vstd::prelude::*;

verus! {

broadcast use vstd::seq_lib::group_seq_properties;

/// The word of an integer, where it fits.
pub open spec fn encoded(value: int) -> Result<usize, RuntimeError> {
    if fits_fixnum(value) {
        Ok(fixnum_bits(value) as usize)
    } else {
        Err(RuntimeError::FixnumOutOfRange)
    }
}

/// The word of an integer, where it fits.
pub fn encode(value: i64) -> (result: Result<usize, RuntimeError>)
    ensures
        result == encoded(value as int),
{
    match Value::encode_fixnum(value) {
        Some(word) => Ok(word.bits()),
        None => Err(RuntimeError::FixnumOutOfRange),
    }
}

/// The word of a length, where it fits.
pub fn encode_length(length: usize) -> (result: Result<usize, RuntimeError>)
    ensures
        result == encoded(length as int),
{
    if length > usize::MAX / 8 {
        return Err(RuntimeError::FixnumOutOfRange);
    }
    encode(length as i64)
}

/// An element of a row.
pub open spec fn element_at(elements: Seq<usize>, index: nat) -> Result<usize, RuntimeError> {
    if index < elements.len() {
        Ok(elements[index as int])
    } else {
        Err(RuntimeError::IndexOutOfBounds)
    }
}

fn element(elements: &Vec<usize>, index: usize) -> (result: Result<usize, RuntimeError>)
    ensures
        result == element_at(elements@, index as nat),
{
    if index < elements.len() {
        Ok(elements[index])
    } else {
        Err(RuntimeError::IndexOutOfBounds)
    }
}

/// The number of bytes of a string, as a word.
pub open spec fn string_length(objects: Map<usize, Thing>, bits: usize) -> Result<usize, RuntimeError> {
    match object_at(objects, bits) {
        Some(Thing::Text(bytes)) => encoded(bytes.len() as int),
        _ => Err(RuntimeError::InvalidObjectKind),
    }
}

/// A byte of a string, as a word.
pub open spec fn string_byte(objects: Map<usize, Thing>, bits: usize, index: nat) -> Result<usize, RuntimeError> {
    match object_at(objects, bits) {
        Some(Thing::Text(bytes)) => if index < bytes.len() {
            encoded(bytes[index as int] as int)
        } else {
            Err(RuntimeError::IndexOutOfBounds)
        },
        _ => Err(RuntimeError::InvalidObjectKind),
    }
}

/// The number of elements of a vector, as a word.
pub open spec fn vector_length(objects: Map<usize, Thing>, bits: usize) -> Result<usize, RuntimeError> {
    match object_at(objects, bits) {
        Some(Thing::Vector(elements)) => encoded(elements.len() as int),
        _ => Err(RuntimeError::InvalidObjectKind),
    }
}

/// An element of a vector.
pub open spec fn vector_element(objects: Map<usize, Thing>, bits: usize, index: nat) -> Result<usize, RuntimeError> {
    match object_at(objects, bits) {
        Some(Thing::Vector(elements)) => element_at(elements, index),
        _ => Err(RuntimeError::InvalidObjectKind),
    }
}

/// A write, and that nothing comes of it.
pub open spec fn after_write(outcome: Outcome<()>, value: usize) -> Outcome<usize> {
    match outcome {
        (world, Ok(_)) => (world, Ok(value)),
        (world, Err(error)) => (world, Err(error)),
    }
}

/// A vector of which an element is replaced.
#[verifier::opaque]
pub open spec fn vector_changed(world: World, bits: usize, index: nat, value: usize) -> Outcome<usize> {
    match object_at(world.objects, bits) {
        Some(Thing::Vector(elements)) => if index < elements.len() {
            after_write(
                written(world, bits, Thing::Vector(elements.update(index as int, value)), value),
                UNSPECIFIED,
            )
        } else {
            (world, Err(RuntimeError::IndexOutOfBounds))
        },
        _ => (world, Err(RuntimeError::InvalidObjectKind)),
    }
}

/// A pair of which the first part is replaced.
#[verifier::opaque]
pub open spec fn car_changed(world: World, bits: usize, value: usize) -> Outcome<usize> {
    match object_at(world.objects, bits) {
        Some(Thing::Pair { car, cdr }) => after_write(
            written(world, bits, Thing::Pair { car: value, cdr }, value),
            UNSPECIFIED,
        ),
        _ => (world, Err(RuntimeError::InvalidObjectKind)),
    }
}

/// A pair of which the second part is replaced.
#[verifier::opaque]
pub open spec fn cdr_changed(world: World, bits: usize, value: usize) -> Outcome<usize> {
    match object_at(world.objects, bits) {
        Some(Thing::Pair { car, cdr }) => after_write(
            written(world, bits, Thing::Pair { car, cdr: value }, value),
            UNSPECIFIED,
        ),
        _ => (world, Err(RuntimeError::InvalidObjectKind)),
    }
}

/// A box with another value in it.
#[verifier::opaque]
pub open spec fn box_changed(world: World, bits: usize, value: usize) -> Outcome<usize> {
    match object_at(world.objects, bits) {
        Some(Thing::Boxed(_)) => after_write(
            written(world, bits, Thing::Boxed(value), value),
            UNSPECIFIED,
        ),
        _ => (world, Err(RuntimeError::InvalidObjectKind)),
    }
}

/// A closure of which a captured value is replaced.
#[verifier::opaque]
pub open spec fn captured_changed(world: World, bits: usize, index: nat, value: usize) -> Outcome<usize> {
    match object_at(world.objects, bits) {
        Some(Thing::Closure { code_ptr, env }) => if index < env.len() {
            after_write(
                written(
                    world,
                    bits,
                    Thing::Closure { code_ptr, env: env.update(index as int, value) },
                    value,
                ),
                UNSPECIFIED,
            )
        } else {
            (world, Err(RuntimeError::IndexOutOfBounds))
        },
        _ => (world, Err(RuntimeError::InvalidObjectKind)),
    }
}

/// A promise that is forced to a value. It is so only where the write succeeds.
#[verifier::opaque]
pub open spec fn promise_resolved(world: World, bits: usize, value: usize) -> Outcome<usize> {
    match object_at(world.objects, bits) {
        Some(Thing::Promise { value: _, forced }) => match written(
            world,
            bits,
            Thing::Promise { value, forced },
            value,
        ) {
            (world, Err(error)) => (world, Err(error)),
            (world, Ok(_)) => (
                World {
                    objects: world.objects.insert(bits, Thing::Promise { value, forced: true }),
                    ..world
                },
                Ok(value),
            ),
        },
        _ => (world, Err(RuntimeError::InvalidObjectKind)),
    }
}

/// A new string with the name of a symbol.
#[verifier::opaque]
pub open spec fn symbol_named(world: World, bits: usize) -> Outcome<usize> {
    match object_at(world.objects, bits) {
        Some(Thing::Symbol(name)) => allocated_rooted(world, Thing::Text(name)),
        _ => (world, Err(RuntimeError::InvalidObjectKind)),
    }
}

/// The symbol whose name is a string.
#[verifier::opaque]
pub open spec fn string_interned(world: World, bits: usize) -> Outcome<usize> {
    match object_at(world.objects, bits) {
        Some(Thing::Text(bytes)) => if world.current == 0 {
            (world, Err(RuntimeError::InvalidThread))
        } else {
            with_symbol(world, bytes)
        },
        _ => (world, Err(RuntimeError::InvalidObjectKind)),
    }
}

/// The number of values in a packet, as a word.
pub open spec fn values_length(objects: Map<usize, Thing>, bits: usize) -> Result<usize, RuntimeError> {
    match object_at(objects, bits) {
        Some(Thing::Values(elements)) => encoded(elements.len() as int),
        _ => Err(RuntimeError::InvalidObjectKind),
    }
}

/// A value of a packet.
pub open spec fn values_element(objects: Map<usize, Thing>, bits: usize, index: nat) -> Result<usize, RuntimeError> {
    match object_at(objects, bits) {
        Some(Thing::Values(elements)) => element_at(elements, index),
        _ => Err(RuntimeError::InvalidObjectKind),
    }
}

/// A new list of the values of a packet from one on.
#[verifier::opaque]
pub open spec fn values_listed(world: World, bits: usize, start: nat) -> Outcome<usize> {
    match object_at(world.objects, bits) {
        Some(Thing::Values(elements)) => if start > elements.len() {
            (world, Err(RuntimeError::IndexOutOfBounds))
        } else {
            list_made(world, elements.skip(start as int), EMPTY_LIST)
        },
        _ => (world, Err(RuntimeError::InvalidObjectKind)),
    }
}

/// The state after a word was stored at an address on behalf of an object. Nothing is stored at no
/// address.
#[verifier::opaque]
pub open spec fn word_stored(world: World, slot: usize, target: usize) -> Outcome<()> {
    if slot == 0 {
        (world, Err(RuntimeError::NullSlot))
    } else {
        (World { objects: stored(world.objects, slot, target), ..world }, told(world, target))
    }
}

impl Runtime {
    /// The number of bytes of a string.
    pub fn string_length(&self, bits: usize) -> (result: Result<usize, RuntimeError>)
        requires
            self@.well_formed(),
        ensures
            result == string_length(self@.objects, bits),
    {
        match self.object(bits) {
            Some(Object::Text(bytes)) => encode_length(bytes.len()),
            _ => Err(RuntimeError::InvalidObjectKind),
        }
    }

    /// A byte of a string.
    pub fn string_ref(&self, bits: usize, index: usize) -> (result: Result<usize, RuntimeError>)
        requires
            self@.well_formed(),
        ensures
            result == string_byte(self@.objects, bits, index as nat),
    {
        match self.object(bits) {
            Some(Object::Text(bytes)) => {
                if index >= bytes.len() {
                    return Err(RuntimeError::IndexOutOfBounds);
                }
                encode(bytes[index] as i64)
            },
            _ => Err(RuntimeError::InvalidObjectKind),
        }
    }

    /// The number of elements of a vector.
    pub fn vector_length(&self, bits: usize) -> (result: Result<usize, RuntimeError>)
        requires
            self@.well_formed(),
        ensures
            result == vector_length(self@.objects, bits),
    {
        match self.object(bits) {
            Some(Object::Vector(elements)) => encode_length(elements.len()),
            _ => Err(RuntimeError::InvalidObjectKind),
        }
    }

    /// An element of a vector.
    pub fn vector_ref(&self, bits: usize, index: usize) -> (result: Result<usize, RuntimeError>)
        requires
            self@.well_formed(),
        ensures
            result == vector_element(self@.objects, bits, index as nat),
    {
        match self.object(bits) {
            Some(Object::Vector(elements)) => element(elements, index),
            _ => Err(RuntimeError::InvalidObjectKind),
        }
    }

    /// Replaces an element of a vector.
    pub fn vector_set(&mut self, bits: usize, index: usize, value: usize) -> (result: Result<usize, RuntimeError>)
        requires
            old(self)@.well_formed(),
        ensures
            final(self)@.well_formed(),
            (final(self)@, result) == vector_changed(old(self)@, bits, index as nat, value),
    {
        reveal(vector_changed);
        let changed = match self.object(bits) {
            Some(Object::Vector(elements)) => {
                if index >= elements.len() {
                    return Err(RuntimeError::IndexOutOfBounds);
                }
                replaced(elements, index, value)
            },
            _ => {
                return Err(RuntimeError::InvalidObjectKind);
            },
        };
        self.replace_object(bits, Object::Vector(changed), value)?;
        Ok(UNSPECIFIED)
    }

    /// Replaces the first part of a pair.
    pub fn pair_set_car(&mut self, bits: usize, value: usize) -> (result: Result<usize, RuntimeError>)
        requires
            old(self)@.well_formed(),
        ensures
            final(self)@.well_formed(),
            (final(self)@, result) == car_changed(old(self)@, bits, value),
    {
        reveal(car_changed);
        match self.pair(bits) {
            Some((_, cdr)) => {
                self.replace_object(bits, Object::Pair { car: value, cdr }, value)?;
                Ok(UNSPECIFIED)
            },
            None => Err(RuntimeError::InvalidObjectKind),
        }
    }

    /// Replaces the second part of a pair.
    pub fn pair_set_cdr(&mut self, bits: usize, value: usize) -> (result: Result<usize, RuntimeError>)
        requires
            old(self)@.well_formed(),
        ensures
            final(self)@.well_formed(),
            (final(self)@, result) == cdr_changed(old(self)@, bits, value),
    {
        reveal(cdr_changed);
        match self.pair(bits) {
            Some((car, _)) => {
                self.replace_object(bits, Object::Pair { car, cdr: value }, value)?;
                Ok(UNSPECIFIED)
            },
            None => Err(RuntimeError::InvalidObjectKind),
        }
    }

    /// Puts another value into a box.
    pub fn box_set(&mut self, bits: usize, value: usize) -> (result: Result<usize, RuntimeError>)
        requires
            old(self)@.well_formed(),
        ensures
            final(self)@.well_formed(),
            (final(self)@, result) == box_changed(old(self)@, bits, value),
    {
        reveal(box_changed);
        match self.object(bits) {
            Some(Object::Boxed(_)) => {},
            _ => {
                return Err(RuntimeError::InvalidObjectKind);
            },
        }
        self.replace_object(bits, Object::Boxed(value), value)?;
        Ok(UNSPECIFIED)
    }

    /// The code of a closure.
    pub fn closure_code(&self, bits: usize) -> (result: Result<usize, RuntimeError>)
        requires
            self@.well_formed(),
        ensures
            result == (match object_at(self@.objects, bits) {
                Some(Thing::Closure { code_ptr, env }) => Ok::<usize, RuntimeError>(code_ptr),
                _ => Err(RuntimeError::InvalidObjectKind),
            }),
    {
        match self.object(bits) {
            Some(Object::Closure { code_ptr, env: _ }) => Ok(*code_ptr),
            _ => Err(RuntimeError::InvalidObjectKind),
        }
    }

    /// A captured value of a closure.
    pub fn closure_ref(&self, bits: usize, index: usize) -> (result: Result<usize, RuntimeError>)
        requires
            self@.well_formed(),
        ensures
            result == (match object_at(self@.objects, bits) {
                Some(Thing::Closure { code_ptr, env }) => element_at(env, index as nat),
                _ => Err(RuntimeError::InvalidObjectKind),
            }),
    {
        match self.object(bits) {
            Some(Object::Closure { code_ptr: _, env }) => element(env, index),
            _ => Err(RuntimeError::InvalidObjectKind),
        }
    }

    /// Replaces a captured value of a closure.
    pub fn closure_set(&mut self, bits: usize, index: usize, value: usize) -> (result: Result<usize, RuntimeError>)
        requires
            old(self)@.well_formed(),
        ensures
            final(self)@.well_formed(),
            (final(self)@, result) == captured_changed(old(self)@, bits, index as nat, value),
    {
        reveal(captured_changed);
        let (code_ptr, env) = match self.object(bits) {
            Some(Object::Closure { code_ptr, env }) => {
                if index >= env.len() {
                    return Err(RuntimeError::IndexOutOfBounds);
                }
                (*code_ptr, replaced(env, index, value))
            },
            _ => {
                return Err(RuntimeError::InvalidObjectKind);
            },
        };
        self.replace_object(bits, Object::Closure { code_ptr, env }, value)?;
        Ok(UNSPECIFIED)
    }

    /// The value of a promise, and whether it is forced.
    pub fn promise(&self, bits: usize) -> (result: Result<(usize, bool), RuntimeError>)
        requires
            self@.well_formed(),
        ensures
            result == (match object_at(self@.objects, bits) {
                Some(Thing::Promise { value, forced }) => Ok::<(usize, bool), RuntimeError>((value, forced)),
                _ => Err(RuntimeError::InvalidObjectKind),
            }),
    {
        match self.object(bits) {
            Some(Object::Promise { value, forced }) => Ok((*value, *forced)),
            _ => Err(RuntimeError::InvalidObjectKind),
        }
    }

    /// Forces a promise to a value.
    pub fn promise_resolve(&mut self, bits: usize, value: usize) -> (result: Result<usize, RuntimeError>)
        requires
            old(self)@.well_formed(),
        ensures
            final(self)@.well_formed(),
            (final(self)@, result) == promise_resolved(old(self)@, bits, value),
    {
        reveal(promise_resolved);
        reveal(written);
        let (_, forced) = self.promise(bits)?;
        self.replace_object(bits, Object::Promise { value, forced }, value)?;
        self.replace_object(bits, Object::Promise { value, forced: true }, value)?;
        assert(self@.objects =~= old(self)@.objects.insert(bits, Thing::Promise { value, forced }).insert(
            bits,
            Thing::Promise { value, forced: true },
        ));
        Ok(value)
    }

    /// A new string with the name of a symbol.
    pub fn symbol_to_string(&mut self, bits: usize) -> (result: Result<usize, RuntimeError>)
        requires
            old(self)@.well_formed(),
        ensures
            final(self)@.well_formed(),
            (final(self)@, result) == symbol_named(old(self)@, bits),
    {
        reveal(symbol_named);
        reveal(allocated_rooted);
        let bytes = match self.object(bits) {
            Some(Object::Symbol(name)) => copy_bytes(name),
            _ => {
                return Err(RuntimeError::InvalidObjectKind);
            },
        };
        if self.current == 0 {
            return Err(RuntimeError::InvalidThread);
        }
        self.alloc_string_checked(bytes)
    }

    /// The symbol whose name is a string.
    pub fn string_to_symbol(&mut self, bits: usize) -> (result: Result<usize, RuntimeError>)
        requires
            old(self)@.well_formed(),
        ensures
            final(self)@.well_formed(),
            (final(self)@, result) == string_interned(old(self)@, bits),
    {
        reveal(string_interned);
        let bytes = match self.object(bits) {
            Some(Object::Text(bytes)) => copy_bytes(bytes),
            _ => {
                return Err(RuntimeError::InvalidObjectKind);
            },
        };
        if self.current == 0 {
            return Err(RuntimeError::InvalidThread);
        }
        self.intern_symbol(bytes)
    }

    /// The number of values in a packet.
    pub fn values_length(&self, bits: usize) -> (result: Result<usize, RuntimeError>)
        requires
            self@.well_formed(),
        ensures
            result == values_length(self@.objects, bits),
    {
        match self.object(bits) {
            Some(Object::Values(elements)) => encode_length(elements.len()),
            _ => Err(RuntimeError::InvalidObjectKind),
        }
    }

    /// A value of a packet.
    pub fn values_ref(&self, bits: usize, index: usize) -> (result: Result<usize, RuntimeError>)
        requires
            self@.well_formed(),
        ensures
            result == values_element(self@.objects, bits, index as nat),
    {
        match self.object(bits) {
            Some(Object::Values(elements)) => element(elements, index),
            _ => Err(RuntimeError::InvalidObjectKind),
        }
    }

    /// A new list of the values of a packet from one on.
    pub fn values_tail_list(&mut self, bits: usize, start: usize) -> (result: Result<usize, RuntimeError>)
        requires
            old(self)@.well_formed(),
        ensures
            final(self)@.well_formed(),
            (final(self)@, result) == values_listed(old(self)@, bits, start as nat),
    {
        reveal(values_listed);
        let elements = match self.object(bits) {
            Some(Object::Values(elements)) => {
                if start > elements.len() {
                    return Err(RuntimeError::IndexOutOfBounds);
                }
                words_from(elements, start)
            },
            _ => {
                return Err(RuntimeError::InvalidObjectKind);
            },
        };
        self.make_list(&elements, EMPTY_LIST)
    }
}

impl Runtime {
    /// Stores a word at an address on behalf of the object at `src`. The word may stand in any object
    /// or in none, but not where an object keeps its header, a length or bytes.
    pub fn object_write_post_checked(&mut self, src: usize, slot: usize, target: usize) -> (result: Result<
        (),
        RuntimeError,
    >)
        requires
            old(self)@.well_formed(),
            src != 0,
            slot != 0 ==> storable(old(self)@.objects, slot),
        ensures
            final(self)@.well_formed(),
            (final(self)@, result) == word_stored(old(self)@, slot, target),
    {
        reveal(word_stored);
        if slot == 0 {
            return Err(RuntimeError::NullSlot);
        }
        self.store_word(slot, target)
    }
}

/// The words from one on.
fn words_from(words: &Vec<usize>, start: usize) -> (rest: Vec<usize>)
    requires
        start <= words@.len(),
    ensures
        rest@ == words@.skip(start as int),
{
    let mut rest: Vec<usize> = Vec::new();
    let mut index: usize = start;
    while index < words.len()
        invariant
            start <= index <= words@.len(),
            rest@ == words@.subrange(start as int, index as int),
        decreases words@.len() - index,
    {
        rest.push(words[index]);
        assert(rest@ =~= words@.subrange(start as int, index + 1));
        index = index + 1;
    }
    assert(rest@ =~= words@.skip(start as int));
    rest
}

} // verus!
