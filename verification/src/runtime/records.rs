//! The fields of heap objects that come before their elements.
use crate::runtime::layout::ObjectHeader;
use crate::runtime::object::{header_size, kind_tag, word_bytes, word_size, HeapKind};
use crate::runtime::value::Value;
use vstd::prelude::*;

verus! {

/// A header of an object of the given kind and size.
pub open spec fn header_of(kind: HeapKind, bytes: nat) -> ObjectHeader {
    ObjectHeader { metadata: 0, kind: kind_tag(kind), flags: 0, bytes: bytes as u32 }
}

pub struct PairObject {
    pub header: ObjectHeader,
    pub car: usize,
    pub cdr: usize,
}

impl PairObject {
    /// A pair of two values.
    pub fn new(car: Value, cdr: Value) -> (pair: Self)
        ensures
            pair == (PairObject {
                header: header_of(HeapKind::Pair, header_size() + 2 * word_size()),
                car: car.0,
                cdr: cdr.0,
            }),
    {
        let word: usize = word_bytes();
        Self {
            header: ObjectHeader::new(HeapKind::Pair.as_tag(), (word + 8 + 2 * word) as u32),
            car: car.bits(),
            cdr: cdr.bits(),
        }
    }

    /// The first value.
    pub fn car(&self) -> (value: Value)
        ensures
            value.0 == self.car,
    {
        Value::from_bits(self.car)
    }

    /// The second value.
    pub fn cdr(&self) -> (value: Value)
        ensures
            value.0 == self.cdr,
    {
        Value::from_bits(self.cdr)
    }
}

pub struct BoxObject {
    pub header: ObjectHeader,
    pub value: usize,
}

impl BoxObject {
    /// A box with a value.
    pub fn new(value: Value) -> (boxed: Self)
        ensures
            boxed == (BoxObject {
                header: header_of(HeapKind::Box, header_size() + word_size()),
                value: value.0,
            }),
    {
        let word: usize = word_bytes();
        Self { header: ObjectHeader::new(HeapKind::Box.as_tag(), (word + 8 + word) as u32), value: value.bits() }
    }

    /// The value in the box.
    pub fn value(&self) -> (value: Value)
        ensures
            value.0 == self.value,
    {
        Value::from_bits(self.value)
    }
}

/// What comes before the captured values of a closure.
pub struct ClosureObject {
    pub header: ObjectHeader,
    pub code_ptr: usize,
    pub env_len: usize,
}

impl ClosureObject {
    /// A closure of the given code that captures so many values and takes so many bytes.
    pub fn new(code_ptr: usize, env_len: usize, total_bytes: usize) -> (closure: Self)
        ensures
            closure == (ClosureObject {
                header: header_of(HeapKind::Closure, total_bytes as nat),
                code_ptr,
                env_len,
            }),
    {
        Self { header: ObjectHeader::new(HeapKind::Closure.as_tag(), total_bytes as u32), code_ptr, env_len }
    }
}

/// What comes before the bytes of a string.
pub struct StringObject {
    pub header: ObjectHeader,
    pub length: usize,
}

impl StringObject {
    /// A string of so many bytes that takes so many bytes.
    pub fn new(length: usize, total_bytes: usize) -> (string: Self)
        ensures
            string == (StringObject { header: header_of(HeapKind::String, total_bytes as nat), length }),
    {
        Self { header: ObjectHeader::new(HeapKind::String.as_tag(), total_bytes as u32), length }
    }
}

/// What comes before the name of a symbol.
pub struct SymbolObject {
    pub header: ObjectHeader,
    pub length: usize,
}

impl SymbolObject {
    /// A symbol whose name has so many bytes and that takes so many bytes.
    pub fn new(length: usize, total_bytes: usize) -> (symbol: Self)
        ensures
            symbol == (SymbolObject { header: header_of(HeapKind::Symbol, total_bytes as nat), length }),
    {
        Self { header: ObjectHeader::new(HeapKind::Symbol.as_tag(), total_bytes as u32), length }
    }
}

/// What comes before the elements of a vector.
pub struct VectorObject {
    pub header: ObjectHeader,
    pub length: usize,
}

impl VectorObject {
    /// A vector of so many elements that takes so many bytes.
    pub fn new(length: usize, total_bytes: usize) -> (vector: Self)
        ensures
            vector == (VectorObject { header: header_of(HeapKind::Vector, total_bytes as nat), length }),
    {
        Self { header: ObjectHeader::new(HeapKind::Vector.as_tag(), total_bytes as u32), length }
    }
}

} // verus!
