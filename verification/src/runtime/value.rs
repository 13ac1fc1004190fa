//! Tagged words: fixnums, immediates and references to heap objects.
use crate::runtime::layout::{
    ALIGNMENT, BOOL_FALSE, BOOL_TRUE, CHAR_TAG, EMPTY_LIST, FIXNUM_TAG, HEAP_REF_TAG, UNSPECIFIED,
};
use vstd::prelude::*;

verus! {

/// A word that a Scheme program handles.
#[derive(Clone, Copy, Debug, PartialEq, Eq, Structural, Hash)]
pub struct Value(pub usize);

/// What a word that is neither a fixnum nor a reference can stand for.
#[derive(Clone, Copy, Debug, PartialEq, Eq, Structural)]
pub enum Immediate {
    Bool(bool),
    Char(char),
    EmptyList,
    Unspecified,
}

/// The address of a heap object.
#[derive(Clone, Copy, Debug, PartialEq, Eq, Structural, Hash)]
pub struct ObjectReference {
    pub address: usize,
}

impl ObjectReference {
    /// Objects stand at non-zero multiples of the alignment.
    pub open spec fn well_formed(self) -> bool {
        self.address != 0 && self.address % ALIGNMENT == 0
    }

    /// The reference to the object at an address; none stands at zero.
    pub fn from_raw_address(address: usize) -> (object: Option<ObjectReference>)
        ensures
            object == (if address == 0 {
                None::<ObjectReference>
            } else {
                Some(ObjectReference { address })
            }),
    {
        if address == 0 {
            None
        } else {
            Some(ObjectReference { address })
        }
    }

    pub fn to_raw_address(self) -> (address: usize)
        ensures
            address == self.address,
    {
        self.address
    }
}

/// The largest integer that fits in a tagged word.
pub open spec fn max_fixnum() -> int {
    usize::MAX as int / 8
}

/// The smallest integer that fits in a tagged word.
pub open spec fn min_fixnum() -> int {
    -max_fixnum() - 1
}

/// Whether an integer fits in a tagged word.
pub open spec fn fits_fixnum(value: int) -> bool {
    min_fixnum() <= value <= max_fixnum()
}

/// The word of an integer: one more than its double, in two's complement.
pub open spec fn fixnum_bits(value: int) -> int {
    if value >= 0 {
        2 * value + 1
    } else {
        2 * value + 1 + usize::MAX + 1
    }
}

/// The integer of a fixnum word: half the word, rounded down, in two's complement.
pub open spec fn fixnum_of(bits: usize) -> int {
    if bits <= isize::MAX {
        bits as int / 2
    } else {
        (bits - usize::MAX - 1) / 2
    }
}

/// Whether a word is a fixnum: its lowest bit is set.
pub open spec fn is_fixnum_word(bits: usize) -> bool {
    bits % 2 == 1
}

/// Whether a word is a reference to a heap object: its three lowest bits are clear, and it is
/// not zero.
pub open spec fn is_heap_word(bits: usize) -> bool {
    bits != 0 && bits % 8 == 0
}

/// The word of a character.
pub open spec fn char_bits(value: char) -> int {
    value as int * 8 + 4
}

/// Whether a number is a Unicode scalar value.
pub open spec fn is_scalar_value(number: int) -> bool {
    0 <= number < 0xd800 || 0xdfff < number <= 0x10ffff
}

/// What the word of an immediate stands for. A word with the tag of a character whose other
/// bits, cut to their low half, are no character stands for nothing.
pub open spec fn immediate_of(bits: usize) -> Option<Immediate> {
    if bits % 8 == 4 {
        let scalar = (bits as int / 8) % 0x1_0000_0000;
        if is_scalar_value(scalar) {
            Some(Immediate::Char(scalar as char))
        } else {
            None
        }
    } else if bits == BOOL_FALSE {
        Some(Immediate::Bool(false))
    } else if bits == BOOL_TRUE {
        Some(Immediate::Bool(true))
    } else if bits == EMPTY_LIST {
        Some(Immediate::EmptyList)
    } else if bits == UNSPECIFIED {
        Some(Immediate::Unspecified)
    } else {
        None
    }
}

/// The word of an immediate.
pub open spec fn immediate_bits(immediate: Immediate) -> int {
    match immediate {
        Immediate::Bool(value) => if value { BOOL_TRUE as int } else { BOOL_FALSE as int },
        Immediate::Char(value) => char_bits(value),
        Immediate::EmptyList => EMPTY_LIST as int,
        Immediate::Unspecified => UNSPECIFIED as int,
    }
}

/// `char::from_u32`: the character with a given scalar value, where there is one.
pub assume_specification[ std::char::from_u32 ](number: u32) -> (ch: Option<char>)
    ensures
        ch == (if is_scalar_value(number as int) {
            Some(number as char)
        } else {
            None::<char>
        }),
;

impl Value {
    pub fn from_bits(bits: usize) -> (value: Self)
        ensures
            value.0 == bits,
    {
        Self(bits)
    }

    pub fn from_object_reference(object: ObjectReference) -> (value: Self)
        ensures
            value.0 == object.address,
    {
        Self(object.to_raw_address())
    }

    pub fn bits(self) -> (bits: usize)
        ensures
            bits == self.0,
    {
        self.0
    }

    /// The word of an integer, where it fits.
    pub fn encode_fixnum(value: i64) -> (word: Option<Self>)
        ensures
            match word {
                Some(word) => fits_fixnum(value as int) && word.0 == fixnum_bits(value as int),
                None => !fits_fixnum(value as int),
            },
    {
        if value < Self::fixnum_min() || value > Self::fixnum_max() {
            return None;
        }
        if value >= 0 {
            Some(Self(value as usize * 2 + FIXNUM_TAG))
        } else {
            let magnitude: usize = (-(value + 1)) as usize;
            Some(Self(usize::MAX - magnitude * 2))
        }
    }

    pub fn encode_bool(value: bool) -> (word: Self)
        ensures
            word.0 == immediate_bits(Immediate::Bool(value)),
    {
        if value {
            Self(BOOL_TRUE)
        } else {
            Self(BOOL_FALSE)
        }
    }

    pub fn empty_list() -> (word: Self)
        ensures
            word.0 == EMPTY_LIST,
    {
        Self(EMPTY_LIST)
    }

    pub fn unspecified() -> (word: Self)
        ensures
            word.0 == UNSPECIFIED,
    {
        Self(UNSPECIFIED)
    }

    pub fn encode_char(value: char) -> (word: Self)
        ensures
            word.0 == char_bits(value),
    {
        Self(value as usize * 8 + CHAR_TAG)
    }

    pub fn is_fixnum(self) -> (result: bool)
        ensures
            result == is_fixnum_word(self.0),
    {
        self.0 % 2 == FIXNUM_TAG
    }

    pub fn is_heap_ref(self) -> (result: bool)
        ensures
            result == is_heap_word(self.0),
    {
        self.0 != 0 && self.0 % 8 == HEAP_REF_TAG
    }

    /// The object that the word refers to, where it is a reference.
    pub fn to_object_reference(self) -> (object: Option<ObjectReference>)
        ensures
            match object {
                Some(object) => is_heap_word(self.0) && object.address == self.0 && object.well_formed(),
                None => !is_heap_word(self.0),
            },
    {
        if !self.is_heap_ref() {
            return None;
        }
        ObjectReference::from_raw_address(self.0)
    }

    /// The integer of the word, where it is a fixnum.
    pub fn decode_fixnum(self) -> (value: Option<i64>)
        ensures
            match value {
                Some(value) => is_fixnum_word(self.0) && value == fixnum_of(self.0),
                None => !is_fixnum_word(self.0),
            },
    {
        if !self.is_fixnum() {
            return None;
        }
        if self.0 <= isize::MAX as usize {
            Some((self.0 / 2) as i64)
        } else {
            let magnitude: usize = (usize::MAX - self.0) / 2;
            Some(-(magnitude as i64) - 1)
        }
    }

    pub fn fixnum_max() -> (value: i64)
        ensures
            value == max_fixnum(),
    {
        (usize::MAX / 8) as i64
    }

    pub fn fixnum_min() -> (value: i64)
        ensures
            value == min_fixnum(),
    {
        -((usize::MAX / 8) as i64) - 1
    }

    /// What the word stands for, where it is an immediate.
    pub fn decode_immediate(self) -> (immediate: Option<Immediate>)
        ensures
            immediate == immediate_of(self.0),
    {
        if self.0 % 8 == CHAR_TAG {
            let scalar: u32 = ((self.0 as u64 / 8) % 0x1_0000_0000) as u32;
            return match std::char::from_u32(scalar) {
                Some(value) => Some(Immediate::Char(value)),
                None => None,
            };
        }
        if self.0 == BOOL_FALSE {
            Some(Immediate::Bool(false))
        } else if self.0 == BOOL_TRUE {
            Some(Immediate::Bool(true))
        } else if self.0 == EMPTY_LIST {
            Some(Immediate::EmptyList)
        } else if self.0 == UNSPECIFIED {
            Some(Immediate::Unspecified)
        } else {
            None
        }
    }
}

/// Every integer that fits comes back from its word.
pub proof fn lemma_fixnum_round_trip(value: int, bits: usize)
    requires
        fits_fixnum(value),
        bits == fixnum_bits(value),
    ensures
        is_fixnum_word(bits),
        fixnum_of(bits) == value,
{
}

/// Every immediate comes back from its word.
pub proof fn lemma_immediate_round_trip(immediate: Immediate, bits: usize)
    requires
        bits == immediate_bits(immediate),
    ensures
        immediate_of(bits) == Some(immediate),
{
}

/// A word is at most one of a fixnum, an immediate and a reference.
pub proof fn lemma_words_disjoint(bits: usize)
    ensures
        is_fixnum_word(bits) ==> immediate_of(bits).is_none() && !is_heap_word(bits),
        is_heap_word(bits) ==> immediate_of(bits).is_none(),
{
}

} // verus!
