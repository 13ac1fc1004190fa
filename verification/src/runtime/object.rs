//! Heap objects, and how they are laid out in memory.
use crate::runtime::layout::{
    ObjectHeader, HEADER_TAG_BOX, HEADER_TAG_CLOSURE, HEADER_TAG_PAIR, HEADER_TAG_PROMISE, HEADER_TAG_STRING,
    HEADER_TAG_SYMBOL, HEADER_TAG_VALUES, HEADER_TAG_VECTOR,
};
use vstd::prelude::*;

verus! {

/// The kinds of objects that programs make directly.
#[derive(Clone, Copy, Debug, PartialEq, Eq, Structural)]
pub enum HeapKind {
    Pair,
    Vector,
    String,
    Symbol,
    Closure,
    Box,
}

/// The tag of a kind in the header of an object.
pub open spec fn kind_tag(kind: HeapKind) -> u16 {
    match kind {
        HeapKind::Pair => HEADER_TAG_PAIR,
        HeapKind::Vector => HEADER_TAG_VECTOR,
        HeapKind::String => HEADER_TAG_STRING,
        HeapKind::Symbol => HEADER_TAG_SYMBOL,
        HeapKind::Closure => HEADER_TAG_CLOSURE,
        HeapKind::Box => HEADER_TAG_BOX,
    }
}

impl HeapKind {
    /// The tag of the kind in the header of an object.
    pub fn as_tag(self) -> (tag: u16)
        ensures
            tag == kind_tag(self),
    {
        match self {
            HeapKind::Pair => HEADER_TAG_PAIR,
            HeapKind::Vector => HEADER_TAG_VECTOR,
            HeapKind::String => HEADER_TAG_STRING,
            HeapKind::Symbol => HEADER_TAG_SYMBOL,
            HeapKind::Closure => HEADER_TAG_CLOSURE,
            HeapKind::Box => HEADER_TAG_BOX,
        }
    }
}

/// A heap object. Values are words; of an object of another kind only the header is known.
pub enum Object {
    Pair { car: usize, cdr: usize },
    Vector(Vec<usize>),
    Text(Vec<u8>),
    Symbol(Vec<u8>),
    Closure { code_ptr: usize, env: Vec<usize> },
    Boxed(usize),
    Values(Vec<usize>),
    Promise { value: usize, forced: bool },
    Raw(ObjectHeader),
}

/// The meaning of a heap object.
pub enum Thing {
    Pair { car: usize, cdr: usize },
    Vector(Seq<usize>),
    Text(Seq<u8>),
    Symbol(Seq<u8>),
    Closure { code_ptr: usize, env: Seq<usize> },
    Boxed(usize),
    Values(Seq<usize>),
    Promise { value: usize, forced: bool },
    Raw(ObjectHeader),
}

impl View for Object {
    type V = Thing;

    open spec fn view(&self) -> Thing {
        match *self {
            Object::Pair { car, cdr } => Thing::Pair { car, cdr },
            Object::Vector(elements) => Thing::Vector(elements@),
            Object::Text(bytes) => Thing::Text(bytes@),
            Object::Symbol(bytes) => Thing::Symbol(bytes@),
            Object::Closure { code_ptr, env } => Thing::Closure { code_ptr, env: env@ },
            Object::Boxed(value) => Thing::Boxed(value),
            Object::Values(elements) => Thing::Values(elements@),
            Object::Promise { value, forced } => Thing::Promise { value, forced },
            Object::Raw(header) => Thing::Raw(header),
        }
    }
}

/// The tag in the header of an object.
pub open spec fn thing_tag(thing: Thing) -> u16 {
    match thing {
        Thing::Pair { car, cdr } => HEADER_TAG_PAIR,
        Thing::Vector(_) => HEADER_TAG_VECTOR,
        Thing::Text(_) => HEADER_TAG_STRING,
        Thing::Symbol(_) => HEADER_TAG_SYMBOL,
        Thing::Closure { code_ptr, env } => HEADER_TAG_CLOSURE,
        Thing::Boxed(_) => HEADER_TAG_BOX,
        Thing::Values(_) => HEADER_TAG_VALUES,
        Thing::Promise { value, forced } => HEADER_TAG_PROMISE,
        Thing::Raw(header) => header.kind,
    }
}

/// The bytes of a word.
pub open spec fn word_size() -> nat {
    (usize::BITS / 8) as nat
}

/// The bytes of the header of an object: one word and eight bytes.
pub open spec fn header_size() -> nat {
    word_size() + 8
}

/// The bytes that an object takes.
pub open spec fn thing_size(thing: Thing) -> nat {
    match thing {
        Thing::Pair { car, cdr } => header_size() + 2 * word_size(),
        Thing::Vector(elements) => header_size() + word_size() + elements.len() * word_size(),
        Thing::Text(bytes) => header_size() + word_size() + bytes.len(),
        Thing::Symbol(bytes) => header_size() + word_size() + bytes.len(),
        Thing::Closure { code_ptr, env } => header_size() + 2 * word_size() + env.len() * word_size(),
        Thing::Boxed(_) => header_size() + word_size(),
        Thing::Values(elements) => header_size() + word_size() + elements.len() * word_size(),
        Thing::Promise { value, forced } => header_size() + 2 * word_size(),
        Thing::Raw(header) => header.bytes as nat,
    }
}

/// How far behind the start of an object the first word is that the collector follows.
pub open spec fn first_slot(thing: Thing) -> nat {
    match thing {
        Thing::Vector(elements) => header_size() + word_size(),
        Thing::Values(elements) => header_size() + word_size(),
        Thing::Closure { code_ptr, env } => header_size() + 2 * word_size(),
        _ => header_size(),
    }
}

/// How many words of an object the collector follows.
pub open spec fn slot_count(thing: Thing) -> nat {
    match thing {
        Thing::Pair { car, cdr } => 2,
        Thing::Boxed(_) => 1,
        Thing::Closure { code_ptr, env } => env.len(),
        Thing::Vector(elements) => elements.len(),
        Thing::Values(elements) => elements.len(),
        Thing::Promise { value, forced } => 1,
        _ => 0,
    }
}

/// The addresses of the words of an object that the collector follows.
pub open spec fn slots_of(address: usize, thing: Thing) -> Seq<int> {
    Seq::new(slot_count(thing), |i: int| address + first_slot(thing) + i * word_size())
}

/// Which of the words of an object that the collector follows stands at an address.
pub open spec fn slot_index(address: usize, thing: Thing, slot: usize) -> Option<nat> {
    let offset = slot - address - first_slot(thing);
    if offset >= 0 && offset % (word_size() as int) == 0 && offset / (word_size() as int) < slot_count(thing) {
        Some((offset / (word_size() as int)) as nat)
    } else {
        None
    }
}

/// An object with another value in one of the words that the collector follows.
pub open spec fn with_slot(thing: Thing, index: nat, value: usize) -> Thing {
    match thing {
        Thing::Pair { car, cdr } => if index == 0 {
            Thing::Pair { car: value, cdr }
        } else {
            Thing::Pair { car, cdr: value }
        },
        Thing::Boxed(_) => Thing::Boxed(value),
        Thing::Closure { code_ptr, env } => Thing::Closure { code_ptr, env: env.update(index as int, value) },
        Thing::Vector(elements) => Thing::Vector(elements.update(index as int, value)),
        Thing::Values(elements) => Thing::Values(elements.update(index as int, value)),
        Thing::Promise { value: _, forced } => Thing::Promise { value, forced },
        _ => thing,
    }
}

/// Whether an object keeps nothing but a whole word at an address. Besides the words that the
/// collector follows these are the code of a closure, the mark of a promise that is forced, and
/// everything behind the header of an object of which only the header is known.
pub open spec fn holds_word(address: usize, thing: Thing, slot: usize) -> bool {
    slot_index(address, thing, slot) is Some || match thing {
        Thing::Closure { code_ptr, env } => slot == address + header_size(),
        Thing::Promise { value, forced } => slot == address + header_size() + word_size(),
        Thing::Raw(header) => slot >= address + header_size(),
        _ => false,
    }
}

/// Whether the word at an address and an object have no byte in common.
pub open spec fn apart(address: usize, thing: Thing, slot: usize) -> bool {
    slot + word_size() <= address || address + thing_size(thing) <= slot
}

/// An object after a word was stored at an address.
pub open spec fn with_word(address: usize, thing: Thing, slot: usize, value: usize) -> Thing {
    match slot_index(address, thing, slot) {
        Some(index) => with_slot(thing, index, value),
        None => match thing {
            Thing::Closure { code_ptr, env } => if slot == address + header_size() {
                Thing::Closure { code_ptr: value, env }
            } else {
                thing
            },
            Thing::Promise { value: kept, forced } => if slot == address + header_size() + word_size() {
                Thing::Promise { value: kept, forced: value != 0 }
            } else {
                thing
            },
            _ => thing,
        },
    }
}

/// The addresses of a row of words.
pub open spec fn addresses(slots: Seq<usize>) -> Seq<int> {
    slots.map_values(|slot: usize| slot as int)
}

/// The bytes of a word.
pub fn word_bytes() -> (bytes: usize)
    ensures
        bytes == word_size(),
        bytes == 4 || bytes == 8,
{
    (usize::BITS / 8) as usize
}

impl Object {
    /// The tag in the header of the object.
    pub fn tag(&self) -> (tag: u16)
        ensures
            tag == thing_tag(self@),
    {
        match self {
            Object::Pair { car: _, cdr: _ } => HEADER_TAG_PAIR,
            Object::Vector(_) => HEADER_TAG_VECTOR,
            Object::Text(_) => HEADER_TAG_STRING,
            Object::Symbol(_) => HEADER_TAG_SYMBOL,
            Object::Closure { code_ptr: _, env: _ } => HEADER_TAG_CLOSURE,
            Object::Boxed(_) => HEADER_TAG_BOX,
            Object::Values(_) => HEADER_TAG_VALUES,
            Object::Promise { value: _, forced: _ } => HEADER_TAG_PROMISE,
            Object::Raw(header) => header.kind,
        }
    }

    /// The bytes that the object takes; `None` where their number does not fit in a word.
    pub fn size(&self) -> (size: Option<usize>)
        ensures
            match size {
                Some(size) => size == thing_size(self@),
                None => thing_size(self@) > usize::MAX,
            },
    {
        let word: usize = word_bytes();
        let header: usize = word + 8;
        match self {
            Object::Pair { car: _, cdr: _ } => Some(header + 2 * word),
            Object::Vector(elements) => words_behind(header + word, elements.len(), word),
            Object::Text(bytes) => (header + word).checked_add(bytes.len()),
            Object::Symbol(bytes) => (header + word).checked_add(bytes.len()),
            Object::Closure { code_ptr: _, env } => words_behind(header + 2 * word, env.len(), word),
            Object::Boxed(_) => Some(header + word),
            Object::Values(elements) => words_behind(header + word, elements.len(), word),
            Object::Promise { value: _, forced: _ } => Some(header + 2 * word),
            Object::Raw(header) => Some(header.bytes as usize),
        }
    }

    /// The addresses of the words that the collector follows, where the object stands at
    /// `address`.
    pub fn scan(&self, address: usize) -> (slots: Vec<usize>)
        requires
            address + thing_size(self@) <= usize::MAX,
        ensures
            addresses(slots@) == slots_of(address, self@),
    {
        let word: usize = word_bytes();
        let header: usize = word + 8;
        match self {
            Object::Pair { car: _, cdr: _ } => slots_from(address + header, 2, word),
            Object::Boxed(_) => slots_from(address + header, 1, word),
            Object::Closure { code_ptr: _, env } => {
                assert(0 <= env@.len() * word_size()) by (nonlinear_arith);
                slots_from(address + header + 2 * word, env.len(), word)
            },
            Object::Vector(elements) => {
                assert(0 <= elements@.len() * word_size()) by (nonlinear_arith);
                slots_from(address + header + word, elements.len(), word)
            },
            Object::Values(elements) => {
                assert(0 <= elements@.len() * word_size()) by (nonlinear_arith);
                slots_from(address + header + word, elements.len(), word)
            },
            Object::Promise { value: _, forced: _ } => slots_from(address + header, 1, word),
            _ => Vec::new(),
        }
    }
}

impl Object {
    /// Which of the words that the collector follows stands at `slot`, where the object stands at
    /// `address`.
    pub fn find_slot(&self, address: usize, slot: usize) -> (index: Option<usize>)
        ensures
            match index {
                Some(index) => slot_index(address, self@, slot) == Some(index as nat),
                None => slot_index(address, self@, slot) is None,
            },
    {
        let word: usize = word_bytes();
        let (first, count): (usize, usize) = match self {
            Object::Pair { car: _, cdr: _ } => (word + 8, 2),
            Object::Boxed(_) => (word + 8, 1),
            Object::Closure { code_ptr: _, env } => (3 * word + 8, env.len()),
            Object::Vector(elements) => (2 * word + 8, elements.len()),
            Object::Values(elements) => (2 * word + 8, elements.len()),
            Object::Promise { value: _, forced: _ } => (word + 8, 1),
            _ => (word + 8, 0),
        };
        assert(first == first_slot(self@) && count == slot_count(self@));
        if slot < address || slot - address < first {
            return None;
        }
        let offset: usize = slot - address - first;
        if offset % word != 0 || offset / word >= count {
            return None;
        }
        Some(offset / word)
    }

    /// Whether a word can be stored at `slot` without breaking the object, which stands at
    /// `address`.
    pub fn can_hold(&self, address: usize, slot: usize) -> (fits: bool)
        ensures
            fits == (apart(address, self@, slot) || holds_word(address, self@, slot)),
    {
        let word: usize = word_bytes();
        let outside = if slot < address {
            address - slot >= word
        } else {
            match self.size() {
                Some(size) => slot - address >= size,
                None => false,
            }
        };
        if outside || self.find_slot(address, slot).is_some() {
            return true;
        }
        if slot < address {
            return false;
        }
        let offset: usize = slot - address;
        match self {
            Object::Closure { code_ptr: _, env: _ } => offset == word + 8,
            Object::Promise { value: _, forced: _ } => offset == 2 * word + 8,
            Object::Raw(_) => offset >= word + 8,
            _ => false,
        }
    }

    /// The object, which stands at `address`, after a word was stored at `slot`; `None` where that
    /// leaves it as it is.
    pub fn after_store(&self, address: usize, slot: usize, stored: usize) -> (changed: Option<Object>)
        ensures
            match changed {
                Some(changed) => changed@ == with_word(address, self@, slot, stored) && !(self@ is Symbol),
                None => self@ == with_word(address, self@, slot, stored),
            },
    {
        match self.find_slot(address, slot) {
            Some(index) => match self {
                Object::Pair { car, cdr } => {
                    if index == 0 {
                        Some(Object::Pair { car: stored, cdr: *cdr })
                    } else {
                        Some(Object::Pair { car: *car, cdr: stored })
                    }
                },
                Object::Boxed(_) => Some(Object::Boxed(stored)),
                Object::Closure { code_ptr, env } => Some(
                    Object::Closure { code_ptr: *code_ptr, env: replaced(env, index, stored) },
                ),
                Object::Vector(elements) => Some(Object::Vector(replaced(elements, index, stored))),
                Object::Values(elements) => Some(Object::Values(replaced(elements, index, stored))),
                Object::Promise { value: _, forced } => Some(Object::Promise { value: stored, forced: *forced }),
                _ => None,
            },
            None => {
                if slot < address {
                    return None;
                }
                let word: usize = word_bytes();
                let offset: usize = slot - address;
                match self {
                    Object::Closure { code_ptr: _, env } if offset == word + 8 => Some(
                        Object::Closure { code_ptr: stored, env: copy_words(env) },
                    ),
                    Object::Promise { value, forced: _ } if offset == 2 * word + 8 => Some(
                        Object::Promise { value: *value, forced: stored != 0 },
                    ),
                    _ => None,
                }
            },
        }
    }
}

/// A copy of a row of words.
pub fn copy_words(words: &Vec<usize>) -> (copy: Vec<usize>)
    ensures
        copy@ == words@,
{
    let mut copy: Vec<usize> = Vec::new();
    let mut index: usize = 0;
    while index < words.len()
        invariant
            index <= words@.len(),
            copy@ == words@.subrange(0, index as int),
        decreases words@.len() - index,
    {
        copy.push(words[index]);
        assert(copy@ =~= words@.subrange(0, index + 1));
        index = index + 1;
    }
    assert(copy@ =~= words@);
    copy
}

/// A row of words with one replaced.
pub fn replaced(elements: &Vec<usize>, index: usize, value: usize) -> (changed: Vec<usize>)
    requires
        index < elements@.len(),
    ensures
        changed@ == elements@.update(index as int, value),
{
    let mut changed = copy_words(elements);
    changed.set(index, value);
    changed
}

/// The size of so many words behind so many bytes.
fn words_behind(start: usize, count: usize, word: usize) -> (size: Option<usize>)
    requires
        word == word_size(),
    ensures
        match size {
            Some(size) => size == start + count * word_size(),
            None => start + count * word_size() > usize::MAX,
        },
{
    match count.checked_mul(word) {
        Some(bytes) => start.checked_add(bytes),
        None => None,
    }
}

/// The addresses of words that stand in a row.
fn slots_from(start: usize, count: usize, word: usize) -> (slots: Vec<usize>)
    requires
        word == word_size(),
        start + count * word_size() <= usize::MAX,
    ensures
        addresses(slots@) == Seq::new(count as nat, |i: int| start + i * word_size()),
{
    let mut slots: Vec<usize> = Vec::new();
    let mut index: usize = 0;
    while index < count
        invariant
            index <= count,
            word == word_size(),
            start + count * word_size() <= usize::MAX,
            addresses(slots@) == Seq::new(index as nat, |i: int| start + i * word_size()),
        decreases count - index,
    {
        assert(index * word_size() <= count * word_size()) by (nonlinear_arith)
            requires
                index <= count,
        ;
        let ghost done = addresses(slots@);
        slots.push(start + index * word);
        assert(addresses(slots@) =~= done.push(start + index * word_size()));
        index = index + 1;
    }
    slots
}

} // verus!
