//! The external representation of values.
use crate::runtime::heap::{object_at, Runtime};
use crate::runtime::layout::EMPTY_LIST;
use crate::runtime::lists::pair_at;
use crate::runtime::object::{Object, Thing};
use crate::runtime::value::{fixnum_of, immediate_of, is_fixnum_word, Immediate, Value};
use crate::text::{decimal, decimal_text, integer, integer_text};
use vstd::prelude::*;
use vstd::utf8::encode_utf8;

verus! {

broadcast use vstd::seq_lib::group_seq_properties;

/// What was written, and whether all of it could be.
pub struct Written {
    pub bytes: Seq<u8>,
    pub complete: bool,
}

/// Text, written.
pub open spec fn wrote(text: Seq<char>) -> Written {
    Written { bytes: encode_utf8(text), complete: true }
}

/// One thing written after another, unless the first was not complete.
pub open spec fn followed(first: Written, second: Written) -> Written {
    if first.complete {
        Written { bytes: first.bytes + second.bytes, complete: second.complete }
    } else {
        first
    }
}

/// The name of a character.
pub open spec fn char_name(value: char) -> Seq<char> {
    if value == ' ' {
        "#\\space"@
    } else if value == '\n' {
        "#\\newline"@
    } else {
        "#\\"@.push(value)
    }
}

/// The text of an immediate.
pub open spec fn immediate_text(immediate: Immediate) -> Seq<char> {
    match immediate {
        Immediate::Bool(value) => if value { "#t"@ } else { "#f"@ },
        Immediate::Char(value) => char_name(value),
        Immediate::EmptyList => "()"@,
        Immediate::Unspecified => "#<unspecified>"@,
    }
}

/// The representation of an object without parts that are values.
pub open spec fn flat_object_text(thing: Thing, quoted: bool) -> Option<Written> {
    match thing {
        Thing::Text(bytes) => Some(
            Written {
                bytes: if quoted { encode_utf8("\""@) + bytes + encode_utf8("\""@) } else { bytes },
                complete: true,
            },
        ),
        Thing::Symbol(bytes) => Some(Written { bytes, complete: true }),
        Thing::Values(elements) => Some(wrote("#<values "@ + decimal_text(elements.len()) + ">"@)),
        Thing::Promise { value, forced } => Some(wrote("#<promise>"@)),
        Thing::Closure { code_ptr, env } => Some(wrote("#<closure>"@)),
        Thing::Raw(header) => Some(wrote("#<object>"@)),
        _ => None,
    }
}

/// The representation of a value, found by going at most `depth` objects deep. Strings may be
/// quoted, but not inside of lists.
pub open spec fn text_within(objects: Map<usize, Thing>, bits: usize, quoted: bool, depth: nat) -> Option<Written>
    decreases depth, 0nat, 0nat,
{
    if is_fixnum_word(bits) {
        Some(wrote(integer_text(fixnum_of(bits))))
    } else if let Some(immediate) = immediate_of(bits) {
        Some(wrote(immediate_text(immediate)))
    } else {
        match object_at(objects, bits) {
            None => Some(Written { bytes: Seq::empty(), complete: false }),
            Some(Thing::Pair { car, cdr }) => if depth == 0 {
                None
            } else {
                match pair_text_within(objects, car, cdr, false, (depth - 1) as nat) {
                    None => None,
                    Some(inner) => Some(followed(followed(wrote("("@), inner), wrote(")"@))),
                }
            },
            Some(Thing::Vector(elements)) => if depth == 0 {
                None
            } else {
                match row_text_within(objects, elements, 0, quoted, (depth - 1) as nat) {
                    None => None,
                    Some(inner) => Some(followed(followed(wrote("#("@), inner), wrote(")"@))),
                }
            },
            Some(Thing::Boxed(value)) => if depth == 0 {
                None
            } else {
                match text_within(objects, value, quoted, (depth - 1) as nat) {
                    None => None,
                    Some(inner) => Some(followed(wrote("#&"@), inner)),
                }
            },
            Some(thing) => flat_object_text(thing, quoted),
        }
    }
}

/// The representation of the inside of a list.
pub open spec fn pair_text_within(objects: Map<usize, Thing>, car: usize, cdr: usize, quoted: bool, depth: nat) -> Option<
    Written,
>
    decreases depth, 1nat, 0nat,
{
    match text_within(objects, car, quoted, depth) {
        None => None,
        Some(first) => if cdr == EMPTY_LIST || !first.complete {
            Some(first)
        } else {
            match pair_at(objects, cdr) {
                Some((next, rest)) => if depth == 0 {
                    None
                } else {
                    match pair_text_within(objects, next, rest, quoted, (depth - 1) as nat) {
                        None => None,
                        Some(more) => Some(followed(followed(first, wrote(" "@)), more)),
                    }
                },
                None => match text_within(objects, cdr, quoted, depth) {
                    None => None,
                    Some(last) => Some(followed(followed(first, wrote(" . "@)), last)),
                },
            }
        },
    }
}

/// The representation of values from one on, with spaces between them.
pub open spec fn row_text_within(objects: Map<usize, Thing>, elements: Seq<usize>, index: nat, quoted: bool, depth: nat) -> Option<
    Written,
>
    decreases depth, 1nat, elements.len() - index,
{
    if index >= elements.len() {
        Some(Written { bytes: Seq::empty(), complete: true })
    } else {
        match text_within(objects, elements[index as int], quoted, depth) {
            None => None,
            Some(first) => {
                let spaced = if index == 0 { first } else { followed(wrote(" "@), first) };
                if !first.complete {
                    Some(spaced)
                } else {
                    match row_text_within(objects, elements, index + 1, quoted, depth) {
                        None => None,
                        Some(more) => Some(followed(spaced, more)),
                    }
                }
            },
        }
    }
}

/// The representation of a value in which strings are quoted, also those that stand in a list
/// itself.
pub open spec fn scheme_text_within(objects: Map<usize, Thing>, bits: usize, depth: nat) -> Option<Written> {
    match pair_at(objects, bits) {
        Some((car, cdr)) => match pair_text_within(objects, car, cdr, true, depth) {
            None => None,
            Some(inner) => Some(followed(followed(wrote("("@), inner), wrote(")"@))),
        },
        None => text_within(objects, bits, true, depth),
    }
}

/// Whether writing a value comes to an end.
pub open spec fn text_ends(objects: Map<usize, Thing>, bits: usize, quoted: bool) -> bool {
    exists|depth: nat| (#[trigger] text_within(objects, bits, quoted, depth)) is Some
}

/// The representation of a value, where writing it comes to an end.
pub open spec fn text_of(objects: Map<usize, Thing>, bits: usize, quoted: bool) -> Written {
    text_within(
        objects,
        bits,
        quoted,
        choose|depth: nat| (#[trigger] text_within(objects, bits, quoted, depth)) is Some,
    )->0
}

/// Whether writing a value with quoted strings comes to an end.
pub open spec fn scheme_text_ends(objects: Map<usize, Thing>, bits: usize) -> bool {
    exists|depth: nat| (#[trigger] scheme_text_within(objects, bits, depth)) is Some
}

/// The representation of a value with quoted strings, where writing it comes to an end.
pub open spec fn scheme_text_of(objects: Map<usize, Thing>, bits: usize) -> Written {
    scheme_text_within(
        objects,
        bits,
        choose|depth: nat| (#[trigger] scheme_text_within(objects, bits, depth)) is Some,
    )->0
}

proof fn lemma_text_deeper(objects: Map<usize, Thing>, bits: usize, quoted: bool, less: nat, more: nat)
    requires
        less <= more,
        text_within(objects, bits, quoted, less) is Some,
    ensures
        text_within(objects, bits, quoted, more) == text_within(objects, bits, quoted, less),
    decreases less, 0nat, 0nat,
{
    if !is_fixnum_word(bits) && immediate_of(bits) is None {
        match object_at(objects, bits) {
            Some(Thing::Pair { car, cdr }) => {
                lemma_pair_text_deeper(objects, car, cdr, false, (less - 1) as nat, (more - 1) as nat);
            },
            Some(Thing::Vector(elements)) => {
                lemma_row_text_deeper(objects, elements, 0, quoted, (less - 1) as nat, (more - 1) as nat);
            },
            Some(Thing::Boxed(value)) => {
                lemma_text_deeper(objects, value, quoted, (less - 1) as nat, (more - 1) as nat);
            },
            _ => {},
        }
    }
}

proof fn lemma_pair_text_deeper(objects: Map<usize, Thing>, car: usize, cdr: usize, quoted: bool, less: nat, more: nat)
    requires
        less <= more,
        pair_text_within(objects, car, cdr, quoted, less) is Some,
    ensures
        pair_text_within(objects, car, cdr, quoted, more) == pair_text_within(objects, car, cdr, quoted, less),
    decreases less, 1nat, 0nat,
{
    lemma_text_deeper(objects, car, quoted, less, more);
    if let Some(first) = text_within(objects, car, quoted, less) {
        if cdr != EMPTY_LIST && first.complete {
            match pair_at(objects, cdr) {
                Some((next, rest)) => {
                    lemma_pair_text_deeper(objects, next, rest, quoted, (less - 1) as nat, (more - 1) as nat);
                },
                None => {
                    lemma_text_deeper(objects, cdr, quoted, less, more);
                },
            }
        }
    }
}

proof fn lemma_row_text_deeper(
    objects: Map<usize, Thing>,
    elements: Seq<usize>,
    index: nat,
    quoted: bool,
    less: nat,
    more: nat,
)
    requires
        less <= more,
        row_text_within(objects, elements, index, quoted, less) is Some,
    ensures
        row_text_within(objects, elements, index, quoted, more) == row_text_within(
            objects,
            elements,
            index,
            quoted,
            less,
        ),
    decreases less, 1nat, elements.len() - index,
{
    if index < elements.len() {
        lemma_text_deeper(objects, elements[index as int], quoted, less, more);
        if let Some(first) = text_within(objects, elements[index as int], quoted, less) {
            if first.complete {
                lemma_row_text_deeper(objects, elements, index + 1, quoted, less, more);
            }
        }
    }
}

/// The representation of a value does not depend on how deep one is ready to go.
pub proof fn lemma_text_of(objects: Map<usize, Thing>, bits: usize, quoted: bool, depth: nat)
    requires
        text_within(objects, bits, quoted, depth) is Some,
    ensures
        text_ends(objects, bits, quoted),
        text_within(objects, bits, quoted, depth) == Some(text_of(objects, bits, quoted)),
{
    let chosen = choose|depth: nat| (#[trigger] text_within(objects, bits, quoted, depth)) is Some;
    if chosen <= depth {
        lemma_text_deeper(objects, bits, quoted, chosen, depth);
    } else {
        lemma_text_deeper(objects, bits, quoted, depth, chosen);
    }
}

proof fn lemma_scheme_text_deeper(objects: Map<usize, Thing>, bits: usize, less: nat, more: nat)
    requires
        less <= more,
        scheme_text_within(objects, bits, less) is Some,
    ensures
        scheme_text_within(objects, bits, more) == scheme_text_within(objects, bits, less),
{
    match pair_at(objects, bits) {
        Some((car, cdr)) => {
            lemma_pair_text_deeper(objects, car, cdr, true, less, more);
        },
        None => {
            lemma_text_deeper(objects, bits, true, less, more);
        },
    }
}

/// The representation of a value with quoted strings does not depend on how deep one is ready to
/// go.
pub proof fn lemma_scheme_text_of(objects: Map<usize, Thing>, bits: usize, depth: nat)
    requires
        scheme_text_within(objects, bits, depth) is Some,
    ensures
        scheme_text_ends(objects, bits),
        scheme_text_within(objects, bits, depth) == Some(scheme_text_of(objects, bits)),
{
    let chosen = choose|depth: nat| (#[trigger] scheme_text_within(objects, bits, depth)) is Some;
    if chosen <= depth {
        lemma_scheme_text_deeper(objects, bits, chosen, depth);
    } else {
        lemma_scheme_text_deeper(objects, bits, depth, chosen);
    }
}

/// Whether `written` came behind what was there, completely or not.
pub open spec fn wrote_behind(before: Seq<u8>, after: Seq<u8>, complete: bool, written: Written) -> bool {
    after == before + written.bytes && complete == written.complete
}

/// Writes bytes.
pub fn put_bytes(out: &mut Vec<u8>, bytes: &[u8])
    ensures
        final(out)@ == old(out)@ + bytes@,
{
    let mut index: usize = 0;
    assert(out@ =~= old(out)@ + bytes@.subrange(0, 0));
    while index < bytes.len()
        invariant
            index <= bytes@.len(),
            out@ == old(out)@ + bytes@.subrange(0, index as int),
        decreases bytes@.len() - index,
    {
        out.push(bytes[index]);
        assert(out@ =~= old(out)@ + bytes@.subrange(0, index + 1));
        index = index + 1;
    }
    assert(bytes@.subrange(0, bytes@.len() as int) =~= bytes@);
}

/// Writes text.
pub fn put_text(out: &mut Vec<u8>, text: &str)
    ensures
        final(out)@ == old(out)@ + encode_utf8(text@),
{
    put_bytes(out, text.as_bytes());
}

fn immediate_string(immediate: Immediate) -> (text: String)
    ensures
        text@ == immediate_text(immediate),
{
    match immediate {
        Immediate::Bool(value) => if value {
            "#t".to_owned()
        } else {
            "#f".to_owned()
        },
        Immediate::Char(value) => {
            if value == ' ' {
                "#\\space".to_owned()
            } else if value == '\n' {
                "#\\newline".to_owned()
            } else {
                let mut name: String = "#\\".to_owned();
                name.push(value);
                name
            }
        },
        Immediate::EmptyList => "()".to_owned(),
        Immediate::Unspecified => "#<unspecified>".to_owned(),
    }
}

impl Runtime {
    fn write_flat_object(&self, out: &mut Vec<u8>, object: &Object, quoted: bool)
        requires
            flat_object_text(object@, quoted) is Some,
        ensures
            wrote_behind(old(out)@, final(out)@, true, flat_object_text(object@, quoted)->0),
    {
        match object {
            Object::Text(bytes) => {
                if quoted {
                    put_text(out, "\"");
                }
                put_bytes(out, bytes.as_slice());
                if quoted {
                    put_text(out, "\"");
                }
                assert(out@ =~= old(out)@ + flat_object_text(object@, quoted)->0.bytes);
            },
            Object::Symbol(bytes) => {
                put_bytes(out, bytes.as_slice());
            },
            Object::Values(elements) => {
                let count = decimal(elements.len());
                let text = crate::text::join3("#<values ", count.as_str(), ">");
                put_text(out, text.as_str());
            },
            Object::Promise { value: _, forced: _ } => {
                put_text(out, "#<promise>");
            },
            Object::Closure { code_ptr: _, env: _ } => {
                put_text(out, "#<closure>");
            },
            _ => {
                put_text(out, "#<object>");
            },
        }
    }

    fn write_at(&self, out: &mut Vec<u8>, bits: usize, quoted: bool, depth: Ghost<nat>) -> (complete: bool)
        requires
            self@.well_formed(),
            text_within(self@.objects, bits, quoted, depth@) is Some,
        ensures
            wrote_behind(old(out)@, final(out)@, complete, text_within(self@.objects, bits, quoted, depth@)->0),
        decreases depth@, 0nat, 0nat,
    {
        let value = Value::from_bits(bits);
        if let Some(number) = value.decode_fixnum() {
            let text = integer(number);
            put_text(out, text.as_str());
            return true;
        }
        if let Some(immediate) = value.decode_immediate() {
            let text = immediate_string(immediate);
            put_text(out, text.as_str());
            return true;
        }
        let ghost less = (depth@ - 1) as nat;
        let ghost expected = text_within(self@.objects, bits, quoted, depth@)->0;
        match self.object(bits) {
            None => {
                assert(out@ =~= old(out)@ + expected.bytes);
                false
            },
            Some(Object::Pair { car, cdr }) => {
                put_text(out, "(");
                let complete = self.write_pair_at(out, *car, *cdr, false, Ghost(less));
                if complete {
                    put_text(out, ")");
                }
                assert(out@ =~= old(out)@ + expected.bytes);
                complete
            },
            Some(Object::Vector(elements)) => {
                put_text(out, "#(");
                let complete = self.write_row_at(out, elements, 0, quoted, Ghost(less));
                if complete {
                    put_text(out, ")");
                }
                assert(out@ =~= old(out)@ + expected.bytes);
                complete
            },
            Some(Object::Boxed(inner)) => {
                put_text(out, "#&");
                let complete = self.write_at(out, *inner, quoted, Ghost(less));
                assert(out@ =~= old(out)@ + expected.bytes);
                complete
            },
            Some(object) => {
                self.write_flat_object(out, object, quoted);
                true
            },
        }
    }

    fn write_pair_at(&self, out: &mut Vec<u8>, car: usize, cdr: usize, quoted: bool, depth: Ghost<nat>) -> (complete: bool)
        requires
            self@.well_formed(),
            pair_text_within(self@.objects, car, cdr, quoted, depth@) is Some,
        ensures
            wrote_behind(
                old(out)@,
                final(out)@,
                complete,
                pair_text_within(self@.objects, car, cdr, quoted, depth@)->0,
            ),
        decreases depth@, 1nat, 0nat,
    {
        let ghost expected = pair_text_within(self@.objects, car, cdr, quoted, depth@)->0;
        if !self.write_at(out, car, quoted, depth) {
            return false;
        }
        if cdr == EMPTY_LIST {
            return true;
        }
        match self.pair(cdr) {
            Some((next, rest)) => {
                put_text(out, " ");
                let complete = self.write_pair_at(out, next, rest, quoted, Ghost((depth@ - 1) as nat));
                assert(out@ =~= old(out)@ + expected.bytes);
                complete
            },
            None => {
                put_text(out, " . ");
                let complete = self.write_at(out, cdr, quoted, depth);
                assert(out@ =~= old(out)@ + expected.bytes);
                complete
            },
        }
    }

    fn write_row_at(&self, out: &mut Vec<u8>, elements: &Vec<usize>, index: usize, quoted: bool, depth: Ghost<nat>) -> (complete: bool)
        requires
            self@.well_formed(),
            index <= elements@.len(),
            row_text_within(self@.objects, elements@, index as nat, quoted, depth@) is Some,
        ensures
            wrote_behind(
                old(out)@,
                final(out)@,
                complete,
                row_text_within(self@.objects, elements@, index as nat, quoted, depth@)->0,
            ),
        decreases depth@, 1nat, elements@.len() - index,
    {
        let ghost expected = row_text_within(self@.objects, elements@, index as nat, quoted, depth@)->0;
        if index >= elements.len() {
            assert(out@ =~= old(out)@ + expected.bytes);
            return true;
        }
        if index != 0 {
            put_text(out, " ");
        }
        if !self.write_at(out, elements[index], quoted, depth) {
            assert(out@ =~= old(out)@ + expected.bytes);
            return false;
        }
        let complete = self.write_row_at(out, elements, index + 1, quoted, depth);
        assert(out@ =~= old(out)@ + expected.bytes);
        complete
    }

    /// Writes a value, with strings quoted or not. Returns whether all of it could be written.
    pub fn write_value(&self, out: &mut Vec<u8>, bits: usize, quoted: bool) -> (complete: bool)
        requires
            self@.well_formed(),
            text_ends(self@.objects, bits, quoted),
        ensures
            wrote_behind(old(out)@, final(out)@, complete, text_of(self@.objects, bits, quoted)),
    {
        let ghost depth = choose|depth: nat| (#[trigger] text_within(self@.objects, bits, quoted, depth)) is Some;
        self.write_at(out, bits, quoted, Ghost(depth))
    }

    /// Writes a value with strings quoted, also those that stand in a list itself.
    pub fn write_scheme_value(&self, out: &mut Vec<u8>, bits: usize) -> (complete: bool)
        requires
            self@.well_formed(),
            scheme_text_ends(self@.objects, bits),
        ensures
            wrote_behind(old(out)@, final(out)@, complete, scheme_text_of(self@.objects, bits)),
    {
        let ghost depth = choose|depth: nat| (#[trigger] scheme_text_within(self@.objects, bits, depth)) is Some;
        let ghost expected = scheme_text_of(self@.objects, bits);
        match self.pair(bits) {
            Some((car, cdr)) => {
                put_text(out, "(");
                let complete = self.write_pair_at(out, car, cdr, true, Ghost(depth));
                if complete {
                    put_text(out, ")");
                }
                assert(out@ =~= old(out)@ + expected.bytes);
                complete
            },
            None => self.write_at(out, bits, true, Ghost(depth)),
        }
    }
}

} // verus!
