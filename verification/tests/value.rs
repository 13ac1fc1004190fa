use mlisp::runtime::layout::{BOOL_FALSE, BOOL_TRUE, EMPTY_LIST, UNSPECIFIED};
use mlisp::runtime::value::{Immediate, ObjectReference, Value};

#[test]
fn round_trips_fixnums() {
    let value = Value::encode_fixnum(-42).unwrap();
    assert_eq!(value.decode_fixnum(), Some(-42));
}

#[test]
fn rejects_out_of_range_fixnums() {
    assert!(Value::encode_fixnum(Value::fixnum_max()).is_some());
    assert!(Value::encode_fixnum(Value::fixnum_min()).is_some());
    assert!(Value::encode_fixnum(Value::fixnum_max().saturating_add(1)).is_none());
    assert!(Value::encode_fixnum(Value::fixnum_min().saturating_sub(1)).is_none());
}

#[test]
fn identifies_immediates() {
    assert_eq!(
        Value::encode_bool(true).decode_immediate(),
        Some(Immediate::Bool(true))
    );
    assert_eq!(
        Value::empty_list().decode_immediate(),
        Some(Immediate::EmptyList)
    );
    assert_eq!(
        Value::unspecified().decode_immediate(),
        Some(Immediate::Unspecified)
    );
    assert_eq!(
        Value::encode_char('x').decode_immediate(),
        Some(Immediate::Char('x'))
    );
}

#[test]
fn encodes_words_bit_by_bit() {
    assert_eq!(Value::encode_fixnum(0).unwrap().bits(), 1);
    assert_eq!(Value::encode_fixnum(21).unwrap().bits(), 43);
    assert_eq!(Value::encode_fixnum(-1).unwrap().bits(), usize::MAX);
    assert_eq!(Value::encode_bool(false).bits(), BOOL_FALSE);
    assert_eq!(Value::encode_bool(true).bits(), BOOL_TRUE);
    assert_eq!(Value::empty_list().bits(), EMPTY_LIST);
    assert_eq!(Value::unspecified().bits(), UNSPECIFIED);
    assert_eq!(Value::encode_char('a').bits(), 97 * 8 + 4);
    assert_eq!(Value::fixnum_max(), (1i64 << 61) - 1);
    assert_eq!(Value::fixnum_min(), -(1i64 << 61));
}

#[test]
fn round_trips_every_kind_of_immediate() {
    for immediate in [
        Immediate::Bool(true),
        Immediate::Bool(false),
        Immediate::EmptyList,
        Immediate::Unspecified,
        Immediate::Char('\u{10ffff}'),
        Immediate::Char('\0'),
    ] {
        let word = match immediate {
            Immediate::Bool(value) => Value::encode_bool(value),
            Immediate::EmptyList => Value::empty_list(),
            Immediate::Unspecified => Value::unspecified(),
            Immediate::Char(value) => Value::encode_char(value),
        };
        assert_eq!(word.decode_immediate(), Some(immediate));
        assert_eq!(word.decode_fixnum(), None);
        assert!(!word.is_heap_ref());
    }
}

#[test]
fn surrogates_are_no_characters() {
    assert_eq!(Value::from_bits(0xd800 * 8 + 4).decode_immediate(), None);
    assert_eq!(Value::from_bits(0x110000 * 8 + 4).decode_immediate(), None);
    assert_eq!(
        Value::from_bits(0xe000 * 8 + 4).decode_immediate(),
        Some(Immediate::Char('\u{e000}'))
    );
}

#[test]
fn tells_references_from_other_words() {
    let object = ObjectReference::from_raw_address(4096).unwrap();
    let word = Value::from_object_reference(object);
    assert!(word.is_heap_ref());
    assert!(!word.is_fixnum());
    assert_eq!(word.to_object_reference(), Some(object));
    assert!(ObjectReference::from_raw_address(0).is_none());
    assert!(!Value::from_bits(0).is_heap_ref());
    assert!(Value::from_bits(12).to_object_reference().is_none());
}
