use std::collections::HashMap;

use mlisp::runtime::abi::{
    heap_options, mlisp_alloc_box, mlisp_alloc_box_gc, mlisp_alloc_closure_gc, mlisp_alloc_pair, mlisp_alloc_pair_gc,
    mlisp_alloc_promise, mlisp_alloc_promise_gc, mlisp_alloc_string, mlisp_alloc_string_gc, mlisp_alloc_symbol,
    mlisp_alloc_symbol_gc, mlisp_alloc_values, mlisp_alloc_vector, mlisp_alloc_vector_gc, mlisp_append,
    mlisp_apply_builtin, mlisp_assoc, mlisp_assq, mlisp_assv, mlisp_box_set_gc, mlisp_closure_code_ptr_gc,
    mlisp_closure_env_ref_gc, mlisp_closure_env_set_gc, mlisp_display, mlisp_empty_list, mlisp_equal,
    mlisp_gc_stress, mlisp_is_list, mlisp_is_pair, mlisp_is_string, mlisp_is_symbol, mlisp_is_values, mlisp_is_vector,
    mlisp_list_copy, mlisp_list_length, mlisp_list_ref, mlisp_list_tail, mlisp_make_bool, mlisp_make_fixnum,
    mlisp_member, mlisp_memq, mlisp_memv, mlisp_newline, mlisp_pair_car, mlisp_pair_car_gc, mlisp_pair_cdr,
    mlisp_pair_cdr_gc, mlisp_pair_set_car, mlisp_pair_set_cdr, mlisp_promise_forced, mlisp_promise_forced_gc,
    mlisp_promise_resolve, mlisp_promise_value, mlisp_promise_value_gc, mlisp_reverse, mlisp_string_length,
    mlisp_string_length_gc, mlisp_string_ref, mlisp_string_ref_gc, mlisp_string_to_symbol, mlisp_symbol_to_string,
    mlisp_unspecified, mlisp_values_length, mlisp_values_ref, mlisp_values_tail_list, mlisp_vector_length,
    mlisp_vector_length_gc, mlisp_vector_ref, mlisp_vector_ref_gc, mlisp_vector_set, mlisp_vector_set_gc, mlisp_write,
    rt_alloc_slow, rt_bind_thread, rt_exception_pending, rt_gc_poll, rt_mmtk_init, rt_object_write_post, rt_raise,
    rt_register_global_root, rt_root_slot_pop, rt_root_slot_push, rt_take_pending_exception, rt_unbind_thread,
};
use mlisp::runtime::apply;
use mlisp::runtime::error::RuntimeError;
use mlisp::runtime::gc::{GcState, ValueMemorySlice, ValueSlot};
use mlisp::runtime::heap::{GlobalRoot, Runtime};
use mlisp::runtime::layout::{HEADER_TAG_PAIR, HEADER_TAG_VECTOR};
use mlisp::runtime::moving::move_word;
use mlisp::runtime::object::{word_bytes, HeapKind, Object};
use mlisp::runtime::records::{
    BoxObject, ClosureObject, PairObject, StringObject, SymbolObject, VectorObject,
};
use mlisp::runtime::unchecked::HeapOptions;
use mlisp::runtime::value::Value;

/// A runtime with room for objects.
fn runtime(objects: usize) -> Runtime {
    let mut runtime = Runtime::new();
    for index in 0..objects {
        assert!(runtime.add_space(0x10000 + 64 * (objects - index)));
    }
    runtime
}

fn fixnum(word: usize) -> Option<i64> {
    Value::from_bits(word).decode_fixnum()
}

fn list(runtime: &mut Runtime, elements: &[usize]) -> usize {
    let mut list = mlisp_empty_list();
    for element in elements.iter().rev() {
        list = mlisp_alloc_pair(runtime, *element, list);
    }
    list
}

fn apply_to(runtime: &mut Runtime, id: u16, args: &[usize]) -> Result<usize, RuntimeError> {
    let args = list(runtime, args);
    runtime.apply_builtin_value(id, args)
}

fn number(value: i64) -> usize {
    mlisp_make_fixnum(value)
}

fn shown(runtime: &mut Runtime, word: usize) -> String {
    runtime.output.clear();
    mlisp_display(runtime, word);
    String::from_utf8(runtime.output.clone()).unwrap()
}

fn written(runtime: &mut Runtime, word: usize) -> String {
    runtime.output.clear();
    mlisp_write(runtime, word);
    String::from_utf8(runtime.output.clone()).unwrap()
}

#[test]
fn allocates_pair_through_mmtk_runtime() {
    let mut rt = runtime(8);
    assert!(rt_mmtk_init(&mut rt));
    let thread = rt_bind_thread(&mut rt);
    let pair = mlisp_alloc_pair(&mut rt, mlisp_make_fixnum(7), mlisp_make_fixnum(9));
    assert!(mlisp_is_pair(&rt, pair));
    let car = mlisp_pair_car(&rt, pair);
    let cdr = mlisp_pair_cdr(&rt, pair);
    assert_eq!(Value::from_bits(car).decode_fixnum(), Some(7));
    assert_eq!(Value::from_bits(cdr).decode_fixnum(), Some(9));
    rt_gc_poll(&rt, &GcState::new());
    rt_unbind_thread(&mut rt, thread);
}

#[test]
fn recognizes_proper_lists_and_computes_length() {
    let mut rt = runtime(8);
    assert!(rt_mmtk_init(&mut rt));
    let thread = rt_bind_thread(&mut rt);
    let empty = Value::empty_list().bits();
    let tail = mlisp_alloc_pair(&mut rt, mlisp_make_fixnum(2), empty);
    let list = mlisp_alloc_pair(&mut rt, mlisp_make_fixnum(1), tail);
    let dotted = mlisp_alloc_pair(&mut rt, mlisp_make_fixnum(1), mlisp_make_fixnum(2));
    assert!(mlisp_is_list(&rt, empty));
    assert!(mlisp_is_list(&rt, list));
    assert!(!mlisp_is_list(&rt, dotted));
    assert_eq!(
        Value::from_bits(mlisp_list_length(&rt, list)).decode_fixnum(),
        Some(2)
    );
    assert_eq!(
        Value::from_bits(mlisp_list_ref(&rt, list, 1)).decode_fixnum(),
        Some(2)
    );
    assert!(mlisp_is_list(&rt, mlisp_list_tail(&rt, list, 1)));
    assert_eq!(mlisp_list_length(&rt, dotted), Value::unspecified().bits());
    rt_unbind_thread(&mut rt, thread);
}

#[test]
fn allocates_raw_pair_pointer_through_mmtk_runtime() {
    let mut rt = runtime(8);
    assert!(rt_mmtk_init(&mut rt));
    let thread = rt_bind_thread(&mut rt);
    let pair = mlisp_alloc_pair_gc(&mut rt, mlisp_make_fixnum(1), mlisp_make_fixnum(2));
    let car = mlisp_pair_car_gc(&rt, pair);
    let cdr = mlisp_pair_cdr_gc(&rt, pair);
    assert_eq!(Value::from_bits(car).decode_fixnum(), Some(1));
    assert_eq!(Value::from_bits(cdr).decode_fixnum(), Some(2));
    rt_unbind_thread(&mut rt, thread);
}

#[test]
fn allocates_string_through_mmtk_runtime() {
    let mut rt = runtime(8);
    assert!(rt_mmtk_init(&mut rt));
    let thread = rt_bind_thread(&mut rt);
    let value = mlisp_alloc_string(&mut rt, b"hello".to_vec());
    assert!(mlisp_is_string(&rt, value));
    assert_eq!(
        Value::from_bits(mlisp_string_length(&rt, value)).decode_fixnum(),
        Some(5)
    );
    assert_eq!(
        Value::from_bits(mlisp_string_ref(&rt, value, 1)).decode_fixnum(),
        Some(b'e' as i64)
    );
    rt_gc_poll(&rt, &GcState::new());
    assert_eq!(
        Value::from_bits(mlisp_string_ref(&rt, value, 4)).decode_fixnum(),
        Some(b'o' as i64)
    );
    rt_unbind_thread(&mut rt, thread);
}

#[test]
fn allocates_raw_string_pointer_through_mmtk_runtime() {
    let mut rt = runtime(8);
    assert!(rt_mmtk_init(&mut rt));
    let thread = rt_bind_thread(&mut rt);
    let string = mlisp_alloc_string_gc(&mut rt, b"hi".to_vec());
    assert_eq!(
        Value::from_bits(mlisp_string_length_gc(&rt, string)).decode_fixnum(),
        Some(2)
    );
    assert_eq!(
        Value::from_bits(mlisp_string_ref_gc(&rt, string, 1)).decode_fixnum(),
        Some(b'i' as i64)
    );
    rt_unbind_thread(&mut rt, thread);
}

#[test]
fn recognizes_symbols_through_runtime() {
    let mut rt = runtime(8);
    assert!(rt_mmtk_init(&mut rt));
    let thread = rt_bind_thread(&mut rt);
    let value = mlisp_alloc_symbol(&mut rt, b"hello".to_vec());
    assert!(mlisp_is_symbol(&rt, value));
    assert!(!mlisp_is_symbol(&rt, mlisp_make_fixnum(1)));
    rt_unbind_thread(&mut rt, thread);
}

#[test]
fn converts_between_symbols_and_strings() {
    let mut rt = runtime(8);
    assert!(rt_mmtk_init(&mut rt));
    let thread = rt_bind_thread(&mut rt);
    let symbol = mlisp_alloc_symbol(&mut rt, b"hello".to_vec());
    let string = mlisp_symbol_to_string(&mut rt, symbol);
    assert!(mlisp_is_string(&rt, string));
    let roundtrip = mlisp_string_to_symbol(&mut rt, string);
    assert!(mlisp_is_symbol(&rt, roundtrip));
    assert_eq!(roundtrip, symbol);
    rt_unbind_thread(&mut rt, thread);
}

#[test]
fn allocates_and_reads_values_packets_through_runtime() {
    let mut rt = runtime(8);
    assert!(rt_mmtk_init(&mut rt));
    let thread = rt_bind_thread(&mut rt);
    let elements = [mlisp_make_fixnum(1), mlisp_make_fixnum(2), mlisp_make_fixnum(3)];
    let values = mlisp_alloc_values(&mut rt, elements.to_vec());
    assert!(mlisp_is_values(&rt, values));
    assert_eq!(
        Value::from_bits(mlisp_values_length(&rt, values)).decode_fixnum(),
        Some(3)
    );
    assert_eq!(
        Value::from_bits(mlisp_values_ref(&rt, values, 1)).decode_fixnum(),
        Some(2)
    );
    let tail = mlisp_values_tail_list(&mut rt, values, 1);
    assert!(mlisp_is_list(&rt, tail));
    assert_eq!(
        Value::from_bits(mlisp_list_ref(&rt, tail, 0)).decode_fixnum(),
        Some(2)
    );
    rt_gc_poll(&rt, &GcState::new());
    assert_eq!(
        Value::from_bits(mlisp_values_ref(&rt, values, 2)).decode_fixnum(),
        Some(3)
    );
    rt_unbind_thread(&mut rt, thread);
}

#[test]
fn raises_and_takes_pending_exceptions_through_runtime() {
    let mut rt = runtime(8);
    assert!(rt_mmtk_init(&mut rt));
    let thread = rt_bind_thread(&mut rt);
    let value = mlisp_make_fixnum(42);
    assert_eq!(rt_raise(&mut rt, value), Value::unspecified().bits());
    assert!(rt_exception_pending(&rt));
    assert_eq!(rt_take_pending_exception(&mut rt), value);
    assert!(!rt_exception_pending(&rt));
    rt_unbind_thread(&mut rt, thread);
}

#[test]
fn appends_lists_through_runtime() {
    let mut rt = runtime(8);
    assert!(rt_mmtk_init(&mut rt));
    let thread = rt_bind_thread(&mut rt);
    let empty = Value::empty_list().bits();
    let left_tail = mlisp_alloc_pair(&mut rt, mlisp_make_fixnum(2), empty);
    let left = mlisp_alloc_pair(&mut rt, mlisp_make_fixnum(1), left_tail);
    let right = mlisp_alloc_pair(&mut rt, mlisp_make_fixnum(3), empty);
    let appended = mlisp_append(&mut rt, left, right);
    assert!(mlisp_is_list(&rt, appended));
    assert_eq!(
        Value::from_bits(mlisp_list_length(&rt, appended)).decode_fixnum(),
        Some(3)
    );
    assert_eq!(
        Value::from_bits(mlisp_list_ref(&rt, appended, 2)).decode_fixnum(),
        Some(3)
    );
    rt_unbind_thread(&mut rt, thread);
}

#[test]
fn finds_members_and_assoc_pairs_through_runtime() {
    let mut rt = runtime(16);
    assert!(rt_mmtk_init(&mut rt));
    let thread = rt_bind_thread(&mut rt);
    let empty = Value::empty_list().bits();
    let symbol_a = mlisp_alloc_symbol(&mut rt, b"a".to_vec());
    let symbol_b = mlisp_alloc_symbol(&mut rt, b"b".to_vec());
    let symbol_c = mlisp_alloc_symbol(&mut rt, b"c".to_vec());
    let c_tail = mlisp_alloc_pair(&mut rt, symbol_c, empty);
    let b_tail = mlisp_alloc_pair(&mut rt, symbol_b, c_tail);
    let list = mlisp_alloc_pair(&mut rt, symbol_a, b_tail);
    let found = mlisp_memq(&rt, symbol_b, list);
    assert!(mlisp_is_list(&rt, found));
    assert_eq!(found, b_tail);

    let pair_b = mlisp_alloc_pair(&mut rt, symbol_b, mlisp_make_fixnum(2));
    let alist = mlisp_alloc_pair(&mut rt, pair_b, empty);
    let assoc = mlisp_assq(&rt, symbol_b, alist);
    assert!(mlisp_is_pair(&rt, assoc));
    assert_eq!(assoc, pair_b);
    rt_unbind_thread(&mut rt, thread);
}

#[test]
fn mutates_and_copies_lists_through_runtime() {
    let mut rt = runtime(16);
    assert!(rt_mmtk_init(&mut rt));
    let thread = rt_bind_thread(&mut rt);
    let empty = Value::empty_list().bits();
    let tail = mlisp_alloc_pair(&mut rt, mlisp_make_fixnum(2), empty);
    let pair = mlisp_alloc_pair(&mut rt, mlisp_make_fixnum(1), tail);
    let rooted_pair = pair;
    rt.push_root_checked(thread, 0x8000).unwrap();
    assert_eq!(
        mlisp_pair_set_car(&mut rt, rooted_pair, mlisp_make_fixnum(9)),
        Value::unspecified().bits()
    );
    assert_eq!(mlisp_pair_set_cdr(&mut rt, rooted_pair, empty), Value::unspecified().bits());
    assert!(mlisp_is_pair(&rt, rooted_pair));
    assert_eq!(
        Value::from_bits(mlisp_pair_car(&rt, rooted_pair)).decode_fixnum(),
        Some(9)
    );
    assert_eq!(mlisp_pair_cdr(&rt, rooted_pair), empty);

    let appended = mlisp_append(&mut rt, rooted_pair, tail);
    let copied = mlisp_list_copy(&mut rt, appended);
    let reversed = mlisp_reverse(&mut rt, copied);
    assert_eq!(
        Value::from_bits(mlisp_list_ref(&rt, reversed, 0)).decode_fixnum(),
        Some(2)
    );
    assert_eq!(
        Value::from_bits(mlisp_list_ref(&rt, reversed, 1)).decode_fixnum(),
        Some(9)
    );
    rt.pop_root_checked(thread).unwrap();
    rt_unbind_thread(&mut rt, thread);
}

#[test]
fn allocates_and_mutates_vector_through_mmtk_runtime() {
    let mut rt = runtime(8);
    assert!(rt_mmtk_init(&mut rt));
    let thread = rt_bind_thread(&mut rt);
    let string = mlisp_alloc_string(&mut rt, b"ok".to_vec());
    let elements = [mlisp_make_fixnum(7), string];
    let vector = mlisp_alloc_vector(&mut rt, elements.to_vec());
    assert!(mlisp_is_vector(&rt, vector));
    assert_eq!(
        Value::from_bits(mlisp_vector_length(&rt, vector)).decode_fixnum(),
        Some(2)
    );
    assert_eq!(
        Value::from_bits(mlisp_vector_ref(&rt, vector, 0)).decode_fixnum(),
        Some(7)
    );
    assert_eq!(mlisp_vector_ref(&rt, vector, 1), string);

    let replacement = mlisp_alloc_pair(&mut rt, mlisp_make_fixnum(1), mlisp_make_fixnum(2));
    assert_eq!(
        mlisp_vector_set(&mut rt, vector, 1, replacement),
        Value::unspecified().bits()
    );
    rt_gc_poll(&rt, &GcState::new());
    assert_eq!(mlisp_vector_ref(&rt, vector, 1), replacement);
    rt_unbind_thread(&mut rt, thread);
}

#[test]
fn allocates_and_mutates_raw_vector_pointer_through_mmtk_runtime() {
    let mut rt = runtime(8);
    assert!(rt_mmtk_init(&mut rt));
    let thread = rt_bind_thread(&mut rt);
    let string = mlisp_alloc_string(&mut rt, b"gc".to_vec());
    let elements = [mlisp_make_fixnum(4), string];
    let vector = mlisp_alloc_vector_gc(&mut rt, elements.to_vec());
    assert_eq!(
        Value::from_bits(mlisp_vector_length_gc(&rt, vector)).decode_fixnum(),
        Some(2)
    );
    assert_eq!(
        Value::from_bits(mlisp_vector_ref_gc(&rt, vector, 0)).decode_fixnum(),
        Some(4)
    );
    let replacement = mlisp_alloc_pair(&mut rt, mlisp_make_fixnum(8), mlisp_make_fixnum(9));
    assert_eq!(
        mlisp_vector_set_gc(&mut rt, vector, 1, replacement),
        Value::unspecified().bits()
    );
    rt_gc_poll(&rt, &GcState::new());
    assert_eq!(mlisp_vector_ref_gc(&rt, vector, 1), replacement);
    rt_unbind_thread(&mut rt, thread);
}

#[test]
fn ffi_accessors_fail_closed_for_invalid_inputs() {
    let mut rt = runtime(1);
    assert_eq!(
        mlisp_pair_car(&rt, mlisp_make_fixnum(1)),
        Value::unspecified().bits()
    );
    assert_eq!(mlisp_pair_car_gc(&rt, 0), Value::unspecified().bits());
    rt_unbind_thread(&mut rt, 0);
}

#[test]
fn unbound_threads_cannot_allocate() {
    let mut rt = runtime(4);
    assert_eq!(rt.alloc_pair_checked(1, 3), Err(RuntimeError::InvalidThread));
    assert_eq!(rt.alloc_box_checked(1), Err(RuntimeError::InvalidThread));
    assert_eq!(rt.alloc_string_checked(vec![]), Err(RuntimeError::ThreadNotBound));
    assert_eq!(rt.alloc_vector_checked(vec![]), Err(RuntimeError::ThreadNotBound));
    assert_eq!(rt.alloc_vector_checked(vec![1]), Err(RuntimeError::InvalidThread));
    assert_eq!(rt.alloc_closure_checked(8, vec![1]), Err(RuntimeError::InvalidThread));
    assert_eq!(rt.raise_checked(1), Err(RuntimeError::ThreadNotBound));
    assert_eq!(rt.take_pending_exception_checked(), Err(RuntimeError::ThreadNotBound));
    assert_eq!(rt.exception_pending_checked(), Err(RuntimeError::ThreadNotBound));
    assert_eq!(rt.make_list(&vec![], 10), Err(RuntimeError::InvalidThread));
    assert_eq!(rt.gc_poll_current_checked(&GcState::new()), Err(RuntimeError::NotInitialized));
    assert!(rt_mmtk_init(&mut rt));
    assert_eq!(rt.gc_poll_current_checked(&GcState::new()), Err(RuntimeError::ThreadNotBound));
}

#[test]
fn allocation_fails_without_space() {
    let mut rt = runtime(1);
    rt_bind_thread(&mut rt);
    assert_eq!(rt.alloc_pair_checked(1, 3), Ok(0x10000 + 64));
    assert_eq!(rt.alloc_pair_checked(1, 3), Err(RuntimeError::AllocationFailed));
    assert_eq!(mlisp_alloc_pair(&mut rt, 1, 3), mlisp_unspecified());
    assert_eq!(mlisp_alloc_pair_gc(&mut rt, 1, 3), 0);
    assert_eq!(rt_alloc_slow(&mut rt, 24, 1), 0);
}

#[test]
fn space_takes_only_free_aligned_addresses() {
    let mut rt = Runtime::new();
    assert!(!rt.add_space(0));
    assert!(!rt.add_space(12));
    assert!(rt.add_space(16));
    assert!(!rt.add_space(16));
    rt_bind_thread(&mut rt);
    assert_eq!(rt.alloc_box_checked(1), Ok(16));
    assert!(!rt.add_space(16));
}

#[test]
fn root_stacks_push_and_pop() {
    let mut rt = runtime(1);
    let thread = rt_bind_thread(&mut rt);
    assert_eq!(rt.push_root_checked(0, 8), Err(RuntimeError::InvalidThread));
    assert_eq!(rt.push_root_checked(thread, 0), Err(RuntimeError::NullSlot));
    assert_eq!(rt.pop_root_checked(thread), Err(RuntimeError::ShadowStackUnderflow));
    rt_root_slot_push(&mut rt, 0x100);
    rt_root_slot_push(&mut rt, 0x200);
    assert_eq!(rt.threads[&thread].roots, [0x100, 0x200]);
    rt_root_slot_pop(&mut rt);
    assert_eq!(rt.threads[&thread].roots, [0x100]);
    assert_eq!(rt.pop_root_checked(thread), Ok(()));
    assert_eq!(rt.pop_root_checked(0), Err(RuntimeError::InvalidThread));
    assert_eq!(rt.register_global_root_checked(0), Err(RuntimeError::NullSlot));
    rt_register_global_root(&mut rt, 0x300);
    assert_eq!(rt.global_roots, [GlobalRoot::Slot(0x300)]);
}

#[test]
fn handles_of_threads_differ() {
    let mut rt = runtime(1);
    let first = rt_bind_thread(&mut rt);
    let second = rt_bind_thread(&mut rt);
    assert_ne!(first, second);
    assert_eq!(rt.current, second);
    rt_unbind_thread(&mut rt, second);
    assert_eq!(rt.current, 0);
    assert!(rt.threads.contains_key(&first));
    assert!(!rt.threads.contains_key(&second));
}

#[test]
fn the_same_name_gives_the_same_symbol() {
    let mut rt = runtime(4);
    rt_bind_thread(&mut rt);
    let first = mlisp_alloc_symbol(&mut rt, b"x".to_vec());
    let other = mlisp_alloc_symbol(&mut rt, b"y".to_vec());
    assert_eq!(mlisp_alloc_symbol(&mut rt, b"x".to_vec()), first);
    assert_eq!(mlisp_alloc_symbol_gc(&mut rt, b"x".to_vec()), first);
    assert_ne!(first, other);
}

#[test]
fn exceptions_are_taken_once() {
    let mut rt = runtime(1);
    rt_bind_thread(&mut rt);
    assert_eq!(rt.take_pending_exception_checked(), Err(RuntimeError::InvalidArgument));
    rt.raise_checked(5).unwrap();
    assert_eq!(rt.take_pending_exception_checked(), Ok(5));
    assert_eq!(rt_take_pending_exception(&mut rt), mlisp_unspecified());
}

#[test]
fn boxes_promises_and_closures_hold_values() {
    let mut rt = runtime(8);
    rt_bind_thread(&mut rt);
    let boxed = mlisp_alloc_box_gc(&mut rt, number(1));
    assert_eq!(mlisp_box_set_gc(&mut rt, boxed, number(2)), mlisp_unspecified());
    assert_eq!(shown(&mut rt, boxed), "#&2");
    let promise = mlisp_alloc_promise(&mut rt, number(3));
    assert!(!mlisp_promise_forced(&rt, promise));
    assert_eq!(mlisp_promise_value(&rt, promise), number(3));
    assert_eq!(mlisp_promise_resolve(&mut rt, promise, number(4)), number(4));
    assert!(mlisp_promise_forced_gc(&rt, promise));
    assert_eq!(mlisp_promise_value_gc(&rt, promise), number(4));
    let lazy = mlisp_alloc_promise_gc(&mut rt, number(3));
    assert_eq!(shown(&mut rt, lazy), "#<promise>");
    let closure = mlisp_alloc_closure_gc(&mut rt, 0xabc, vec![number(5), number(6)]);
    assert_eq!(mlisp_closure_code_ptr_gc(&rt, closure), 0xabc);
    assert_eq!(mlisp_closure_env_ref_gc(&rt, closure, 1), number(6));
    assert_eq!(mlisp_closure_env_ref_gc(&rt, closure, 2), mlisp_unspecified());
    mlisp_closure_env_set_gc(&mut rt, closure, 1, number(7));
    assert_eq!(mlisp_closure_env_ref_gc(&rt, closure, 1), number(7));
    assert_eq!(mlisp_closure_env_ref_gc(&rt, closure, 0), number(5));
    let other = mlisp_alloc_box(&mut rt, number(1));
    assert_eq!(mlisp_closure_code_ptr_gc(&rt, other), mlisp_unspecified());
}

#[test]
fn equality_looks_at_contents() {
    let mut rt = runtime(32);
    rt_bind_thread(&mut rt);
    let text = mlisp_alloc_string(&mut rt, b"ab".to_vec());
    let same = mlisp_alloc_string(&mut rt, b"ab".to_vec());
    let other = mlisp_alloc_string(&mut rt, b"ac".to_vec());
    assert!(mlisp_equal(&rt, text, same));
    assert!(!mlisp_equal(&rt, text, other));
    let left = list(&mut rt, &[number(1), text]);
    let right = list(&mut rt, &[number(1), same]);
    assert!(mlisp_equal(&rt, left, right));
    assert!(mlisp_equal(&rt, right, left));
    assert!(mlisp_equal(&rt, left, left));
    let left = mlisp_alloc_vector(&mut rt, vec![left, number(2)]);
    let right = mlisp_alloc_vector(&mut rt, vec![right, number(2)]);
    assert!(mlisp_equal(&rt, left, right));
    let shorter = mlisp_alloc_vector(&mut rt, vec![number(2)]);
    assert!(!mlisp_equal(&rt, left, shorter));
    assert!(!mlisp_equal(&rt, left, number(2)));
    assert!(!mlisp_equal(&rt, mlisp_make_bool(true), mlisp_make_bool(false)));
    let one = mlisp_alloc_promise(&mut rt, number(1));
    let two = mlisp_alloc_promise(&mut rt, number(1));
    assert!(!mlisp_equal(&rt, one, two));
}

#[test]
fn searches_compare_identities_or_contents() {
    let mut rt = runtime(32);
    rt_bind_thread(&mut rt);
    let text = mlisp_alloc_string(&mut rt, b"k".to_vec());
    let same = mlisp_alloc_string(&mut rt, b"k".to_vec());
    let items = list(&mut rt, &[number(1), text, number(3)]);
    assert_eq!(mlisp_memv(&rt, same, items), mlisp_make_bool(false));
    assert_eq!(mlisp_member(&rt, same, items), mlisp_list_tail(&rt, items, 1));
    let entry = mlisp_alloc_pair(&mut rt, text, number(9));
    let alist = list(&mut rt, &[entry]);
    assert_eq!(mlisp_assv(&rt, same, alist), mlisp_make_bool(false));
    assert_eq!(mlisp_assoc(&rt, same, alist), entry);
    assert_eq!(mlisp_assoc(&rt, same, items), mlisp_unspecified());
    assert_eq!(mlisp_memq(&rt, number(2), number(2)), mlisp_unspecified());
}

#[test]
fn values_are_shown_in_external_form() {
    let mut rt = runtime(32);
    rt_bind_thread(&mut rt);
    assert_eq!(shown(&mut rt, number(-12)), "-12");
    assert_eq!(shown(&mut rt, mlisp_make_bool(true)), "#t");
    assert_eq!(shown(&mut rt, mlisp_make_bool(false)), "#f");
    assert_eq!(shown(&mut rt, mlisp_empty_list()), "()");
    assert_eq!(shown(&mut rt, mlisp_unspecified()), "#<unspecified>");
    assert_eq!(shown(&mut rt, Value::encode_char(' ').bits()), "#\\space");
    assert_eq!(shown(&mut rt, Value::encode_char('\n').bits()), "#\\newline");
    assert_eq!(shown(&mut rt, Value::encode_char('\u{e9}').bits()), "#\\\u{e9}");
    let text = mlisp_alloc_string(&mut rt, b"hi".to_vec());
    let symbol = mlisp_alloc_symbol(&mut rt, b"sym".to_vec());
    assert_eq!(shown(&mut rt, text), "hi");
    assert_eq!(written(&mut rt, text), "\"hi\"");
    let inner = list(&mut rt, &[text]);
    let items = list(&mut rt, &[number(1), text, inner, symbol]);
    assert_eq!(shown(&mut rt, items), "(1 hi (hi) sym)");
    assert_eq!(written(&mut rt, items), "(1 \"hi\" (hi) sym)");
    let dotted = mlisp_alloc_pair(&mut rt, number(1), text);
    assert_eq!(shown(&mut rt, dotted), "(1 . hi)");
    assert_eq!(written(&mut rt, dotted), "(1 . \"hi\")");
    let vector = mlisp_alloc_vector(&mut rt, vec![number(1), text]);
    assert_eq!(shown(&mut rt, vector), "#(1 hi)");
    assert_eq!(written(&mut rt, vector), "#(1 \"hi\")");
    let values = mlisp_alloc_values(&mut rt, vec![1, 3]);
    assert_eq!(shown(&mut rt, values), "#<values 2>");
    let closure = mlisp_alloc_closure_gc(&mut rt, 1, vec![]);
    assert_eq!(shown(&mut rt, closure), "#<closure>");
    let raw = rt_alloc_slow(&mut rt, 24, 99);
    assert_eq!(shown(&mut rt, raw), "#<object>");
    rt.output.clear();
    mlisp_newline(&mut rt);
    assert_eq!(rt.output, b"\n");
}

#[test]
fn writing_stops_at_what_is_no_value() {
    let mut rt = runtime(8);
    rt_bind_thread(&mut rt);
    let vector = mlisp_alloc_vector(&mut rt, vec![number(1), 2 + 16, number(3)]);
    let mut out = Vec::new();
    assert!(!rt.write_value(&mut out, vector, false));
    assert_eq!(out, b"#(1 ");
    assert_eq!(rt.show(2 + 16, true), Err(RuntimeError::InvalidObjectKind));
}

#[test]
fn arithmetic_builtins_compute() {
    let mut rt = runtime(200);
    rt_bind_thread(&mut rt);
    let three = [number(12), number(-5), number(2)];
    assert_eq!(apply_to(&mut rt, apply::BUILTIN_ADD, &three), Ok(number(9)));
    assert_eq!(apply_to(&mut rt, apply::BUILTIN_SUB, &three), Ok(number(15)));
    assert_eq!(apply_to(&mut rt, apply::BUILTIN_MUL, &three), Ok(number(-120)));
    assert_eq!(apply_to(&mut rt, apply::BUILTIN_DIV, &three), Ok(number(-1)));
    assert_eq!(apply_to(&mut rt, apply::BUILTIN_DIV, &[number(-7), number(2)]), Ok(number(-3)));
    assert_eq!(apply_to(&mut rt, apply::BUILTIN_ADD, &[]), Ok(number(0)));
    assert_eq!(apply_to(&mut rt, apply::BUILTIN_MUL, &[]), Ok(number(1)));
    assert_eq!(apply_to(&mut rt, apply::BUILTIN_SUB, &[number(3)]), Ok(number(-3)));
    assert_eq!(apply_to(&mut rt, apply::BUILTIN_SUB, &[]), Err(RuntimeError::InvalidObjectKind));
    assert_eq!(apply_to(&mut rt, apply::BUILTIN_DIV, &[number(3)]), Err(RuntimeError::InvalidObjectKind));
    assert_eq!(
        apply_to(&mut rt, apply::BUILTIN_DIV, &[number(3), number(0)]),
        Err(RuntimeError::FixnumOutOfRange)
    );
    let large = number(Value::fixnum_max());
    assert_eq!(apply_to(&mut rt, apply::BUILTIN_ADD, &[large, number(1)]), Err(RuntimeError::FixnumOutOfRange));
    assert_eq!(apply_to(&mut rt, apply::BUILTIN_MUL, &[large, large]), Err(RuntimeError::FixnumOutOfRange));
    assert_eq!(
        apply_to(&mut rt, apply::BUILTIN_ADD, &[mlisp_empty_list()]),
        Err(RuntimeError::InvalidObjectKind)
    );
    assert_eq!(apply_to(&mut rt, apply::BUILTIN_ZERO_PREDICATE, &[number(0)]), Ok(mlisp_make_bool(true)));
    assert_eq!(apply_to(&mut rt, apply::BUILTIN_ZERO_PREDICATE, &[number(1)]), Ok(mlisp_make_bool(false)));
}

#[test]
fn character_builtins_compare_and_convert() {
    let mut rt = runtime(200);
    rt_bind_thread(&mut rt);
    let a = Value::encode_char('a').bits();
    let b = Value::encode_char('b').bits();
    let yes = Ok(mlisp_make_bool(true));
    let no = Ok(mlisp_make_bool(false));
    assert_eq!(apply_to(&mut rt, apply::BUILTIN_CHAR_LT, &[a, b]), yes);
    assert_eq!(apply_to(&mut rt, apply::BUILTIN_CHAR_GT, &[a, b]), no);
    assert_eq!(apply_to(&mut rt, apply::BUILTIN_CHAR_EQ, &[a, a, b]), no);
    assert_eq!(apply_to(&mut rt, apply::BUILTIN_CHAR_LE, &[a, a, b]), yes);
    assert_eq!(apply_to(&mut rt, apply::BUILTIN_CHAR_GE, &[b, a, a]), yes);
    assert_eq!(apply_to(&mut rt, apply::BUILTIN_CHAR_LT, &[a]), Err(RuntimeError::InvalidObjectKind));
    assert_eq!(apply_to(&mut rt, apply::BUILTIN_CHAR_LT, &[a, number(1)]), Err(RuntimeError::InvalidObjectKind));
    assert_eq!(apply_to(&mut rt, apply::BUILTIN_CHAR_TO_INTEGER, &[a]), Ok(number(97)));
    assert_eq!(apply_to(&mut rt, apply::BUILTIN_INTEGER_TO_CHAR, &[number(98)]), Ok(b));
    assert_eq!(
        apply_to(&mut rt, apply::BUILTIN_INTEGER_TO_CHAR, &[number(0xd800)]),
        Err(RuntimeError::InvalidObjectKind)
    );
    assert_eq!(
        apply_to(&mut rt, apply::BUILTIN_INTEGER_TO_CHAR, &[number(-1)]),
        Err(RuntimeError::InvalidObjectKind)
    );
}

#[test]
fn predicate_builtins_answer() {
    let mut rt = runtime(200);
    rt_bind_thread(&mut rt);
    let yes = Ok(mlisp_make_bool(true));
    let no = Ok(mlisp_make_bool(false));
    let text = mlisp_alloc_string(&mut rt, b"t".to_vec());
    let symbol = mlisp_alloc_symbol(&mut rt, b"s".to_vec());
    let vector = mlisp_alloc_vector(&mut rt, vec![]);
    let pair = mlisp_alloc_pair(&mut rt, 1, 3);
    for (id, word) in [
        (apply::BUILTIN_NOT, mlisp_make_bool(false)),
        (apply::BUILTIN_BOOLEAN_PREDICATE, mlisp_make_bool(true)),
        (apply::BUILTIN_CHAR_PREDICATE, Value::encode_char('c').bits()),
        (apply::BUILTIN_NULL_PREDICATE, mlisp_empty_list()),
        (apply::BUILTIN_SYMBOL_PREDICATE, symbol),
        (apply::BUILTIN_STRING_PREDICATE, text),
        (apply::BUILTIN_VECTOR_PREDICATE, vector),
        (apply::BUILTIN_PAIR_PREDICATE, pair),
        (apply::BUILTIN_LIST_PREDICATE, mlisp_empty_list()),
    ] {
        assert_eq!(apply_to(&mut rt, id, &[word]), yes);
        assert_eq!(apply_to(&mut rt, id, &[number(5)]), no);
        assert_eq!(apply_to(&mut rt, id, &[]), Err(RuntimeError::InvalidObjectKind));
    }
    assert_eq!(apply_to(&mut rt, apply::BUILTIN_PROCEDURE_PREDICATE, &[pair]), no);
    assert_eq!(apply_to(&mut rt, apply::BUILTIN_EQ, &[pair, pair]), yes);
    assert_eq!(apply_to(&mut rt, apply::BUILTIN_EQV, &[pair, vector]), no);
}

#[test]
fn list_builtins_build_and_take_apart() {
    let mut rt = runtime(400);
    rt_bind_thread(&mut rt);
    let items = list(&mut rt, &[number(1), number(2), number(3)]);
    let made = apply_to(&mut rt, apply::BUILTIN_LIST, &[number(4), number(5)]).unwrap();
    assert_eq!(shown(&mut rt, made), "(4 5)");
    let all = apply_to(&mut rt, apply::BUILTIN_APPEND, &[items, made, items]).unwrap();
    assert_eq!(shown(&mut rt, all), "(1 2 3 4 5 1 2 3)");
    assert_eq!(apply_to(&mut rt, apply::BUILTIN_APPEND, &[]), Ok(mlisp_empty_list()));
    let reversed = apply_to(&mut rt, apply::BUILTIN_REVERSE, &[items]).unwrap();
    assert_eq!(shown(&mut rt, reversed), "(3 2 1)");
    let copy = apply_to(&mut rt, apply::BUILTIN_LIST_COPY, &[items]).unwrap();
    assert_eq!(shown(&mut rt, copy), "(1 2 3)");
    assert_ne!(copy, items);
    assert_eq!(apply_to(&mut rt, apply::BUILTIN_CAR, &[items]), Ok(number(1)));
    assert_eq!(apply_to(&mut rt, apply::BUILTIN_LENGTH, &[items]), Ok(number(3)));
    assert_eq!(apply_to(&mut rt, apply::BUILTIN_LIST_REF, &[items, number(2)]), Ok(number(3)));
    assert_eq!(
        apply_to(&mut rt, apply::BUILTIN_LIST_REF, &[items, number(-1)]),
        Err(RuntimeError::IndexOutOfBounds)
    );
    assert_eq!(
        apply_to(&mut rt, apply::BUILTIN_LIST_REF, &[items, number(3)]),
        Err(RuntimeError::InvalidObjectKind)
    );
    let tail = apply_to(&mut rt, apply::BUILTIN_CDR, &[items]).unwrap();
    assert_eq!(apply_to(&mut rt, apply::BUILTIN_LIST_TAIL, &[items, number(1)]), Ok(tail));
    assert_eq!(apply_to(&mut rt, apply::BUILTIN_MEMQ, &[number(2), items]), Ok(tail));
    assert_eq!(apply_to(&mut rt, apply::BUILTIN_MEMBER, &[number(7), items]), Ok(mlisp_make_bool(false)));
    let pair = apply_to(&mut rt, apply::BUILTIN_CONS, &[number(8), number(9)]).unwrap();
    assert_eq!(apply_to(&mut rt, apply::BUILTIN_SET_CAR, &[pair, number(0)]), Ok(mlisp_unspecified()));
    assert_eq!(apply_to(&mut rt, apply::BUILTIN_SET_CDR, &[pair, mlisp_empty_list()]), Ok(mlisp_unspecified()));
    assert_eq!(shown(&mut rt, pair), "(0)");
    assert_eq!(apply_to(&mut rt, apply::BUILTIN_CAR, &[number(1)]), Err(RuntimeError::InvalidObjectKind));
    assert_eq!(apply_to(&mut rt, apply::BUILTIN_SET_CAR, &[number(1), number(1)]), Ok(mlisp_unspecified()));
    let alist = list(&mut rt, &[pair]);
    assert_eq!(apply_to(&mut rt, apply::BUILTIN_ASSQ, &[number(0), alist]), Ok(pair));
}

#[test]
fn string_and_vector_builtins_work() {
    let mut rt = runtime(200);
    rt_bind_thread(&mut rt);
    let text = mlisp_alloc_string(&mut rt, b"ab".to_vec());
    assert_eq!(apply_to(&mut rt, apply::BUILTIN_STRING_LENGTH, &[text]), Ok(number(2)));
    assert_eq!(apply_to(&mut rt, apply::BUILTIN_STRING_REF, &[text, number(1)]), Ok(number(98)));
    assert_eq!(apply_to(&mut rt, apply::BUILTIN_STRING_REF, &[text, number(2)]), Ok(mlisp_unspecified()));
    let symbol = apply_to(&mut rt, apply::BUILTIN_STRING_TO_SYMBOL, &[text]).unwrap();
    assert!(mlisp_is_symbol(&rt, symbol));
    let name = apply_to(&mut rt, apply::BUILTIN_SYMBOL_TO_STRING, &[symbol]).unwrap();
    assert!(mlisp_equal(&rt, name, text));
    let vector = apply_to(&mut rt, apply::BUILTIN_VECTOR, &[number(1), text]).unwrap();
    assert_eq!(apply_to(&mut rt, apply::BUILTIN_VECTOR_LENGTH, &[vector]), Ok(number(2)));
    assert_eq!(apply_to(&mut rt, apply::BUILTIN_VECTOR_REF, &[vector, number(1)]), Ok(text));
    assert_eq!(
        apply_to(&mut rt, apply::BUILTIN_VECTOR_SET, &[vector, number(0), number(6)]),
        Ok(mlisp_unspecified())
    );
    assert_eq!(shown(&mut rt, vector), "#(6 ab)");
    assert_eq!(apply_to(&mut rt, apply::BUILTIN_EQUAL, &[text, name]), Ok(mlisp_make_bool(true)));
    assert_eq!(
        apply_to(&mut rt, apply::BUILTIN_VECTOR_REF, &[vector, number(-1)]),
        Err(RuntimeError::IndexOutOfBounds)
    );
}

#[test]
fn effects_of_builtins_show() {
    let mut rt = runtime(400);
    rt_bind_thread(&mut rt);
    let text = mlisp_alloc_string(&mut rt, b"x".to_vec());
    apply_to(&mut rt, apply::BUILTIN_DISPLAY, &[text]).unwrap();
    apply_to(&mut rt, apply::BUILTIN_WRITE, &[text]).unwrap();
    apply_to(&mut rt, apply::BUILTIN_NEWLINE, &[]).unwrap();
    assert_eq!(rt.output, b"x\"x\"\n");
    assert_eq!(apply_to(&mut rt, apply::BUILTIN_RAISE, &[number(4)]), Ok(mlisp_unspecified()));
    assert_eq!(rt_take_pending_exception(&mut rt), number(4));
    assert_eq!(apply_to(&mut rt, apply::BUILTIN_ERROR, &[]), Err(RuntimeError::InvalidArgument));
    assert_eq!(apply_to(&mut rt, apply::BUILTIN_ERROR, &[text, number(1)]), Ok(mlisp_unspecified()));
    let error = rt_take_pending_exception(&mut rt);
    assert_eq!(shown(&mut rt, error), "(error x 1)");
    let before = rt.objects.len();
    assert_eq!(apply_to(&mut rt, apply::BUILTIN_GC_STRESS, &[number(3)]), Ok(mlisp_unspecified()));
    assert_eq!(rt.objects.len(), before + 10);
    assert_eq!(mlisp_gc_stress(&mut rt, 1), mlisp_unspecified());
    assert_eq!(apply_to(&mut rt, 57, &[]), Err(RuntimeError::InvalidObjectKind));
    assert_eq!(mlisp_apply_builtin(&mut rt, 65536 + 57, mlisp_empty_list()), mlisp_unspecified());
    assert_eq!(rt.apply_builtin_value(apply::BUILTIN_ADD, number(1)), Err(RuntimeError::InvalidObjectKind));
    assert_eq!(mlisp_apply_builtin(&mut rt, 0, mlisp_empty_list()), number(0));
}

#[test]
fn words_of_objects_are_replaced_in_place() {
    let mut rt = runtime(4);
    rt_bind_thread(&mut rt);
    let word = word_bytes();
    let pair = mlisp_alloc_pair(&mut rt, number(1), number(2));
    rt_object_write_post(&mut rt, pair, pair + word + 8 + word, number(7));
    assert_eq!(mlisp_pair_cdr(&rt, pair), number(7));
    assert_eq!(mlisp_pair_car(&rt, pair), number(1));
    let vector = mlisp_alloc_vector(&mut rt, vec![number(1), number(2)]);
    rt_object_write_post(&mut rt, vector, vector + 2 * word + 8, number(9));
    assert_eq!(mlisp_vector_ref(&rt, vector, 0), number(9));
    rt_object_write_post(&mut rt, 0, vector + 2 * word + 8, number(3));
    rt_object_write_post(&mut rt, vector, 0, number(3));
    assert_eq!(rt.object_write_post_checked(vector, 0, number(3)), Err(RuntimeError::NullSlot));
    rt_object_write_post(&mut rt, 0, 0, number(3));
    assert_eq!(shown(&mut rt, vector), "#(9 2)");
}

#[test]
fn words_are_stored_wherever_they_stand() {
    let mut rt = runtime(8);
    rt_bind_thread(&mut rt);
    let word = word_bytes();
    let header = word + 8;
    let promise = mlisp_alloc_promise(&mut rt, number(1));
    rt_object_write_post(&mut rt, promise, promise + header, number(5));
    assert_eq!(mlisp_promise_value(&rt, promise), number(5));
    assert!(!mlisp_promise_forced(&rt, promise));
    rt_object_write_post(&mut rt, promise, promise + header + word, 1);
    assert!(mlisp_promise_forced(&rt, promise));
    let packet = mlisp_alloc_values(&mut rt, vec![number(1), number(2)]);
    rt_object_write_post(&mut rt, packet, packet + header + 2 * word, number(6));
    assert_eq!(mlisp_values_ref(&rt, packet, 0), number(1));
    assert_eq!(mlisp_values_ref(&rt, packet, 1), number(6));
    let closure = mlisp_alloc_closure_gc(&mut rt, 40, vec![number(1)]);
    rt_object_write_post(&mut rt, closure, closure + header, 48);
    assert_eq!(mlisp_closure_code_ptr_gc(&rt, closure), 48);
    assert_eq!(mlisp_closure_env_ref_gc(&rt, closure, 0), number(1));
    // The word belongs to another object than the one on whose behalf it is stored, or to none.
    let pair = mlisp_alloc_pair(&mut rt, number(1), number(2));
    rt_object_write_post(&mut rt, closure, pair + header, number(7));
    assert_eq!(mlisp_pair_car(&rt, pair), number(7));
    rt_object_write_post(&mut rt, pair, 0x100, number(8));
    assert_eq!(shown(&mut rt, pair), "(7 . 2)");
    assert!(rt.can_store(pair + header));
    assert!(rt.can_store(0x100));
    assert!(!rt.can_store(pair));
    assert!(!rt.can_store(packet + header));
    assert!(!rt.can_store(pair + header + 1));
    // Without a bound thread the word is stored, but the collector cannot be told.
    rt.current = 0;
    assert_eq!(rt.object_write_post_checked(pair, pair + header, packet), Err(RuntimeError::ThreadNotBound));
    assert_eq!(mlisp_pair_car(&rt, pair), packet);
}

#[test]
fn interned_symbols_are_global_roots() {
    let mut rt = runtime(3);
    rt_bind_thread(&mut rt);
    let first = mlisp_alloc_symbol(&mut rt, b"one".to_vec());
    assert_eq!(mlisp_alloc_symbol(&mut rt, b"one".to_vec()), first);
    rt_register_global_root(&mut rt, 0x300);
    mlisp_alloc_symbol(&mut rt, b"two".to_vec());
    assert_eq!(
        rt.global_roots,
        [GlobalRoot::Symbol(b"one".to_vec()), GlobalRoot::Slot(0x300), GlobalRoot::Symbol(b"two".to_vec())]
    );
}

#[test]
fn objects_have_sizes_and_slots() {
    let word = word_bytes();
    let pair = Object::Pair { car: 1, cdr: 3 };
    assert_eq!(pair.size(), Some(3 * word + 8));
    assert_eq!(pair.scan(0x1000), [0x1000 + word + 8, 0x1000 + 2 * word + 8]);
    assert_eq!(pair.tag(), HEADER_TAG_PAIR);
    let vector = Object::Vector(vec![1, 3, 5]);
    assert_eq!(vector.size(), Some(2 * word + 8 + 3 * word));
    assert_eq!(vector.scan(0).len(), 3);
    assert_eq!(HeapKind::Vector.as_tag(), HEADER_TAG_VECTOR);
    assert_eq!(Object::Text(b"abc".to_vec()).size(), Some(2 * word + 8 + 3));
    assert!(Object::Text(b"abc".to_vec()).scan(0).is_empty());
    let closure = Object::Closure { code_ptr: 1, env: vec![1] };
    assert_eq!(closure.scan(0), [3 * word + 8]);
    let packet = Object::Values(vec![1, 3]);
    assert_eq!(packet.scan(0x1000), [0x1000 + 2 * word + 8, 0x1000 + 3 * word + 8]);
    let promise = Object::Promise { value: 1, forced: false };
    assert_eq!(promise.scan(0x1000), [0x1000 + word + 8]);
    assert_eq!(promise.find_slot(0x1000, 0x1000 + word + 8), Some(0));
    assert_eq!(promise.find_slot(0x1000, 0x1000 + 2 * word + 8), None);
}

#[test]
fn rows_of_words_are_walked_in_order() {
    let word = word_bytes();
    let slice = ValueMemorySlice::new(64, 2);
    assert_eq!(slice.bytes(), 2 * word);
    let mut slots = slice.iter_slots();
    assert_eq!(slots.next(), Some(ValueSlot::from_ptr(64)));
    assert_eq!(slots.next(), Some(ValueSlot(64 + word)));
    assert_eq!(slots.next(), None);
}

#[test]
fn threads_stop_for_collections() {
    let mut rt = runtime(1);
    let mut gc = GcState::new();
    let first = rt_bind_thread(&mut rt);
    let second = rt_bind_thread(&mut rt);
    assert_eq!(rt_gc_poll(&rt, &gc), None);
    let epoch = gc.stop_all_mutators();
    assert_eq!(epoch, 1);
    assert_eq!(rt_gc_poll(&rt, &gc), Some(1));
    assert!(!rt.all_blocked(epoch));
    rt.block_thread(first, epoch);
    assert!(!rt.all_blocked(epoch));
    rt.block_thread(second, epoch);
    assert!(rt.all_blocked(epoch));
    gc.resume_mutators();
    rt.block_thread(first, 0);
    assert_eq!(gc.stop_for_gc(), None);
    rt_unbind_thread(&mut rt, first);
    assert!(rt.all_blocked(epoch));
}

#[test]
fn heaps_are_not_too_small() {
    assert_eq!(heap_options(5, 0).bytes, 1024 * 1024);
    assert_eq!(heap_options(5, 0).workers, 1);
    assert_eq!(heap_options(8 * 1024 * 1024, 3).bytes, 8 * 1024 * 1024);
    assert_eq!(heap_options(8 * 1024 * 1024, 3).workers, 3);
}

#[test]
fn errors_have_texts() {
    assert_eq!(RuntimeError::NotInitialized.text(), "runtime is not initialized");
    assert_eq!(RuntimeError::ThreadNotBound.text(), "current thread is not bound to the runtime");
    assert_eq!(RuntimeError::InvalidThread.text(), "invalid runtime thread handle");
    assert_eq!(RuntimeError::InvalidObjectKind.text(), "invalid object kind");
    assert_eq!(RuntimeError::IndexOutOfBounds.text(), "index out of bounds");
    assert_eq!(RuntimeError::InvalidArgument.text(), "invalid runtime argument");
    assert_eq!(RuntimeError::NullSlot.text(), "slot pointer must not be null");
    assert_eq!(RuntimeError::ShadowStackUnderflow.text(), "shadow stack underflow");
    assert_eq!(RuntimeError::AllocationFailed.text(), "allocation failed");
    assert_eq!(RuntimeError::FixnumOutOfRange.text(), "fixnum does not fit in tagged representation");
    assert_eq!(RuntimeError::WorkerThreadPanicked.text(), "worker thread panicked");
    assert_eq!(RuntimeError::InvalidTrampolineState.text(), "invalid trampoline state");
}

#[test]
fn records_have_headers() {
    let word = word_bytes();
    let pair = PairObject::new(Value::from_bits(3), Value::from_bits(5));
    assert_eq!(pair.header.kind, HeapKind::Pair.as_tag());
    assert_eq!(pair.header.bytes as usize, 3 * word + 8);
    assert_eq!((pair.car().bits(), pair.cdr().bits()), (3, 5));
    let boxed = BoxObject::new(Value::from_bits(7));
    assert_eq!(boxed.header.bytes as usize, 2 * word + 8);
    assert_eq!(boxed.value().bits(), 7);
    let closure = ClosureObject::new(0x40, 2, 48);
    assert_eq!((closure.code_ptr, closure.env_len, closure.header.bytes), (0x40, 2, 48));
    assert_eq!(StringObject::new(3, 27).header.kind, HeapKind::String.as_tag());
    assert_eq!(SymbolObject::new(3, 27).header.kind, HeapKind::Symbol.as_tag());
    assert_eq!(VectorObject::new(3, 48).length, 3);
}

#[test]
fn callers_that_know_better_need_no_checks() {
    let mut rt = runtime(8);
    assert_eq!(rt.initialize_runtime(4096, 0), Some(HeapOptions { bytes: 4096, workers: 1 }));
    assert_eq!(rt.initialize_runtime(4096, 2), None);
    let thread = rt_bind_thread(&mut rt);
    let pair = rt.alloc_pair(number(1), number(2));
    assert_eq!(mlisp_pair_cdr(&rt, pair), number(2));
    let boxed = rt.alloc_box(pair);
    assert_eq!(shown(&mut rt, boxed), "#&(1 . 2)");
    let closure = rt.alloc_closure(64, vec![number(3)]);
    assert_eq!(mlisp_closure_env_ref_gc(&rt, closure, 0), number(3));
    rt.alloc_raw(32, 77);
    rt.object_write_post(pair, pair + 2 * word_bytes() + 8, mlisp_empty_list());
    assert_eq!(shown(&mut rt, pair), "(1)");
    rt.register_global_root(0x500);
    rt.push_root_handle(thread, 0x600);
    assert_eq!(rt.threads[&thread].roots, [0x600]);
    rt.pop_root_handle(thread);
    assert_eq!(rt.gc_poll_current(&GcState::new()), None);
    let symbol = rt.alloc_symbol_checked(b"s".to_vec()).unwrap();
    assert_ne!(symbol, mlisp_alloc_symbol(&mut rt, b"s".to_vec()));
    assert_eq!(RuntimeError::io_like("broken pipe"), RuntimeError::InvalidArgument);
}

#[test]
fn moved_objects_are_referred_to_where_they_stand() {
    let mut rt = runtime(8);
    let thread = rt_bind_thread(&mut rt);
    let symbol = mlisp_alloc_symbol(&mut rt, b"s".to_vec());
    let pair = mlisp_alloc_pair(&mut rt, symbol, number(2));
    let vector = mlisp_alloc_vector(&mut rt, vec![pair, number(1), pair]);
    let closure = mlisp_alloc_closure_gc(&mut rt, pair, vec![pair, vector]);
    let promise = mlisp_alloc_promise(&mut rt, vector);
    rt_raise(&mut rt, pair);
    let space = rt.space.clone();
    // The pair comes to stand where the vector stood.
    let moves = HashMap::from([(pair, vector), (vector, 0x80000), (symbol, 0x80040), (closure, closure)]);
    rt.relocate(&moves);
    assert_eq!(move_word(&moves, pair), vector);
    assert_eq!(move_word(&moves, number(2)), number(2));
    assert_eq!(rt.objects.len(), 5);
    assert_eq!(mlisp_pair_car(&rt, vector), 0x80040);
    assert_eq!(mlisp_pair_cdr(&rt, vector), number(2));
    assert_eq!(shown(&mut rt, 0x80000), "#((s . 2) 1 (s . 2))");
    assert_eq!(mlisp_closure_code_ptr_gc(&rt, closure), pair);
    assert_eq!(mlisp_closure_env_ref_gc(&rt, closure, 0), vector);
    assert_eq!(mlisp_closure_env_ref_gc(&rt, closure, 1), 0x80000);
    assert_eq!(mlisp_promise_value(&rt, promise), 0x80000);
    assert_eq!(mlisp_alloc_symbol(&mut rt, b"s".to_vec()), 0x80040);
    assert_eq!(rt.threads[&thread].pending, Some(vector));
    assert_eq!(rt.space, space);
    assert!(!rt.forget(pair));
    assert!(rt.forget(closure));
    assert!(!rt.forget(closure));
    assert!(!rt.forget(0x80040), "interned symbols stay");
    assert_eq!(rt.objects.len(), 4);
}

#[test]
fn rounds_of_allocation_are_numbered() {
    let mut rt = runtime(6);
    rt_bind_thread(&mut rt);
    assert_eq!(rt.gc_stress_checked(2), Ok(()));
    let firsts: Vec<usize> = rt
        .objects
        .values()
        .filter_map(|object| match object {
            Object::Vector(elements) => Some(elements[0]),
            _ => None,
        })
        .collect();
    assert_eq!(firsts.len(), 2);
    assert!(firsts.contains(&number(0)) && firsts.contains(&number(1)));
    assert_eq!(rt.gc_stress_round(2), Err(RuntimeError::AllocationFailed));
    rt.current = 0;
    assert_eq!(rt.gc_stress_checked(0), Err(RuntimeError::ThreadNotBound));
}

#[test]
fn appending_keeps_both_lists() {
    let mut rt = runtime(8);
    rt_bind_thread(&mut rt);
    let left = list(&mut rt, &[number(1), number(2)]);
    let right = list(&mut rt, &[number(3)]);
    let whole = mlisp_append(&mut rt, left, right);
    assert_eq!(shown(&mut rt, whole), "(1 2 3)");
    assert_eq!(shown(&mut rt, left), "(1 2)");
    assert_eq!(shown(&mut rt, right), "(3)");
}
