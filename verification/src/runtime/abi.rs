//! The functions that compiled code calls. Words go in and words come out: where a function
//! fails, it hands back the unspecified value, false or zero.
use crate::runtime::access::{
    box_changed, captured_changed, car_changed, cdr_changed, element_at, encoded, promise_resolved,
    string_byte, string_interned, string_length, symbol_named, values_element, values_length, values_listed, vector_changed,
    vector_element, vector_length, word_stored,
};
use crate::runtime::access::{after_write, encode, encode_length};
use crate::runtime::apply::{application_ends, builtin_applied, or_unspecified, shown, stressed};
use crate::runtime::compare::{
    assoc_found, assoc_search_ends, comparison_ends, equal_contents, member_found, member_search_ends,
};
use crate::runtime::error::RuntimeError;
use crate::runtime::gc::GcState;
use crate::runtime::heap::{
    allocated, allocated_rooted, allocated_row, exception_taken, object_at, raised, root_popped, root_pushed, storable,
    tag_at, thread_bound, thread_unbound, with_symbol, Outcome, Root, Runtime, World,
};
use crate::runtime::layout::{
    ObjectHeader, BOOL_FALSE, BOOL_TRUE, EMPTY_LIST, HEADER_TAG_PAIR, HEADER_TAG_STRING, HEADER_TAG_SYMBOL,
    HEADER_TAG_VALUES, HEADER_TAG_VECTOR, UNSPECIFIED,
};
use crate::runtime::lists::{
    appended, chain_ends, element_of, elements_of, list_copied, list_reversed, pair_at, tail_of,
};
use crate::runtime::object::Thing;
use crate::runtime::unchecked::HeapOptions;
use crate::runtime::writer::{put_text, scheme_text_ends, scheme_text_of, text_ends};
use vstd::prelude::*;
use vstd::utf8::encode_utf8;

verus! {

broadcast use vstd::seq_lib::group_seq_properties;

/// The state after a call and the word that it hands back.
pub open spec fn word_of(outcome: Outcome<usize>) -> (World, usize) {
    (outcome.0, or_unspecified(outcome.1))
}

/// The state after a call and the address that it hands back: zero where it fails.
pub open spec fn address_of(outcome: Outcome<usize>) -> (World, usize) {
    (
        outcome.0,
        match outcome.1 {
            Ok(address) => address,
            Err(_) => 0,
        },
    )
}

fn ffi_word(result: Result<usize, RuntimeError>) -> (word: usize)
    ensures
        word == or_unspecified(result),
{
    match result {
        Ok(word) => word,
        Err(_) => UNSPECIFIED,
    }
}

fn ffi_ptr(result: Result<usize, RuntimeError>) -> (address: usize)
    ensures
        address == (match result {
            Ok(address) => address,
            Err(_) => 0,
        }),
{
    match result {
        Ok(address) => address,
        Err(_) => 0,
    }
}

fn ffi_bool(result: Result<bool, RuntimeError>) -> (flag: bool)
    ensures
        flag == (result == Ok::<bool, RuntimeError>(true)),
{
    match result {
        Ok(flag) => flag,
        Err(_) => false,
    }
}

/// How large the heap is made that was asked for: at least a mebibyte, with at least one thread
/// that collects garbage.
pub fn heap_options(heap_size_bytes: usize, worker_count: usize) -> (options: HeapOptions)
    ensures
        options.bytes == (if heap_size_bytes < 1048576 { 1048576 } else { heap_size_bytes }),
        options.workers == (if worker_count < 1 { 1 } else { worker_count }),
{
    HeapOptions {
        bytes: if heap_size_bytes < 1048576 {
            1048576
        } else {
            heap_size_bytes
        },
        workers: if worker_count < 1 {
            1
        } else {
            worker_count
        },
    }
}

/// Says that there is a heap.
pub fn rt_mmtk_init(runtime: &mut Runtime) -> (done: bool)
    requires
        old(runtime)@.well_formed(),
    ensures
        final(runtime)@.well_formed(),
        final(runtime)@ == (World { initialized: true, ..old(runtime)@ }),
        done,
{
    runtime.initialized = true;
    assert(runtime@ == (World { initialized: true, ..old(runtime)@ }));
    true
}

/// Binds the calling thread.
pub fn rt_bind_thread(runtime: &mut Runtime) -> (handle: usize)
    requires
        old(runtime)@.well_formed(),
    ensures
        final(runtime)@.well_formed(),
        (final(runtime)@, handle) == thread_bound(old(runtime)@),
{
    runtime.bind_thread_handle()
}

/// Unbinds a thread. Nothing happens where the handle is zero.
pub fn rt_unbind_thread(runtime: &mut Runtime, thread: usize)
    requires
        old(runtime)@.well_formed(),
    ensures
        final(runtime)@.well_formed(),
        final(runtime)@ == (if thread == 0 {
            old(runtime)@
        } else {
            thread_unbound(old(runtime)@, thread)
        }),
{
    if thread != 0 {
        runtime.unbind_thread_handle(thread);
    }
}

/// For which collection the calling thread has to stop now, if it is bound and has to.
pub fn rt_gc_poll(runtime: &Runtime, state: &GcState) -> (epoch: Option<u64>)
    requires
        runtime@.well_formed(),
    ensures
        epoch == (if runtime@.current != 0 && state.requested {
            Some(state.epoch)
        } else {
            None
        }),
{
    match runtime.gc_poll_current_checked(state) {
        Ok(epoch) => epoch,
        Err(_) => None,
    }
}

/// The same, at a place that the compiler has put into the code.
pub fn gc_safepoint_poll(runtime: &Runtime, state: &GcState) -> (epoch: Option<u64>)
    requires
        runtime@.well_formed(),
    ensures
        epoch == (if runtime@.current != 0 && state.requested {
            Some(state.epoch)
        } else {
            None
        }),
{
    rt_gc_poll(runtime, state)
}

/// Stores a word at an address on behalf of the object at `src`, if there is one. The word may stand
/// in any object or in none, but not where an object keeps its header, a length or bytes.
pub fn rt_object_write_post(runtime: &mut Runtime, src: usize, slot: usize, target: usize)
    requires
        old(runtime)@.well_formed(),
        src != 0 && slot != 0 ==> storable(old(runtime)@.objects, slot),
    ensures
        final(runtime)@.well_formed(),
        final(runtime)@ == (if src == 0 {
            old(runtime)@
        } else {
            word_stored(old(runtime)@, slot, target).0
        }),
{
    if src != 0 {
        let _ = runtime.object_write_post_checked(src, slot, target);
    }
}

/// Pushes a root slot for the calling thread.
pub fn rt_root_slot_push(runtime: &mut Runtime, slot: usize)
    requires
        old(runtime)@.well_formed(),
    ensures
        final(runtime)@.well_formed(),
        final(runtime)@ == root_pushed(old(runtime)@, old(runtime)@.current, slot).0,
{
    let thread: usize = runtime.current;
    let _ = runtime.push_root_checked(thread, slot);
}

/// Pops the last root slot of the calling thread.
pub fn rt_root_slot_pop(runtime: &mut Runtime)
    requires
        old(runtime)@.well_formed(),
    ensures
        final(runtime)@.well_formed(),
        final(runtime)@ == root_popped(old(runtime)@, old(runtime)@.current).0,
{
    let thread: usize = runtime.current;
    let _ = runtime.pop_root_checked(thread);
}

/// Lets the collector follow a word outside of the heap for good.
pub fn rt_register_global_root(runtime: &mut Runtime, slot: usize)
    requires
        old(runtime)@.well_formed(),
    ensures
        final(runtime)@.well_formed(),
        final(runtime)@ == (if slot == 0 || !old(runtime)@.initialized {
            old(runtime)@
        } else {
            World { global_roots: old(runtime)@.global_roots.push(Root::Slot(slot)), ..old(runtime)@ }
        }),
{
    let _ = runtime.register_global_root_checked(slot);
}

/// Whether an exception is pending in the calling thread.
pub fn rt_exception_pending(runtime: &Runtime) -> (pending: bool)
    requires
        runtime@.well_formed(),
    ensures
        pending == (runtime@.current != 0 && runtime@.threads[runtime@.current].pending is Some),
{
    ffi_bool(runtime.exception_pending_checked())
}

/// Raises an exception in the calling thread.
pub fn rt_raise(runtime: &mut Runtime, value: usize) -> (word: usize)
    requires
        old(runtime)@.well_formed(),
    ensures
        final(runtime)@.well_formed(),
        final(runtime)@ == raised(old(runtime)@, value).0,
        word == UNSPECIFIED,
{
    let _ = runtime.raise_checked(value);
    UNSPECIFIED
}

/// The word of an integer.
pub fn mlisp_make_fixnum(value: i64) -> (word: usize)
    ensures
        word == or_unspecified(encoded(value as int)),
{
    ffi_word(encode(value))
}

/// The word of a truth value.
pub fn mlisp_make_bool(value: bool) -> (word: usize)
    ensures
        word == (if value { BOOL_TRUE } else { BOOL_FALSE }),
{
    if value {
        BOOL_TRUE
    } else {
        BOOL_FALSE
    }
}

/// The empty list.
pub fn mlisp_empty_list() -> (word: usize)
    ensures
        word == EMPTY_LIST,
{
    EMPTY_LIST
}

/// The unspecified value.
pub fn mlisp_unspecified() -> (word: usize)
    ensures
        word == UNSPECIFIED,
{
    UNSPECIFIED
}

/// Writes a value with strings quoted behind what was written before.
pub fn mlisp_write(runtime: &mut Runtime, value: usize) -> (word: usize)
    requires
        old(runtime)@.well_formed(),
        scheme_text_ends(old(runtime)@.objects, value),
    ensures
        final(runtime)@.well_formed(),
        final(runtime)@ == (World {
            output: old(runtime)@.output + scheme_text_of(old(runtime)@.objects, value).bytes,
            ..old(runtime)@
        }),
        word == UNSPECIFIED,
{
    let mut text: Vec<u8> = Vec::new();
    let _ = runtime.write_scheme_value(&mut text, value);
    assert(text@ =~= scheme_text_of(runtime@.objects, value).bytes);
    runtime.put_output(text);
    UNSPECIFIED
}

/// Writes the end of a line behind what was written before.
pub fn mlisp_newline(runtime: &mut Runtime) -> (word: usize)
    requires
        old(runtime)@.well_formed(),
    ensures
        final(runtime)@.well_formed(),
        final(runtime)@ == (World { output: old(runtime)@.output + encode_utf8("\n"@), ..old(runtime)@ }),
        word == UNSPECIFIED,
{
    let mut text: Vec<u8> = Vec::new();
    put_text(&mut text, "\n");
    assert(text@ =~= encode_utf8("\n"@));
    runtime.put_output(text);
    UNSPECIFIED
}

/// Whether two values have the same contents.
pub fn mlisp_equal(runtime: &Runtime, left: usize, right: usize) -> (equal: bool)
    requires
        runtime@.well_formed(),
        comparison_ends(runtime@.objects, left, right),
    ensures
        equal == equal_contents(runtime@.objects, left, right),
{
    runtime.equal_value(left, right)
}

/// Calls a built-in procedure with a list of arguments. Of the number only the low sixteen bits
/// count.
pub fn mlisp_apply_builtin(runtime: &mut Runtime, id: usize, args: usize) -> (word: usize)
    requires
        old(runtime)@.well_formed(),
        application_ends(old(runtime)@, (id % 65536) as u16, args),
    ensures
        final(runtime)@.well_formed(),
        (final(runtime)@, word) == word_of(builtin_applied(old(runtime)@, (id % 65536) as u16, args)),
{
    ffi_word(runtime.apply_builtin_value((id % 65536) as u16, args))
}

/// Whether a word is a list.
pub fn mlisp_is_list(runtime: &Runtime, value: usize) -> (result: bool)
    requires
        runtime@.well_formed(),
        chain_ends(runtime@.objects, value),
    ensures
        result == (elements_of(runtime@.objects, value) is Ok),
{
    runtime.is_proper_list(value)
}

/// The number of elements of a list.
pub fn mlisp_list_length(runtime: &Runtime, value: usize) -> (word: usize)
    requires
        runtime@.well_formed(),
        chain_ends(runtime@.objects, value),
    ensures
        word == or_unspecified(
            match elements_of(runtime@.objects, value) {
                Ok(elements) => encoded(elements.len() as int),
                Err(error) => Err(error),
            },
        ),
{
    match runtime.proper_list_length(value) {
        Ok(length) => ffi_word(encode_length(length)),
        Err(_) => UNSPECIFIED,
    }
}

/// Whether a promise is forced.
pub fn mlisp_promise_forced(runtime: &Runtime, value: usize) -> (result: bool)
    requires
        runtime@.well_formed(),
    ensures
        result == (object_at(runtime@.objects, value) matches Some(Thing::Promise { value: _, forced }) && forced),
{
    match runtime.promise(value) {
        Ok((_, forced)) => forced,
        Err(_) => false,
    }
}

/// The value of a promise.
pub fn mlisp_promise_value(runtime: &Runtime, value: usize) -> (word: usize)
    requires
        runtime@.well_formed(),
    ensures
        word == (match object_at(runtime@.objects, value) {
            Some(Thing::Promise { value: inner, forced }) => inner,
            _ => UNSPECIFIED,
        }),
{
    match runtime.promise(value) {
        Ok((inner, _)) => inner,
        Err(_) => UNSPECIFIED,
    }
}

/// The code of a closure.
pub fn mlisp_closure_code_ptr_gc(runtime: &Runtime, closure: usize) -> (word: usize)
    requires
        runtime@.well_formed(),
    ensures
        word == (match object_at(runtime@.objects, closure) {
            Some(Thing::Closure { code_ptr, env }) => code_ptr,
            _ => UNSPECIFIED,
        }),
{
    ffi_word(runtime.closure_code(closure))
}

/// A captured value of a closure.
pub fn mlisp_closure_env_ref_gc(runtime: &Runtime, closure: usize, index: usize) -> (word: usize)
    requires
        runtime@.well_formed(),
    ensures
        word == (match object_at(runtime@.objects, closure) {
            Some(Thing::Closure { code_ptr, env }) => or_unspecified(element_at(env, index as nat)),
            _ => UNSPECIFIED,
        }),
{
    ffi_word(runtime.closure_ref(closure, index))
}

/// Makes an object of any kind, of which only the header is known.
pub fn rt_alloc_slow(runtime: &mut Runtime, size: usize, kind: u16) -> (address: usize)
    requires
        old(runtime)@.well_formed(),
    ensures
        final(runtime)@.well_formed(),
        (final(runtime)@, address) == address_of(allocated(
            old(runtime)@,
            Thing::Raw(ObjectHeader { metadata: 0, kind, flags: 0, bytes: size as u32 }),
        )),
{
    ffi_ptr(runtime.alloc_raw_checked(size, kind))
}

/// Takes the pending exception of the calling thread.
pub fn rt_take_pending_exception(runtime: &mut Runtime) -> (word: usize)
    requires
        old(runtime)@.well_formed(),
    ensures
        final(runtime)@.well_formed(),
        (final(runtime)@, word) == word_of(exception_taken(old(runtime)@)),
{
    ffi_word(runtime.take_pending_exception_checked())
}

/// Makes many objects and keeps none.
pub fn mlisp_gc_stress(runtime: &mut Runtime, iterations: usize) -> (word: usize)
    requires
        old(runtime)@.well_formed(),
    ensures
        final(runtime)@.well_formed(),
        (final(runtime)@, word) == word_of(
            after_write(stressed(old(runtime)@, iterations as nat), UNSPECIFIED),
        ),
{
    match runtime.gc_stress_checked(iterations) {
        Ok(()) => ffi_word(Ok(UNSPECIFIED)),
        Err(error) => ffi_word(Err(error)),
    }
}

/// Writes a value behind what was written before.
pub fn mlisp_display(runtime: &mut Runtime, value: usize) -> (word: usize)
    requires
        old(runtime)@.well_formed(),
        text_ends(old(runtime)@.objects, value, false),
    ensures
        final(runtime)@.well_formed(),
        (final(runtime)@, word) == word_of(shown(old(runtime)@, value, false)),
{
    ffi_word(runtime.show(value, false))
}

/// Makes a pair.
pub fn mlisp_alloc_pair(runtime: &mut Runtime, car: usize, cdr: usize) -> (word: usize)
    requires
        old(runtime)@.well_formed(),
    ensures
        final(runtime)@.well_formed(),
        (final(runtime)@, word) == word_of(allocated_rooted(old(runtime)@, Thing::Pair { car, cdr })),
{
    ffi_word(runtime.alloc_pair_checked(car, cdr))
}

/// Makes a box.
pub fn mlisp_alloc_box(runtime: &mut Runtime, value: usize) -> (word: usize)
    requires
        old(runtime)@.well_formed(),
    ensures
        final(runtime)@.well_formed(),
        (final(runtime)@, word) == word_of(allocated_rooted(old(runtime)@, Thing::Boxed(value))),
{
    ffi_word(runtime.alloc_box_checked(value))
}

/// Makes a promise.
pub fn mlisp_alloc_promise(runtime: &mut Runtime, value: usize) -> (word: usize)
    requires
        old(runtime)@.well_formed(),
    ensures
        final(runtime)@.well_formed(),
        (final(runtime)@, word) == word_of(allocated_rooted(
            old(runtime)@,
            Thing::Promise { value, forced: false },
        )),
{
    ffi_word(runtime.alloc_promise_checked(value))
}

/// Makes a closure.
pub fn mlisp_alloc_closure(runtime: &mut Runtime, code_ptr: usize, env: Vec<usize>) -> (word: usize)
    requires
        old(runtime)@.well_formed(),
    ensures
        final(runtime)@.well_formed(),
        (final(runtime)@, word) == word_of(allocated_row(
            old(runtime)@,
            env@.len(),
            Thing::Closure { code_ptr, env: env@ },
        )),
{
    ffi_word(runtime.alloc_closure_checked(code_ptr, env))
}

/// Makes a string.
pub fn mlisp_alloc_string(runtime: &mut Runtime, bytes: Vec<u8>) -> (word: usize)
    requires
        old(runtime)@.well_formed(),
    ensures
        final(runtime)@.well_formed(),
        (final(runtime)@, word) == word_of(allocated(old(runtime)@, Thing::Text(bytes@))),
{
    ffi_word(runtime.alloc_string_checked(bytes))
}

/// Finds or makes the symbol with a name.
pub fn mlisp_alloc_symbol(runtime: &mut Runtime, bytes: Vec<u8>) -> (word: usize)
    requires
        old(runtime)@.well_formed(),
    ensures
        final(runtime)@.well_formed(),
        (final(runtime)@, word) == word_of(with_symbol(old(runtime)@, bytes@)),
{
    ffi_word(runtime.intern_symbol(bytes))
}

/// Makes a vector.
pub fn mlisp_alloc_vector(runtime: &mut Runtime, values: Vec<usize>) -> (word: usize)
    requires
        old(runtime)@.well_formed(),
    ensures
        final(runtime)@.well_formed(),
        (final(runtime)@, word) == word_of(allocated_row(old(runtime)@, values@.len(), Thing::Vector(values@))),
{
    ffi_word(runtime.alloc_vector_checked(values))
}

/// Makes a pair and hands back its address.
pub fn mlisp_alloc_pair_gc(runtime: &mut Runtime, car: usize, cdr: usize) -> (address: usize)
    requires
        old(runtime)@.well_formed(),
    ensures
        final(runtime)@.well_formed(),
        (final(runtime)@, address) == address_of(allocated_rooted(old(runtime)@, Thing::Pair { car, cdr })),
{
    ffi_ptr(runtime.alloc_pair_checked(car, cdr))
}

/// Makes a box and hands back its address.
pub fn mlisp_alloc_box_gc(runtime: &mut Runtime, value: usize) -> (address: usize)
    requires
        old(runtime)@.well_formed(),
    ensures
        final(runtime)@.well_formed(),
        (final(runtime)@, address) == address_of(allocated_rooted(old(runtime)@, Thing::Boxed(value))),
{
    ffi_ptr(runtime.alloc_box_checked(value))
}

/// Makes a promise and hands back its address.
pub fn mlisp_alloc_promise_gc(runtime: &mut Runtime, value: usize) -> (address: usize)
    requires
        old(runtime)@.well_formed(),
    ensures
        final(runtime)@.well_formed(),
        (final(runtime)@, address) == address_of(allocated_rooted(
            old(runtime)@,
            Thing::Promise { value, forced: false },
        )),
{
    ffi_ptr(runtime.alloc_promise_checked(value))
}

/// Makes a closure and hands back its address.
pub fn mlisp_alloc_closure_gc(runtime: &mut Runtime, code_ptr: usize, env: Vec<usize>) -> (address: usize)
    requires
        old(runtime)@.well_formed(),
    ensures
        final(runtime)@.well_formed(),
        (final(runtime)@, address) == address_of(allocated_row(
            old(runtime)@,
            env@.len(),
            Thing::Closure { code_ptr, env: env@ },
        )),
{
    ffi_ptr(runtime.alloc_closure_checked(code_ptr, env))
}

/// Makes a string and hands back its address.
pub fn mlisp_alloc_string_gc(runtime: &mut Runtime, bytes: Vec<u8>) -> (address: usize)
    requires
        old(runtime)@.well_formed(),
    ensures
        final(runtime)@.well_formed(),
        (final(runtime)@, address) == address_of(allocated(old(runtime)@, Thing::Text(bytes@))),
{
    ffi_ptr(runtime.alloc_string_checked(bytes))
}

/// Finds or makes the symbol with a name and hands back its address.
pub fn mlisp_alloc_symbol_gc(runtime: &mut Runtime, bytes: Vec<u8>) -> (address: usize)
    requires
        old(runtime)@.well_formed(),
    ensures
        final(runtime)@.well_formed(),
        (final(runtime)@, address) == address_of(with_symbol(old(runtime)@, bytes@)),
{
    ffi_ptr(runtime.intern_symbol(bytes))
}

/// Makes a vector and hands back its address.
pub fn mlisp_alloc_vector_gc(runtime: &mut Runtime, values: Vec<usize>) -> (address: usize)
    requires
        old(runtime)@.well_formed(),
    ensures
        final(runtime)@.well_formed(),
        (final(runtime)@, address) == address_of(allocated_row(old(runtime)@, values@.len(), Thing::Vector(values@))),
{
    ffi_ptr(runtime.alloc_vector_checked(values))
}

/// Makes a packet of values.
pub fn mlisp_alloc_values(runtime: &mut Runtime, values: Vec<usize>) -> (word: usize)
    requires
        old(runtime)@.well_formed(),
    ensures
        final(runtime)@.well_formed(),
        (final(runtime)@, word) == word_of(allocated_row(old(runtime)@, values@.len(), Thing::Values(values@))),
{
    ffi_word(runtime.alloc_values_checked(values))
}

/// Puts another value into a box.
pub fn mlisp_box_set_gc(runtime: &mut Runtime, boxed: usize, value: usize) -> (word: usize)
    requires
        old(runtime)@.well_formed(),
    ensures
        final(runtime)@.well_formed(),
        (final(runtime)@, word) == word_of(box_changed(old(runtime)@, boxed, value)),
{
    ffi_word(runtime.box_set(boxed, value))
}

/// Forces a promise to a value.
pub fn mlisp_promise_resolve(runtime: &mut Runtime, promise: usize, resolved: usize) -> (word: usize)
    requires
        old(runtime)@.well_formed(),
    ensures
        final(runtime)@.well_formed(),
        (final(runtime)@, word) == word_of(promise_resolved(old(runtime)@, promise, resolved)),
{
    ffi_word(runtime.promise_resolve(promise, resolved))
}

/// Replaces the first part of a pair.
pub fn mlisp_pair_set_car(runtime: &mut Runtime, pair: usize, element: usize) -> (word: usize)
    requires
        old(runtime)@.well_formed(),
    ensures
        final(runtime)@.well_formed(),
        (final(runtime)@, word) == word_of(car_changed(old(runtime)@, pair, element)),
{
    ffi_word(runtime.pair_set_car(pair, element))
}

/// Replaces the second part of a pair.
pub fn mlisp_pair_set_cdr(runtime: &mut Runtime, pair: usize, element: usize) -> (word: usize)
    requires
        old(runtime)@.well_formed(),
    ensures
        final(runtime)@.well_formed(),
        (final(runtime)@, word) == word_of(cdr_changed(old(runtime)@, pair, element)),
{
    ffi_word(runtime.pair_set_cdr(pair, element))
}

/// Replaces an element of a vector.
pub fn mlisp_vector_set(runtime: &mut Runtime, vector: usize, index: usize, element: usize) -> (word: usize)
    requires
        old(runtime)@.well_formed(),
    ensures
        final(runtime)@.well_formed(),
        (final(runtime)@, word) == word_of(vector_changed(old(runtime)@, vector, index as nat, element)),
{
    ffi_word(runtime.vector_set(vector, index, element))
}

/// The number of bytes of a string.
pub fn mlisp_string_length(runtime: &Runtime, string: usize) -> (word: usize)
    requires
        runtime@.well_formed(),
    ensures
        word == or_unspecified(string_length(runtime@.objects, string)),
{
    ffi_word(runtime.string_length(string))
}

/// A byte of a string.
pub fn mlisp_string_ref(runtime: &Runtime, string: usize, index: usize) -> (word: usize)
    requires
        runtime@.well_formed(),
    ensures
        word == or_unspecified(string_byte(runtime@.objects, string, index as nat)),
{
    ffi_word(runtime.string_ref(string, index))
}

/// The number of elements of a vector.
pub fn mlisp_vector_length(runtime: &Runtime, vector: usize) -> (word: usize)
    requires
        runtime@.well_formed(),
    ensures
        word == or_unspecified(vector_length(runtime@.objects, vector)),
{
    ffi_word(runtime.vector_length(vector))
}

/// An element of a vector.
pub fn mlisp_vector_ref(runtime: &Runtime, vector: usize, index: usize) -> (word: usize)
    requires
        runtime@.well_formed(),
    ensures
        word == or_unspecified(vector_element(runtime@.objects, vector, index as nat)),
{
    ffi_word(runtime.vector_ref(vector, index))
}

/// The first part of a pair.
pub fn mlisp_pair_car(runtime: &Runtime, pair: usize) -> (word: usize)
    requires
        runtime@.well_formed(),
    ensures
        word == (match pair_at(runtime@.objects, pair) {
            Some((car, cdr)) => car,
            None => UNSPECIFIED,
        }),
{
    match runtime.pair(pair) {
        Some((car, _)) => car,
        None => UNSPECIFIED,
    }
}

/// The second part of a pair.
pub fn mlisp_pair_cdr(runtime: &Runtime, pair: usize) -> (word: usize)
    requires
        runtime@.well_formed(),
    ensures
        word == (match pair_at(runtime@.objects, pair) {
            Some((car, cdr)) => cdr,
            None => UNSPECIFIED,
        }),
{
    match runtime.pair(pair) {
        Some((_, cdr)) => cdr,
        None => UNSPECIFIED,
    }
}

/// Forces a promise to a value, given its address.
pub fn mlisp_promise_resolve_gc(runtime: &mut Runtime, promise: usize, resolved: usize) -> (word: usize)
    requires
        old(runtime)@.well_formed(),
    ensures
        final(runtime)@.well_formed(),
        (final(runtime)@, word) == word_of(promise_resolved(old(runtime)@, promise, resolved)),
{
    ffi_word(runtime.promise_resolve(promise, resolved))
}

/// Replaces the first part of a pair, given its address.
pub fn mlisp_pair_set_car_gc(runtime: &mut Runtime, pair: usize, element: usize) -> (word: usize)
    requires
        old(runtime)@.well_formed(),
    ensures
        final(runtime)@.well_formed(),
        (final(runtime)@, word) == word_of(car_changed(old(runtime)@, pair, element)),
{
    ffi_word(runtime.pair_set_car(pair, element))
}

/// Replaces the second part of a pair, given its address.
pub fn mlisp_pair_set_cdr_gc(runtime: &mut Runtime, pair: usize, element: usize) -> (word: usize)
    requires
        old(runtime)@.well_formed(),
    ensures
        final(runtime)@.well_formed(),
        (final(runtime)@, word) == word_of(cdr_changed(old(runtime)@, pair, element)),
{
    ffi_word(runtime.pair_set_cdr(pair, element))
}

/// Replaces an element of a vector, given its address.
pub fn mlisp_vector_set_gc(runtime: &mut Runtime, vector: usize, index: usize, element: usize) -> (word: usize)
    requires
        old(runtime)@.well_formed(),
    ensures
        final(runtime)@.well_formed(),
        (final(runtime)@, word) == word_of(vector_changed(old(runtime)@, vector, index as nat, element)),
{
    ffi_word(runtime.vector_set(vector, index, element))
}

/// The number of bytes of a string, given its address.
pub fn mlisp_string_length_gc(runtime: &Runtime, string: usize) -> (word: usize)
    requires
        runtime@.well_formed(),
    ensures
        word == or_unspecified(string_length(runtime@.objects, string)),
{
    ffi_word(runtime.string_length(string))
}

/// A byte of a string, given its address.
pub fn mlisp_string_ref_gc(runtime: &Runtime, string: usize, index: usize) -> (word: usize)
    requires
        runtime@.well_formed(),
    ensures
        word == or_unspecified(string_byte(runtime@.objects, string, index as nat)),
{
    ffi_word(runtime.string_ref(string, index))
}

/// The number of elements of a vector, given its address.
pub fn mlisp_vector_length_gc(runtime: &Runtime, vector: usize) -> (word: usize)
    requires
        runtime@.well_formed(),
    ensures
        word == or_unspecified(vector_length(runtime@.objects, vector)),
{
    ffi_word(runtime.vector_length(vector))
}

/// An element of a vector, given its address.
pub fn mlisp_vector_ref_gc(runtime: &Runtime, vector: usize, index: usize) -> (word: usize)
    requires
        runtime@.well_formed(),
    ensures
        word == or_unspecified(vector_element(runtime@.objects, vector, index as nat)),
{
    ffi_word(runtime.vector_ref(vector, index))
}

/// The first part of a pair, given its address.
pub fn mlisp_pair_car_gc(runtime: &Runtime, pair: usize) -> (word: usize)
    requires
        runtime@.well_formed(),
    ensures
        word == (match pair_at(runtime@.objects, pair) {
            Some((car, cdr)) => car,
            None => UNSPECIFIED,
        }),
{
    match runtime.pair(pair) {
        Some((car, _)) => car,
        None => UNSPECIFIED,
    }
}

/// The second part of a pair, given its address.
pub fn mlisp_pair_cdr_gc(runtime: &Runtime, pair: usize) -> (word: usize)
    requires
        runtime@.well_formed(),
    ensures
        word == (match pair_at(runtime@.objects, pair) {
            Some((car, cdr)) => cdr,
            None => UNSPECIFIED,
        }),
{
    match runtime.pair(pair) {
        Some((_, cdr)) => cdr,
        None => UNSPECIFIED,
    }
}

/// Replaces a captured value of a closure.
pub fn mlisp_closure_env_set_gc(runtime: &mut Runtime, closure: usize, index: usize, value: usize) -> (word: usize)
    requires
        old(runtime)@.well_formed(),
    ensures
        final(runtime)@.well_formed(),
        (final(runtime)@, word) == word_of(captured_changed(old(runtime)@, closure, index as nat, value)),
{
    ffi_word(runtime.closure_set(closure, index, value))
}

/// Whether a promise is forced, given its address.
pub fn mlisp_promise_forced_gc(runtime: &Runtime, promise: usize) -> (result: bool)
    requires
        runtime@.well_formed(),
    ensures
        result == (object_at(runtime@.objects, promise) matches Some(Thing::Promise { value: _, forced }) && forced),
{
    mlisp_promise_forced(runtime, promise)
}

/// The value of a promise, given its address.
pub fn mlisp_promise_value_gc(runtime: &Runtime, promise: usize) -> (word: usize)
    requires
        runtime@.well_formed(),
    ensures
        word == (match object_at(runtime@.objects, promise) {
            Some(Thing::Promise { value: inner, forced }) => inner,
            _ => UNSPECIFIED,
        }),
{
    mlisp_promise_value(runtime, promise)
}

/// A new string with the name of a symbol.
pub fn mlisp_symbol_to_string(runtime: &mut Runtime, value: usize) -> (word: usize)
    requires
        old(runtime)@.well_formed(),
    ensures
        final(runtime)@.well_formed(),
        (final(runtime)@, word) == word_of(symbol_named(old(runtime)@, value)),
{
    ffi_word(runtime.symbol_to_string(value))
}

/// The symbol whose name is a string.
pub fn mlisp_string_to_symbol(runtime: &mut Runtime, value: usize) -> (word: usize)
    requires
        old(runtime)@.well_formed(),
    ensures
        final(runtime)@.well_formed(),
        (final(runtime)@, word) == word_of(string_interned(old(runtime)@, value)),
{
    ffi_word(runtime.string_to_symbol(value))
}

/// The number of values in a packet.
pub fn mlisp_values_length(runtime: &Runtime, value: usize) -> (word: usize)
    requires
        runtime@.well_formed(),
    ensures
        word == or_unspecified(values_length(runtime@.objects, value)),
{
    ffi_word(runtime.values_length(value))
}

/// A value of a packet.
pub fn mlisp_values_ref(runtime: &Runtime, value: usize, index: usize) -> (word: usize)
    requires
        runtime@.well_formed(),
    ensures
        word == or_unspecified(values_element(runtime@.objects, value, index as nat)),
{
    ffi_word(runtime.values_ref(value, index))
}

/// A new list of the values of a packet from one on.
pub fn mlisp_values_tail_list(runtime: &mut Runtime, value: usize, start: usize) -> (word: usize)
    requires
        old(runtime)@.well_formed(),
    ensures
        final(runtime)@.well_formed(),
        (final(runtime)@, word) == word_of(values_listed(old(runtime)@, value, start as nat)),
{
    ffi_word(runtime.values_tail_list(value, start))
}

/// Whether a word refers to a string.
pub fn mlisp_is_string(runtime: &Runtime, value: usize) -> (result: bool)
    requires
        runtime@.well_formed(),
    ensures
        result == (tag_at(runtime@.objects, value) == Some(HEADER_TAG_STRING)),
{
    runtime.has_tag(value, HEADER_TAG_STRING)
}

/// Whether a word refers to a symbol.
pub fn mlisp_is_symbol(runtime: &Runtime, value: usize) -> (result: bool)
    requires
        runtime@.well_formed(),
    ensures
        result == (tag_at(runtime@.objects, value) == Some(HEADER_TAG_SYMBOL)),
{
    runtime.has_tag(value, HEADER_TAG_SYMBOL)
}

/// Whether a word refers to a vector.
pub fn mlisp_is_vector(runtime: &Runtime, value: usize) -> (result: bool)
    requires
        runtime@.well_formed(),
    ensures
        result == (tag_at(runtime@.objects, value) == Some(HEADER_TAG_VECTOR)),
{
    runtime.has_tag(value, HEADER_TAG_VECTOR)
}

/// Whether a word refers to a packet of values.
pub fn mlisp_is_values(runtime: &Runtime, value: usize) -> (result: bool)
    requires
        runtime@.well_formed(),
    ensures
        result == (tag_at(runtime@.objects, value) == Some(HEADER_TAG_VALUES)),
{
    runtime.has_tag(value, HEADER_TAG_VALUES)
}

/// Whether a word refers to a pair.
pub fn mlisp_is_pair(runtime: &Runtime, value: usize) -> (result: bool)
    requires
        runtime@.well_formed(),
    ensures
        result == (tag_at(runtime@.objects, value) == Some(HEADER_TAG_PAIR)),
{
    runtime.has_tag(value, HEADER_TAG_PAIR)
}

/// What follows so many pairs.
pub fn mlisp_list_tail(runtime: &Runtime, value: usize, index: usize) -> (word: usize)
    requires
        runtime@.well_formed(),
    ensures
        word == or_unspecified(tail_of(runtime@.objects, value, index as nat)),
{
    ffi_word(runtime.list_tail_value(value, index))
}

/// The element of a list that follows so many others.
pub fn mlisp_list_ref(runtime: &Runtime, value: usize, index: usize) -> (word: usize)
    requires
        runtime@.well_formed(),
    ensures
        word == or_unspecified(element_of(runtime@.objects, value, index as nat)),
{
    ffi_word(runtime.list_ref_value(value, index))
}

/// A list, copied, before another.
pub fn mlisp_append(runtime: &mut Runtime, left: usize, right: usize) -> (word: usize)
    requires
        old(runtime)@.well_formed(),
        chain_ends(old(runtime)@.objects, left),
    ensures
        final(runtime)@.well_formed(),
        (final(runtime)@, word) == word_of(appended(old(runtime)@, left, right)),
{
    ffi_word(runtime.append_two_lists(left, right))
}

/// A copy of a list.
pub fn mlisp_list_copy(runtime: &mut Runtime, value: usize) -> (word: usize)
    requires
        old(runtime)@.well_formed(),
        chain_ends(old(runtime)@.objects, value),
    ensures
        final(runtime)@.well_formed(),
        (final(runtime)@, word) == word_of(list_copied(old(runtime)@, value)),
{
    ffi_word(runtime.copy_list(value))
}

/// The elements of a list in the opposite order.
pub fn mlisp_reverse(runtime: &mut Runtime, value: usize) -> (word: usize)
    requires
        old(runtime)@.well_formed(),
        chain_ends(old(runtime)@.objects, value),
    ensures
        final(runtime)@.well_formed(),
        (final(runtime)@, word) == word_of(list_reversed(old(runtime)@, value)),
{
    ffi_word(runtime.reverse_list(value))
}

/// The part of a list that starts with the value itself, or false.
pub fn mlisp_memq(runtime: &Runtime, value: usize, list: usize) -> (word: usize)
    requires
        runtime@.well_formed(),
        member_search_ends(runtime@.objects, value, list, false),
    ensures
        word == or_unspecified(member_found(runtime@.objects, value, list, false)),
{
    ffi_word(runtime.member_with(value, list, false))
}

/// The part of a list that starts with the value itself, or false.
pub fn mlisp_memv(runtime: &Runtime, value: usize, list: usize) -> (word: usize)
    requires
        runtime@.well_formed(),
        member_search_ends(runtime@.objects, value, list, false),
    ensures
        word == or_unspecified(member_found(runtime@.objects, value, list, false)),
{
    ffi_word(runtime.member_with(value, list, false))
}

/// The part of a list that starts with a value with the same contents, or false.
pub fn mlisp_member(runtime: &Runtime, value: usize, list: usize) -> (word: usize)
    requires
        runtime@.well_formed(),
        member_search_ends(runtime@.objects, value, list, true),
    ensures
        word == or_unspecified(member_found(runtime@.objects, value, list, true)),
{
    ffi_word(runtime.member_with(value, list, true))
}

/// The first pair of a list of pairs that starts with the value itself, or false.
pub fn mlisp_assq(runtime: &Runtime, value: usize, list: usize) -> (word: usize)
    requires
        runtime@.well_formed(),
        assoc_search_ends(runtime@.objects, value, list, false),
    ensures
        word == or_unspecified(assoc_found(runtime@.objects, value, list, false)),
{
    ffi_word(runtime.assoc_with(value, list, false))
}

/// The first pair of a list of pairs that starts with the value itself, or false.
pub fn mlisp_assv(runtime: &Runtime, value: usize, list: usize) -> (word: usize)
    requires
        runtime@.well_formed(),
        assoc_search_ends(runtime@.objects, value, list, false),
    ensures
        word == or_unspecified(assoc_found(runtime@.objects, value, list, false)),
{
    ffi_word(runtime.assoc_with(value, list, false))
}

/// The first pair of a list of pairs that starts with a value with the same contents, or false.
pub fn mlisp_assoc(runtime: &Runtime, value: usize, list: usize) -> (word: usize)
    requires
        runtime@.well_formed(),
        assoc_search_ends(runtime@.objects, value, list, true),
    ensures
        word == or_unspecified(assoc_found(runtime@.objects, value, list, true)),
{
    ffi_word(runtime.assoc_with(value, list, true))
}

} // verus!
