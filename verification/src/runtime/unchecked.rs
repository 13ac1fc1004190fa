//! The operations of the runtime for callers that know them to succeed.
use crate::runtime::access::word_stored;
use crate::runtime::error::RuntimeError;
use crate::runtime::gc::GcState;
use crate::runtime::heap::{
    allocated, allocated_row, allocated_rooted, root_popped, root_pushed, storable, Root, Runtime, World,
};
use crate::runtime::layout::ObjectHeader;
use crate::runtime::object::Thing;
use vstd::prelude::*;

verus! {

/// How large the heap is to be, and how many threads collect garbage.
#[derive(Clone, Copy, Debug, PartialEq, Eq, Structural)]
pub struct HeapOptions {
    pub bytes: usize,
    pub workers: usize,
}

impl Runtime {
    /// Says that there is a heap. Returns how to make it, unless there was one before.
    pub fn initialize_runtime(&mut self, heap_size_bytes: usize, worker_count: usize) -> (options: Option<HeapOptions>)
        requires
            old(self)@.well_formed(),
        ensures
            final(self)@.well_formed(),
            final(self)@ == (World { initialized: true, ..old(self)@ }),
            options == (if old(self)@.initialized {
                None
            } else {
                Some(
                    HeapOptions {
                        bytes: heap_size_bytes,
                        workers: if worker_count < 1 { 1 } else { worker_count },
                    },
                )
            }),
    {
        if self.initialized {
            assert(self@ == (World { initialized: true, ..old(self)@ }));
            return None;
        }
        self.initialized = true;
        assert(self@ == (World { initialized: true, ..old(self)@ }));
        let workers: usize = if worker_count < 1 { 1 } else { worker_count };
        Some(HeapOptions { bytes: heap_size_bytes, workers })
    }

    /// Makes an object of which only the header is known.
    pub fn alloc_raw(&mut self, size: usize, kind: u16) -> (address: usize)
        requires
            old(self)@.well_formed(),
            allocated(
                old(self)@,
                Thing::Raw(ObjectHeader { metadata: 0, kind, flags: 0, bytes: size as u32 }),
            ).1 is Ok,
        ensures
            final(self)@.well_formed(),
            (final(self)@, Ok::<usize, RuntimeError>(address)) == allocated(
                old(self)@,
                Thing::Raw(ObjectHeader { metadata: 0, kind, flags: 0, bytes: size as u32 }),
            ),
    {
        self.alloc_raw_checked(size, kind).unwrap()
    }

    /// Makes a pair.
    pub fn alloc_pair(&mut self, car: usize, cdr: usize) -> (address: usize)
        requires
            old(self)@.well_formed(),
            allocated_rooted(old(self)@, Thing::Pair { car, cdr }).1 is Ok,
        ensures
            final(self)@.well_formed(),
            (final(self)@, Ok::<usize, RuntimeError>(address)) == allocated_rooted(old(self)@, Thing::Pair { car, cdr }),
    {
        self.alloc_pair_checked(car, cdr).unwrap()
    }

    /// Makes a box.
    pub fn alloc_box(&mut self, value: usize) -> (address: usize)
        requires
            old(self)@.well_formed(),
            allocated_rooted(old(self)@, Thing::Boxed(value)).1 is Ok,
        ensures
            final(self)@.well_formed(),
            (final(self)@, Ok::<usize, RuntimeError>(address)) == allocated_rooted(old(self)@, Thing::Boxed(value)),
    {
        self.alloc_box_checked(value).unwrap()
    }

    /// Makes a closure.
    pub fn alloc_closure(&mut self, code_ptr: usize, env: Vec<usize>) -> (address: usize)
        requires
            old(self)@.well_formed(),
            allocated_row(old(self)@, env@.len(), Thing::Closure { code_ptr, env: env@ }).1 is Ok,
        ensures
            final(self)@.well_formed(),
            (final(self)@, Ok::<usize, RuntimeError>(address)) == allocated_row(
                old(self)@,
                env@.len(),
                Thing::Closure { code_ptr, env: env@ },
            ),
    {
        self.alloc_closure_checked(code_ptr, env).unwrap()
    }

    /// Stores a word at an address on behalf of the object at `src`.
    pub fn object_write_post(&mut self, src: usize, slot: usize, target: usize)
        requires
            old(self)@.well_formed(),
            src != 0,
            slot != 0 ==> storable(old(self)@.objects, slot),
            word_stored(old(self)@, slot, target).1 is Ok,
        ensures
            final(self)@.well_formed(),
            final(self)@ == word_stored(old(self)@, slot, target).0,
    {
        self.object_write_post_checked(src, slot, target).unwrap()
    }

    /// Tells the collector about a slot that outlives all threads.
    pub fn register_global_root(&mut self, slot: usize)
        requires
            old(self)@.well_formed(),
            slot != 0,
            old(self)@.initialized,
        ensures
            final(self)@.well_formed(),
            final(self)@ == (World { global_roots: old(self)@.global_roots.push(Root::Slot(slot)), ..old(self)@ }),
    {
        self.register_global_root_checked(slot).unwrap()
    }

    /// Tells the collector about a slot of a thread.
    pub fn push_root_handle(&mut self, thread: usize, slot: usize)
        requires
            old(self)@.well_formed(),
            root_pushed(old(self)@, thread, slot).1 is Ok,
        ensures
            final(self)@.well_formed(),
            final(self)@ == root_pushed(old(self)@, thread, slot).0,
    {
        self.push_root_checked(thread, slot).unwrap()
    }

    /// Has the collector forget the last slot of a thread.
    pub fn pop_root_handle(&mut self, thread: usize)
        requires
            old(self)@.well_formed(),
            root_popped(old(self)@, thread).1 is Ok,
        ensures
            final(self)@.well_formed(),
            final(self)@ == root_popped(old(self)@, thread).0,
    {
        self.pop_root_checked(thread).unwrap()
    }

    /// For which collection the calling thread has to stop now, if it has to.
    pub fn gc_poll_current(&self, state: &GcState) -> (epoch: Option<u64>)
        requires
            self@.well_formed(),
            self@.initialized,
            self@.current != 0,
        ensures
            epoch == (if state.requested { Some(state.epoch) } else { None }),
    {
        self.gc_poll_current_checked(state).unwrap()
    }
}

} // verus!
