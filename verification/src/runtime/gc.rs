//! Stopping the threads for a collection, and the words that a collection follows.
use crate::runtime::error::RuntimeError;
use crate::runtime::heap::{Context, Runtime, ThreadContext, World};
use crate::runtime::object::{copy_words, word_bytes, word_size};
use vstd::prelude::*;

verus! {

broadcast use {vstd::seq_lib::group_seq_properties, vstd::std_specs::hash::group_hash_axioms};

/// Whether the threads are asked to stop, and for which collection.
#[derive(Clone, Copy, Debug, PartialEq, Eq, Structural)]
pub struct GcState {
    pub requested: bool,
    pub epoch: u64,
}

impl GcState {
    /// Nobody has been asked to stop yet.
    pub fn new() -> (state: Self)
        ensures
            state == (GcState { requested: false, epoch: 0 }),
    {
        GcState { requested: false, epoch: 0 }
    }

    /// Asks the threads to stop for the next collection.
    pub fn stop_all_mutators(&mut self) -> (epoch: u64)
        requires
            old(self).epoch < u64::MAX,
        ensures
            *final(self) == (GcState { requested: true, epoch: (old(self).epoch + 1) as u64 }),
            epoch == final(self).epoch,
    {
        self.epoch = self.epoch + 1;
        self.requested = true;
        self.epoch
    }

    /// Lets the threads go on.
    pub fn resume_mutators(&mut self)
        ensures
            *final(self) == (GcState { requested: false, epoch: old(self).epoch }),
    {
        self.requested = false;
    }

    /// For which collection a thread has to stop now, if it has to.
    pub fn stop_for_gc(&self) -> (epoch: Option<u64>)
        ensures
            epoch == (if self.requested { Some(self.epoch) } else { None }),
    {
        if self.requested {
            Some(self.epoch)
        } else {
            None
        }
    }
}

/// Whether every bound thread has stopped for a collection.
pub open spec fn all_stopped(world: World, epoch: u64) -> bool {
    forall|handle: usize| #[trigger]
        world.threads.contains_key(handle) ==> world.threads[handle].blocked_epoch == epoch
}

impl Runtime {
    /// Notes for which collection a bound thread has stopped; zero says that it goes on.
    pub fn block_thread(&mut self, thread: usize, epoch: u64)
        requires
            old(self)@.well_formed(),
            old(self)@.threads.contains_key(thread),
        ensures
            final(self)@.well_formed(),
            final(self)@ == (World {
                threads: old(self)@.threads.insert(
                    thread,
                    (Context { blocked_epoch: epoch, ..old(self)@.threads[thread] }),
                ),
                ..old(self)@
            }),
    {
        if let Some(context) = self.threads.get(&thread) {
            let changed = ThreadContext {
                roots: copy_words(&context.roots),
                pending: context.pending,
                blocked_epoch: epoch,
            };
            self.put_context(thread, changed);
        }
    }

    /// For which collection the calling thread has to stop now, if it has to.
    pub fn gc_poll_current_checked(&self, state: &GcState) -> (result: Result<Option<u64>, RuntimeError>)
        requires
            self@.well_formed(),
        ensures
            result == (if !self@.initialized {
                Err(RuntimeError::NotInitialized)
            } else if self@.current == 0 {
                Err(RuntimeError::ThreadNotBound)
            } else if state.requested {
                Ok(Some(state.epoch))
            } else {
                Ok(None::<u64>)
            }),
    {
        if !self.initialized {
            return Err(RuntimeError::NotInitialized);
        }
        if self.current == 0 {
            return Err(RuntimeError::ThreadNotBound);
        }
        Ok(state.stop_for_gc())
    }

    /// Whether every bound thread has stopped for a collection.
    pub fn all_blocked(&self, epoch: u64) -> (result: bool)
        requires
            self@.well_formed(),
        ensures
            result == all_stopped(self@, epoch),
    {
        let mut handle: usize = 1;
        while handle < self.next_handle
            invariant
                1 <= handle <= self.next_handle,
                self@.well_formed(),
                forall|other: usize|
                    other < handle && #[trigger] self@.threads.contains_key(other)
                        ==> self@.threads[other].blocked_epoch == epoch,
            decreases self.next_handle - handle,
        {
            if let Some(context) = self.threads.get(&handle) {
                assert(self@.threads.contains_key(handle) && self@.threads[handle] == context@);
                if context.blocked_epoch != epoch {
                    return false;
                }
            } else {
                assert(!self@.threads.contains_key(handle));
            }
            handle = handle + 1;
        }
        assert forall|other: usize| #[trigger] self@.threads.contains_key(other) implies self@.threads[other].blocked_epoch
            == epoch by {
            assert(other < self.next_handle);
        }
        true
    }
}

/// The place of a word that a collection follows.
#[derive(Clone, Copy, Debug, PartialEq, Eq, Structural, Hash)]
pub struct ValueSlot(pub usize);

impl ValueSlot {
    /// The place at an address.
    pub fn from_ptr(slot: usize) -> (place: Self)
        ensures
            place.0 == slot,
    {
        Self(slot)
    }
}

/// Words that stand in a row.
#[derive(Clone, Copy, Debug, PartialEq, Eq, Structural, Hash)]
pub struct ValueMemorySlice {
    pub start: usize,
    pub words: usize,
}

impl ValueMemorySlice {
    /// Whether the words end before the end of memory.
    pub open spec fn well_formed(self) -> bool {
        self.start + self.words * word_size() <= usize::MAX
    }

    /// So many words from an address on.
    pub fn new(start: usize, words: usize) -> (slice: Self)
        ensures
            slice.start == start,
            slice.words == words,
    {
        Self { start, words }
    }

    /// The bytes that the words take.
    pub fn bytes(&self) -> (bytes: usize)
        requires
            self.well_formed(),
        ensures
            bytes == self.words * word_size(),
    {
        let word: usize = word_bytes();
        assert(0 <= self.words * word_size() <= usize::MAX) by (nonlinear_arith)
            requires
                self.start + self.words * word_size() <= usize::MAX,
                0 <= word_size(),
        ;
        self.words * word
    }

    /// The places of the words, one after the other.
    pub fn iter_slots(&self) -> (slots: ValueMemorySliceIter)
        ensures
            slots.cursor == self.start,
            slots.remaining == self.words,
    {
        ValueMemorySliceIter { cursor: self.start, remaining: self.words }
    }
}

/// The words of a row that are still to come.
#[derive(Clone, Copy, Debug, PartialEq, Eq, Structural)]
pub struct ValueMemorySliceIter {
    pub cursor: usize,
    pub remaining: usize,
}

impl ValueMemorySliceIter {
    /// Whether the words end before the end of memory.
    pub open spec fn well_formed(self) -> bool {
        self.cursor + self.remaining * word_size() <= usize::MAX
    }

    /// The place of the next word.
    pub fn next(&mut self) -> (slot: Option<ValueSlot>)
        requires
            old(self).well_formed(),
        ensures
            final(self).well_formed(),
            match slot {
                None => old(self).remaining == 0 && *final(self) == *old(self),
                Some(slot) => slot.0 == old(self).cursor && final(self).cursor == old(self).cursor + word_size()
                    && final(self).remaining == old(self).remaining - 1,
            },
    {
        if self.remaining == 0 {
            return None;
        }
        let word: usize = word_bytes();
        let current: usize = self.cursor;
        assert(self.remaining * word_size() == (self.remaining - 1) * word_size() + word_size()) by (nonlinear_arith)
            requires
                self.remaining >= 1,
        ;
        assert(0 <= (self.remaining - 1) * word_size()) by (nonlinear_arith)
            requires
                self.remaining >= 1,
                0 <= word_size(),
        ;
        self.cursor = self.cursor + word;
        self.remaining = self.remaining - 1;
        Some(ValueSlot(current))
    }
}

} // verus!
