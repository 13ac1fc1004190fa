//! The state of the runtime: objects, threads with their root stacks, interned symbols and
//! pending exceptions.
use crate::runtime::error::RuntimeError;
use crate::runtime::layout::ObjectHeader;
use crate::runtime::object::{apart, copy_words, holds_word, thing_tag, with_word, Object, Thing};
use crate::runtime::value::is_heap_word;
use std::collections::HashMap;
use vstd::prelude::*;
use vstd::std_specs::iter::IteratorSpec;

verus! {

broadcast use {vstd::seq_lib::group_seq_properties, vstd::std_specs::hash::group_hash_axioms};

/// What the runtime knows of a thread.
pub struct ThreadContext {
    /// The root slots, the last pushed last.
    pub roots: Vec<usize>,
    /// The exception that was raised and not yet taken.
    pub pending: Option<usize>,
    /// The collection for which the thread has stopped; zero where it has not.
    pub blocked_epoch: u64,
}

/// The meaning of a `ThreadContext`.
pub struct Context {
    pub roots: Seq<usize>,
    pub pending: Option<usize>,
    pub blocked_epoch: u64,
}

impl View for ThreadContext {
    type V = Context;

    open spec fn view(&self) -> Context {
        Context { roots: self.roots@, pending: self.pending, blocked_epoch: self.blocked_epoch }
    }
}

/// A word outside of the heap that the collector follows for good.
#[derive(Clone, Debug, PartialEq, Eq)]
pub enum GlobalRoot {
    /// A word at an address.
    Slot(usize),
    /// The word that refers to the interned symbol with a name.
    Symbol(Vec<u8>),
}

/// The meaning of a `GlobalRoot`.
pub enum Root {
    Slot(usize),
    Symbol(Seq<u8>),
}

impl View for GlobalRoot {
    type V = Root;

    open spec fn view(&self) -> Root {
        match *self {
            GlobalRoot::Slot(slot) => Root::Slot(slot),
            GlobalRoot::Symbol(name) => Root::Symbol(name@),
        }
    }
}

/// The meaning of a row of global roots.
pub open spec fn roots_of(roots: Seq<GlobalRoot>) -> Seq<Root> {
    roots.map_values(|root: GlobalRoot| root@)
}

/// What a row of interned names maps each name to.
pub open spec fn interned(entries: Seq<(Vec<u8>, usize)>) -> Map<Seq<u8>, usize>
    decreases entries.len(),
{
    if entries.len() == 0 {
        Map::empty()
    } else {
        interned(entries.drop_last()).insert(entries.last().0@, entries.last().1)
    }
}

/// The state of the runtime.
pub struct Runtime {
    /// The objects by their addresses.
    pub objects: HashMap<usize, Object>,
    /// Addresses at which the next objects can stand; the last is used first.
    pub space: Vec<usize>,
    /// The bound threads by their handles.
    pub threads: HashMap<usize, ThreadContext>,
    /// The handle that the next thread gets.
    pub next_handle: usize,
    /// The handle of the thread that calls; zero where it is not bound.
    pub current: usize,
    /// Whether there is a heap.
    pub initialized: bool,
    /// The words outside of the heap that the collector follows for good.
    pub global_roots: Vec<GlobalRoot>,
    /// The interned symbols by their names.
    pub symbols: Vec<(Vec<u8>, usize)>,
    /// What was written and not yet taken.
    pub output: Vec<u8>,
}

/// The meaning of a `Runtime`.
pub struct World {
    pub objects: Map<usize, Thing>,
    pub space: Seq<usize>,
    pub threads: Map<usize, Context>,
    pub next_handle: usize,
    pub current: usize,
    pub initialized: bool,
    pub global_roots: Seq<Root>,
    pub symbols: Map<Seq<u8>, usize>,
    pub output: Seq<u8>,
}

impl View for Runtime {
    type V = World;

    open spec fn view(&self) -> World {
        World {
            objects: self.objects@.map_values(|object: Object| object@),
            space: self.space@,
            threads: self.threads@.map_values(|context: ThreadContext| context@),
            next_handle: self.next_handle,
            current: self.current,
            initialized: self.initialized,
            global_roots: roots_of(self.global_roots@),
            symbols: interned(self.symbols@),
            output: self.output@,
        }
    }
}

impl World {
    /// Objects stand at heap words. The free addresses are heap words, differ, and hold nothing
    /// yet. Interned symbols are symbols with the names under which they are interned, and the
    /// collector follows them. The calling thread is bound, if there is one, and there is a heap
    /// then.
    pub open spec fn well_formed(self) -> bool {
        &&& forall|address: usize| #[trigger] self.objects.contains_key(address) ==> is_heap_word(address)
        &&& forall|i: int|
            0 <= i < self.space.len() ==> is_heap_word(#[trigger] self.space[i]) && !self.objects.contains_key(
                self.space[i],
            )
        &&& forall|i: int, j: int|
            0 <= i < j < self.space.len() ==> #[trigger] self.space[i] != #[trigger] self.space[j]
        &&& forall|name: Seq<u8>| #[trigger]
            self.symbols.contains_key(name) ==> self.objects.contains_key(self.symbols[name])
                && self.objects[self.symbols[name]] == Thing::Symbol(name) && self.global_roots.contains(
                Root::Symbol(name),
            )
        &&& self.current != 0 ==> self.initialized && self.threads.contains_key(self.current)
        &&& forall|handle: usize| #[trigger]
            self.threads.contains_key(handle) ==> 0 < handle < self.next_handle
        &&& self.next_handle > 0
    }
}

/// The state after a call and what the call returned.
pub type Outcome<T> = (World, Result<T, RuntimeError>);

/// Makes an object at the next free address.
#[verifier::opaque]
pub open spec fn allocated(world: World, thing: Thing) -> Outcome<usize> {
    if world.current == 0 {
        (world, Err(RuntimeError::ThreadNotBound))
    } else if world.space.len() == 0 {
        (world, Err(RuntimeError::AllocationFailed))
    } else {
        (
            World {
                objects: world.objects.insert(world.space.last(), thing),
                space: world.space.drop_last(),
                ..world
            },
            Ok(world.space.last()),
        )
    }
}

/// Makes an object that refers to values, which have to be kept alive meanwhile.
#[verifier::opaque]
pub open spec fn allocated_rooted(world: World, thing: Thing) -> Outcome<usize> {
    if world.current == 0 {
        (world, Err(RuntimeError::InvalidThread))
    } else {
        allocated(world, thing)
    }
}

/// The object that a word refers to.
pub open spec fn object_at(objects: Map<usize, Thing>, bits: usize) -> Option<Thing> {
    if is_heap_word(bits) && objects.contains_key(bits) {
        Some(objects[bits])
    } else {
        None
    }
}

/// The tag of the object that a word refers to.
pub open spec fn tag_at(objects: Map<usize, Thing>, bits: usize) -> Option<u16> {
    match object_at(objects, bits) {
        Some(thing) => Some(thing_tag(thing)),
        None => None,
    }
}

/// What comes of telling the collector, on behalf of the calling thread, that a field of an object
/// now holds `target`. Only references have to be told.
pub open spec fn told(world: World, target: usize) -> Result<(), RuntimeError> {
    if is_heap_word(target) && world.current == 0 {
        Err(RuntimeError::ThreadNotBound)
    } else {
        Ok(())
    }
}

/// An object in place of one that is there, of which a field now holds `target`. A reference
/// from one object to another is made known to the collector on behalf of the calling thread.
#[verifier::opaque]
pub open spec fn written(world: World, address: usize, thing: Thing, target: usize) -> Outcome<()> {
    (World { objects: world.objects.insert(address, thing), ..world }, told(world, target))
}

/// The objects after a word was stored at an address.
pub open spec fn stored(objects: Map<usize, Thing>, slot: usize, value: usize) -> Map<usize, Thing> {
    objects.map_entries(|address: usize, thing: Thing| with_word(address, thing, slot, value))
}

/// Whether a word can be stored at an address: no object keeps anything but a whole word there.
pub open spec fn storable(objects: Map<usize, Thing>, slot: usize) -> bool {
    forall|address: usize| #[trigger]
        objects.contains_key(address) ==> apart(address, objects[address], slot) || holds_word(
            address,
            objects[address],
            slot,
        )
}

/// A symbol with a name: always the same for the same name. The collector follows it for good.
#[verifier::opaque]
pub open spec fn with_symbol(world: World, name: Seq<u8>) -> Outcome<usize> {
    if world.symbols.contains_key(name) {
        (world, Ok(world.symbols[name]))
    } else {
        match allocated(world, Thing::Symbol(name)) {
            (world, Err(error)) => (world, Err(error)),
            (world, Ok(address)) => (
                World {
                    symbols: world.symbols.insert(name, address),
                    global_roots: world.global_roots.push(Root::Symbol(name)),
                    ..world
                },
                Ok(address),
            ),
        }
    }
}

/// A root slot on the stack of a thread.
#[verifier::opaque]
pub open spec fn root_pushed(world: World, thread: usize, slot: usize) -> Outcome<()> {
    if thread == 0 || !world.threads.contains_key(thread) {
        (world, Err(RuntimeError::InvalidThread))
    } else if slot == 0 {
        (world, Err(RuntimeError::NullSlot))
    } else {
        let context = world.threads[thread];
        (
            World {
                threads: world.threads.insert(thread, Context { roots: context.roots.push(slot), ..context }),
                ..world
            },
            Ok(()),
        )
    }
}

/// The stack of a thread without the last root slot.
#[verifier::opaque]
pub open spec fn root_popped(world: World, thread: usize) -> Outcome<()> {
    if thread == 0 || !world.threads.contains_key(thread) {
        (world, Err(RuntimeError::InvalidThread))
    } else if world.threads[thread].roots.len() == 0 {
        (world, Err(RuntimeError::ShadowStackUnderflow))
    } else {
        let context = world.threads[thread];
        (
            World {
                threads: world.threads.insert(thread, Context { roots: context.roots.drop_last(), ..context }),
                ..world
            },
            Ok(()),
        )
    }
}

/// A pending exception for the calling thread.
#[verifier::opaque]
pub open spec fn raised(world: World, value: usize) -> Outcome<()> {
    if world.current == 0 {
        (world, Err(RuntimeError::ThreadNotBound))
    } else {
        let context = world.threads[world.current];
        (
            World {
                threads: world.threads.insert(world.current, Context { pending: Some(value), ..context }),
                ..world
            },
            Ok(()),
        )
    }
}

/// The pending exception of the calling thread, which is no longer pending then.
#[verifier::opaque]
pub open spec fn exception_taken(world: World) -> Outcome<usize> {
    if world.current == 0 {
        (world, Err(RuntimeError::ThreadNotBound))
    } else {
        let context = world.threads[world.current];
        match context.pending {
            None => (world, Err(RuntimeError::InvalidArgument)),
            Some(value) => (
                World {
                    threads: world.threads.insert(world.current, Context { pending: None, ..context }),
                    ..world
                },
                Ok(value),
            ),
        }
    }
}

/// Whether two rows of bytes are the same.
pub fn same_bytes(left: &Vec<u8>, right: &Vec<u8>) -> (equal: bool)
    ensures
        equal == (left@ == right@),
{
    if left.len() != right.len() {
        return false;
    }
    let mut index: usize = 0;
    while index < left.len()
        invariant
            index <= left@.len(),
            left@.len() == right@.len(),
            forall|i: int| 0 <= i < index ==> #[trigger] left@[i] == right@[i],
        decreases left@.len() - index,
    {
        if left[index] != right[index] {
            return false;
        }
        index = index + 1;
    }
    assert(left@ =~= right@);
    true
}

/// A copy of a row of bytes.
pub fn copy_bytes(bytes: &Vec<u8>) -> (copy: Vec<u8>)
    ensures
        copy@ == bytes@,
{
    let mut copy: Vec<u8> = Vec::new();
    let mut index: usize = 0;
    while index < bytes.len()
        invariant
            index <= bytes@.len(),
            copy@ == bytes@.subrange(0, index as int),
        decreases bytes@.len() - index,
    {
        copy.push(bytes[index]);
        assert(copy@ =~= bytes@.subrange(0, index + 1));
        index = index + 1;
    }
    assert(copy@ =~= bytes@);
    copy
}

/// The keys of a map, in no particular order.
pub fn keys_of<T>(map: &HashMap<usize, T>) -> (keys: Vec<usize>)
    ensures
        keys@.to_set() == map@.dom(),
        keys@.no_duplicates(),
{
    let ghost all = IteratorSpec::remaining(&map.keys()).unref();
    let mut keys: Vec<usize> = Vec::new();
    for key in walk: map.keys()
        invariant
            walk.seq().unref() == all,
            keys@ == all.take(walk.index()),
    {
        keys.push(*key);
        assert(keys@ =~= all.take(walk.index() + 1));
    }
    assert(keys@ =~= all);
    assert(keys@.to_set() =~= map@.dom());
    keys
}

impl Runtime {
    /// A runtime without heap and threads.
    pub fn new() -> (runtime: Self)
        ensures
            runtime@.well_formed(),
            runtime@ == (World {
                objects: Map::empty(),
                space: Seq::empty(),
                threads: Map::empty(),
                next_handle: 1,
                current: 0,
                initialized: false,
                global_roots: Seq::empty(),
                symbols: Map::empty(),
                output: Seq::empty(),
            }),
    {
        let runtime = Runtime {
            objects: HashMap::new(),
            space: Vec::new(),
            threads: HashMap::new(),
            next_handle: 1,
            current: 0,
            initialized: false,
            global_roots: Vec::new(),
            symbols: Vec::new(),
            output: Vec::new(),
        };
        assert(runtime@.objects =~= Map::<usize, Thing>::empty());
        assert(runtime@.threads =~= Map::<usize, Context>::empty());
        assert(runtime@.global_roots =~= Seq::<Root>::empty());
        runtime
    }

    /// Lets the next object stand at an address. Refuses addresses that are no heap words, that
    /// hold an object, or that are free already.
    pub fn add_space(&mut self, address: usize) -> (accepted: bool)
        requires
            old(self)@.well_formed(),
        ensures
            final(self)@.well_formed(),
            accepted == (is_heap_word(address) && !old(self)@.objects.contains_key(address) && !old(
                self,
            )@.space.contains(address)),
            final(self)@ == (if accepted {
                World { space: old(self)@.space.push(address), ..old(self)@ }
            } else {
                old(self)@
            }),
    {
        if address == 0 || address % 8 != 0 || self.objects.contains_key(&address) {
            return false;
        }
        let mut index: usize = 0;
        while index < self.space.len()
            invariant
                index <= self.space@.len(),
                self@ == old(self)@,
                self@.well_formed(),
                forall|i: int| 0 <= i < index ==> #[trigger] self.space@[i] != address,
            decreases self.space@.len() - index,
        {
            if self.space[index] == address {
                assert(self.space@[index as int] == address);
                return false;
            }
            index = index + 1;
        }
        self.space.push(address);
        assert(self@ == (World { space: old(self)@.space.push(address), ..old(self)@ }));
        true
    }

    /// The object that a word refers to.
    pub fn object(&self, bits: usize) -> (object: Option<&Object>)
        requires
            self@.well_formed(),
        ensures
            match object {
                Some(object) => object_at(self@.objects, bits) == Some(object@),
                None => object_at(self@.objects, bits) is None,
            },
    {
        let found = self.objects.get(&bits);
        proof {
            if self.objects@.contains_key(bits) {
                assert(self@.objects.contains_key(bits));
            }
        }
        found
    }

    /// The tag of the object that a word refers to.
    pub fn object_kind(&self, bits: usize) -> (result: Result<u16, RuntimeError>)
        requires
            self@.well_formed(),
        ensures
            result == (match tag_at(self@.objects, bits) {
                Some(tag) => Ok::<u16, RuntimeError>(tag),
                None => Err(RuntimeError::InvalidObjectKind),
            }),
    {
        match self.object(bits) {
            Some(object) => Ok(object.tag()),
            None => Err(RuntimeError::InvalidObjectKind),
        }
    }

    fn put(&mut self, address: usize, object: Object)
        requires
            old(self)@.well_formed(),
            is_heap_word(address),
            !old(self)@.space.contains(address),
            old(self)@.objects.contains_key(address) ==> !(old(self)@.objects[address] is Symbol),
        ensures
            final(self)@.well_formed(),
            final(self)@ == (World { objects: old(self)@.objects.insert(address, object@), ..old(self)@ }),
    {
        self.objects.insert(address, object);
        assert(self@.objects =~= old(self)@.objects.insert(address, object@));
        assert forall|i: int| 0 <= i < self@.space.len() implies is_heap_word(#[trigger] self@.space[i])
            && !self@.objects.contains_key(self@.space[i]) by {
            assert(old(self)@.space.contains(old(self)@.space[i]));
        }
    }

    fn allocate(&mut self, object: Object) -> (result: Result<usize, RuntimeError>)
        requires
            old(self)@.well_formed(),
        ensures
            final(self)@.well_formed(),
            (final(self)@, result) == allocated(old(self)@, object@),
    {
        reveal(allocated);
        if self.current == 0 {
            return Err(RuntimeError::ThreadNotBound);
        }
        match self.space.pop() {
            None => Err(RuntimeError::AllocationFailed),
            Some(address) => {
                assert(self@.space =~= old(self)@.space.drop_last());
                assert(self@ == (World { space: old(self)@.space.drop_last(), ..old(self)@ }));
                assert(!self@.space.contains(address));
                self.put(address, object);
                Ok(address)
            },
        }
    }

    /// Makes an object of any kind, of which only the header is known.
    pub fn alloc_raw_checked(&mut self, size: usize, kind: u16) -> (result: Result<usize, RuntimeError>)
        requires
            old(self)@.well_formed(),
        ensures
            final(self)@.well_formed(),
            (final(self)@, result) == allocated(
                old(self)@,
                Thing::Raw(ObjectHeader { metadata: 0, kind, flags: 0, bytes: size as u32 }),
            ),
    {
        self.allocate(Object::Raw(ObjectHeader::new(kind, size as u32)))
    }

    fn allocate_rooted(&mut self, object: Object) -> (result: Result<usize, RuntimeError>)
        requires
            old(self)@.well_formed(),
        ensures
            final(self)@.well_formed(),
            (final(self)@, result) == allocated_rooted(old(self)@, object@),
    {
        reveal(allocated_rooted);
        if self.current == 0 {
            return Err(RuntimeError::InvalidThread);
        }
        self.allocate(object)
    }

    /// Makes a pair.
    pub fn alloc_pair_checked(&mut self, car: usize, cdr: usize) -> (result: Result<usize, RuntimeError>)
        requires
            old(self)@.well_formed(),
        ensures
            final(self)@.well_formed(),
            (final(self)@, result) == allocated_rooted(old(self)@, Thing::Pair { car, cdr }),
    {
        self.allocate_rooted(Object::Pair { car, cdr })
    }

    /// Makes a box.
    pub fn alloc_box_checked(&mut self, value: usize) -> (result: Result<usize, RuntimeError>)
        requires
            old(self)@.well_formed(),
        ensures
            final(self)@.well_formed(),
            (final(self)@, result) == allocated_rooted(old(self)@, Thing::Boxed(value)),
    {
        self.allocate_rooted(Object::Boxed(value))
    }

    /// Makes a promise that is not forced yet.
    pub fn alloc_promise_checked(&mut self, value: usize) -> (result: Result<usize, RuntimeError>)
        requires
            old(self)@.well_formed(),
        ensures
            final(self)@.well_formed(),
            (final(self)@, result) == allocated_rooted(old(self)@, Thing::Promise { value, forced: false }),
    {
        self.allocate_rooted(Object::Promise { value, forced: false })
    }

    /// Makes a closure.
    pub fn alloc_closure_checked(&mut self, code_ptr: usize, env: Vec<usize>) -> (result: Result<
        usize,
        RuntimeError,
    >)
        requires
            old(self)@.well_formed(),
        ensures
            final(self)@.well_formed(),
            (final(self)@, result) == allocated_row(
                old(self)@,
                env@.len(),
                Thing::Closure { code_ptr, env: env@ },
            ),
    {
        reveal(allocated_row);
        if env.len() == 0 {
            self.allocate(Object::Closure { code_ptr, env })
        } else {
            self.allocate_rooted(Object::Closure { code_ptr, env })
        }
    }

    /// Makes a vector.
    pub fn alloc_vector_checked(&mut self, elements: Vec<usize>) -> (result: Result<usize, RuntimeError>)
        requires
            old(self)@.well_formed(),
        ensures
            final(self)@.well_formed(),
            (final(self)@, result) == allocated_row(old(self)@, elements@.len(), Thing::Vector(elements@)),
    {
        reveal(allocated_row);
        if elements.len() == 0 {
            self.allocate(Object::Vector(elements))
        } else {
            self.allocate_rooted(Object::Vector(elements))
        }
    }

    /// Makes a packet of values.
    pub fn alloc_values_checked(&mut self, elements: Vec<usize>) -> (result: Result<usize, RuntimeError>)
        requires
            old(self)@.well_formed(),
        ensures
            final(self)@.well_formed(),
            (final(self)@, result) == allocated_row(old(self)@, elements@.len(), Thing::Values(elements@)),
    {
        reveal(allocated_row);
        if elements.len() == 0 {
            self.allocate(Object::Values(elements))
        } else {
            self.allocate_rooted(Object::Values(elements))
        }
    }

    /// Makes a string.
    pub fn alloc_string_checked(&mut self, bytes: Vec<u8>) -> (result: Result<usize, RuntimeError>)
        requires
            old(self)@.well_formed(),
        ensures
            final(self)@.well_formed(),
            (final(self)@, result) == allocated(old(self)@, Thing::Text(bytes@)),
    {
        self.allocate(Object::Text(bytes))
    }

    /// Makes a symbol that is not interned.
    pub fn alloc_symbol_checked(&mut self, bytes: Vec<u8>) -> (result: Result<usize, RuntimeError>)
        requires
            old(self)@.well_formed(),
        ensures
            final(self)@.well_formed(),
            (final(self)@, result) == allocated(old(self)@, Thing::Symbol(bytes@)),
    {
        self.allocate(Object::Symbol(bytes))
    }

    /// Puts a changed object in place of the one at an address. `target` is what the changed
    /// field holds now.
    pub(crate) fn replace_object(&mut self, address: usize, object: Object, target: usize) -> (result: Result<
        (),
        RuntimeError,
    >)
        requires
            old(self)@.well_formed(),
            old(self)@.objects.contains_key(address),
            !(old(self)@.objects[address] is Symbol),
        ensures
            final(self)@.well_formed(),
            (final(self)@, result) == written(old(self)@, address, object@, target),
    {
        reveal(written);
        proof {
            if self@.space.contains(address) {
                let i = choose|i: int| 0 <= i < self@.space.len() && self@.space[i] == address;
                assert(!self@.objects.contains_key(self@.space[i]));
            }
        }
        self.put(address, object);
        self.tell(target)
    }

    fn tell(&self, target: usize) -> (result: Result<(), RuntimeError>)
        ensures
            result == told(self@, target),
    {
        if target != 0 && target % 8 == 0 && self.current == 0 {
            return Err(RuntimeError::ThreadNotBound);
        }
        Ok(())
    }

    /// Whether a word can be stored at an address without breaking an object.
    pub fn can_store(&self, slot: usize) -> (fits: bool)
        requires
            self@.well_formed(),
        ensures
            fits == storable(self@.objects, slot),
    {
        let addresses = keys_of(&self.objects);
        assert(self@.objects.dom() =~= self.objects@.dom());
        let mut index: usize = 0;
        while index < addresses.len()
            invariant
                index <= addresses@.len(),
                addresses@.to_set() == self@.objects.dom(),
                forall|i: int|
                    0 <= i < index ==> apart(#[trigger] addresses@[i], self@.objects[addresses@[i]], slot)
                        || holds_word(addresses@[i], self@.objects[addresses@[i]], slot),
            decreases addresses@.len() - index,
        {
            let address: usize = addresses[index];
            assert(addresses@.to_set().contains(addresses@[index as int]));
            assert(self@.objects.contains_key(address));
            if let Some(object) = self.objects.get(&address) {
                if !object.can_hold(address, slot) {
                    return false;
                }
            }
            index = index + 1;
        }
        assert forall|address: usize| #[trigger] self@.objects.contains_key(address) implies apart(
            address,
            self@.objects[address],
            slot,
        ) || holds_word(address, self@.objects[address], slot) by {
            assert(addresses@.to_set().contains(address));
            let i = choose|i: int| 0 <= i < addresses@.len() && addresses@[i] == address;
            assert(apart(addresses@[i], self@.objects[addresses@[i]], slot) || holds_word(
                addresses@[i],
                self@.objects[addresses@[i]],
                slot,
            ));
        }
        true
    }

    /// Stores a word at an address, and tells the collector.
    pub fn store_word(&mut self, slot: usize, value: usize) -> (result: Result<(), RuntimeError>)
        requires
            old(self)@.well_formed(),
            storable(old(self)@.objects, slot),
        ensures
            final(self)@.well_formed(),
            final(self)@ == (World { objects: stored(old(self)@.objects, slot, value), ..old(self)@ }),
            result == told(old(self)@, value),
    {
        let ghost before = self@;
        let addresses = keys_of(&self.objects);
        assert(self@.objects.dom() =~= self.objects@.dom());
        let mut index: usize = 0;
        while index < addresses.len()
            invariant
                index <= addresses@.len(),
                addresses@.to_set() == before.objects.dom(),
                addresses@.no_duplicates(),
                before.well_formed(),
                self@.well_formed(),
                self@ == (World { objects: self@.objects, ..before }),
                self@.objects.dom() == before.objects.dom(),
                forall|i: int|
                    0 <= i < index ==> self@.objects[#[trigger] addresses@[i]] == with_word(
                        addresses@[i],
                        before.objects[addresses@[i]],
                        slot,
                        value,
                    ),
                forall|i: int|
                    index <= i < addresses@.len() ==> self@.objects[#[trigger] addresses@[i]]
                        == before.objects[addresses@[i]],
            decreases addresses@.len() - index,
        {
            let address: usize = addresses[index];
            assert(addresses@.to_set().contains(addresses@[index as int]));
            assert(self@.objects.contains_key(address));
            assert(self@.objects[addresses@[index as int]] == before.objects[address]);
            let changed = match self.objects.get(&address) {
                Some(object) => object.after_store(address, slot, value),
                None => None,
            };
            if let Some(changed) = changed {
                proof {
                    if self@.space.contains(address) {
                        let i = choose|i: int| 0 <= i < self@.space.len() && self@.space[i] == address;
                        assert(!self@.objects.contains_key(self@.space[i]));
                    }
                }
                let ghost previous = self@;
                self.put(address, changed);
                assert(self@.objects.dom() =~= previous.objects.dom());
            }
            index = index + 1;
        }
        proof {
            assert forall|address: usize| before.objects.contains_key(address) implies #[trigger] self@.objects[address]
                == with_word(address, before.objects[address], slot, value) by {
                assert(addresses@.to_set().contains(address));
                let i = choose|i: int| 0 <= i < addresses@.len() && addresses@[i] == address;
                assert(self@.objects[addresses@[i]] == with_word(addresses@[i], before.objects[addresses@[i]], slot, value));
            }
            assert(self@.objects =~= stored(before.objects, slot, value));
        }
        self.tell(value)
    }

    /// The interned symbol with a name.
    pub(crate) fn find_symbol(&self, name: &Vec<u8>) -> (found: Option<usize>)
        ensures
            found == (if self@.symbols.contains_key(name@) {
                Some(self@.symbols[name@])
            } else {
                None
            }),
    {
        let mut index: usize = self.symbols.len();
        assert(self.symbols@.subrange(0, index as int) =~= self.symbols@);
        while index > 0
            invariant
                index <= self.symbols@.len(),
                self@.symbols.contains_key(name@) == interned(
                    self.symbols@.subrange(0, index as int),
                ).contains_key(name@),
                self@.symbols.contains_key(name@) ==> self@.symbols[name@] == interned(
                    self.symbols@.subrange(0, index as int),
                )[name@],
            decreases index,
        {
            index = index - 1;
            proof {
                let longer = self.symbols@.subrange(0, index + 1);
                assert(longer.last() == self.symbols@[index as int]);
                assert(longer.drop_last() =~= self.symbols@.subrange(0, index as int));
            }
            if same_bytes(&self.symbols[index].0, name) {
                return Some(self.symbols[index].1);
            }
        }
        None
    }

    /// The symbol with a name.
    pub fn intern_symbol(&mut self, name: Vec<u8>) -> (result: Result<usize, RuntimeError>)
        requires
            old(self)@.well_formed(),
        ensures
            final(self)@.well_formed(),
            (final(self)@, result) == with_symbol(old(self)@, name@),
    {
        reveal(with_symbol);
        if let Some(address) = self.find_symbol(&name) {
            return Ok(address);
        }
        let address = match self.allocate(Object::Symbol(copy_bytes(&name))) {
            Ok(address) => address,
            Err(error) => {
                return Err(error);
            },
        };
        let ghost before_entry = self@;
        let ghost entries = self.symbols@;
        self.global_roots.push(GlobalRoot::Symbol(copy_bytes(&name)));
        self.symbols.push((name, address));
        proof {
            reveal(allocated);
            let roots = before_entry.global_roots.push(Root::Symbol(name@));
            assert(self.symbols@.drop_last() =~= entries);
            assert(self@.symbols == before_entry.symbols.insert(name@, address));
            assert(self@.global_roots =~= roots);
            assert(self@ == (World {
                symbols: before_entry.symbols.insert(name@, address),
                global_roots: roots,
                ..before_entry
            }));
            assert(roots.last() == Root::Symbol(name@));
            assert forall|other: Seq<u8>| #[trigger]
                before_entry.symbols.contains_key(other) implies roots.contains(Root::Symbol(other)) by {
                let i = choose|i: int|
                    0 <= i < before_entry.global_roots.len() && before_entry.global_roots[i] == Root::Symbol(other);
                assert(roots[i] == Root::Symbol(other));
            }
        }
        Ok(address)
    }

    /// Replaces what is known of a bound thread.
    pub fn put_context(&mut self, thread: usize, context: ThreadContext)
        requires
            old(self)@.well_formed(),
            old(self)@.threads.contains_key(thread),
        ensures
            final(self)@.well_formed(),
            final(self)@ == (World { threads: old(self)@.threads.insert(thread, context@), ..old(self)@ }),
    {
        self.threads.insert(thread, context);
        assert(self@.threads =~= old(self)@.threads.insert(thread, context@));
    }

    /// Pushes a root slot on the stack of a thread.
    pub fn push_root_checked(&mut self, thread: usize, slot: usize) -> (result: Result<(), RuntimeError>)
        requires
            old(self)@.well_formed(),
        ensures
            final(self)@.well_formed(),
            (final(self)@, result) == root_pushed(old(self)@, thread, slot),
    {
        reveal(root_pushed);
        match self.threads.get(&thread) {
            None => Err(RuntimeError::InvalidThread),
            Some(context) => {
                assert(self@.threads.contains_key(thread) && self@.threads[thread] == context@);
                if slot == 0 {
                    return Err(RuntimeError::NullSlot);
                }
                let mut roots = copy_words(&context.roots);
                roots.push(slot);
                let changed = ThreadContext {
                    roots,
                    pending: context.pending,
                    blocked_epoch: context.blocked_epoch,
                };
                self.put_context(thread, changed);
                Ok(())
            },
        }
    }

    /// Pops the last root slot from the stack of a thread.
    pub fn pop_root_checked(&mut self, thread: usize) -> (result: Result<(), RuntimeError>)
        requires
            old(self)@.well_formed(),
        ensures
            final(self)@.well_formed(),
            (final(self)@, result) == root_popped(old(self)@, thread),
    {
        reveal(root_popped);
        match self.threads.get(&thread) {
            None => Err(RuntimeError::InvalidThread),
            Some(context) => {
                assert(self@.threads.contains_key(thread) && self@.threads[thread] == context@);
                let mut roots = copy_words(&context.roots);
                if roots.pop().is_none() {
                    return Err(RuntimeError::ShadowStackUnderflow);
                }
                assert(roots@ =~= self@.threads[thread].roots.drop_last());
                let changed = ThreadContext {
                    roots,
                    pending: context.pending,
                    blocked_epoch: context.blocked_epoch,
                };
                self.put_context(thread, changed);
                Ok(())
            },
        }
    }

    /// Lets the collector follow a word outside of the heap for good.
    pub fn register_global_root_checked(&mut self, slot: usize) -> (result: Result<(), RuntimeError>)
        requires
            old(self)@.well_formed(),
        ensures
            final(self)@.well_formed(),
            (final(self)@, result) == (if slot == 0 {
                (old(self)@, Err(RuntimeError::NullSlot))
            } else if !old(self)@.initialized {
                (old(self)@, Err(RuntimeError::NotInitialized))
            } else {
                (
                    World { global_roots: old(self)@.global_roots.push(Root::Slot(slot)), ..old(self)@ },
                    Ok(()),
                )
            }),
    {
        if slot == 0 {
            return Err(RuntimeError::NullSlot);
        }
        if !self.initialized {
            return Err(RuntimeError::NotInitialized);
        }
        self.global_roots.push(GlobalRoot::Slot(slot));
        proof {
            let before = old(self)@.global_roots;
            assert(self@.global_roots =~= before.push(Root::Slot(slot)));
            assert(self@ == (World { global_roots: before.push(Root::Slot(slot)), ..old(self)@ }));
            assert forall|name: Seq<u8>| #[trigger] self@.symbols.contains_key(name) implies self@.global_roots.contains(
                Root::Symbol(name),
            ) by {
                let i = choose|i: int| 0 <= i < before.len() && before[i] == Root::Symbol(name);
                assert(self@.global_roots[i] == Root::Symbol(name));
            }
        }
        Ok(())
    }

    /// Raises an exception in the calling thread.
    pub fn raise_checked(&mut self, value: usize) -> (result: Result<(), RuntimeError>)
        requires
            old(self)@.well_formed(),
        ensures
            final(self)@.well_formed(),
            (final(self)@, result) == raised(old(self)@, value),
    {
        reveal(raised);
        if self.current == 0 {
            return Err(RuntimeError::ThreadNotBound);
        }
        let thread: usize = self.current;
        assert(self@.threads.contains_key(thread));
        if let Some(context) = self.threads.get(&thread) {
            let changed = ThreadContext {
                roots: copy_words(&context.roots),
                pending: Some(value),
                blocked_epoch: context.blocked_epoch,
            };
            self.put_context(thread, changed);
        }
        Ok(())
    }

    /// Whether an exception is pending in the calling thread.
    pub fn exception_pending_checked(&self) -> (result: Result<bool, RuntimeError>)
        requires
            self@.well_formed(),
        ensures
            result == (if self@.current == 0 {
                Err(RuntimeError::ThreadNotBound)
            } else {
                Ok(self@.threads[self@.current].pending is Some)
            }),
    {
        if self.current == 0 {
            return Err(RuntimeError::ThreadNotBound);
        }
        assert(self@.threads.contains_key(self.current));
        match self.threads.get(&self.current) {
            Some(context) => Ok(context.pending.is_some()),
            None => Err(RuntimeError::ThreadNotBound),
        }
    }

    /// Takes the pending exception of the calling thread.
    pub fn take_pending_exception_checked(&mut self) -> (result: Result<usize, RuntimeError>)
        requires
            old(self)@.well_formed(),
        ensures
            final(self)@.well_formed(),
            (final(self)@, result) == exception_taken(old(self)@),
    {
        reveal(exception_taken);
        if self.current == 0 {
            return Err(RuntimeError::ThreadNotBound);
        }
        let thread: usize = self.current;
        assert(self@.threads.contains_key(thread));
        match self.threads.get(&thread) {
            Some(context) => match context.pending {
                None => Err(RuntimeError::InvalidArgument),
                Some(value) => {
                    let changed = ThreadContext {
                        roots: copy_words(&context.roots),
                        pending: None,
                        blocked_epoch: context.blocked_epoch,
                    };
                    self.put_context(thread, changed);
                    Ok(value)
                },
            },
            None => Err(RuntimeError::ThreadNotBound),
        }
    }

    /// Binds the calling thread. Its handle is new; zero where there are no handles left.
    pub fn bind_thread_handle(&mut self) -> (handle: usize)
        requires
            old(self)@.well_formed(),
        ensures
            final(self)@.well_formed(),
            (final(self)@, handle) == thread_bound(old(self)@),
    {
        reveal(thread_bound);
        self.initialized = true;
        if self.next_handle == usize::MAX {
            assert(self@ == (World { initialized: true, ..old(self)@ }));
            return 0;
        }
        let handle: usize = self.next_handle;
        let context = ThreadContext { roots: Vec::new(), pending: None, blocked_epoch: 0 };
        let ghost fresh = context@;
        self.threads.insert(handle, context);
        self.next_handle = handle + 1;
        self.current = handle;
        assert(fresh == (Context { roots: Seq::empty(), pending: None, blocked_epoch: 0 }));
        assert(self@.threads =~= old(self)@.threads.insert(handle, fresh));
        handle
    }

    /// Unbinds a thread.
    pub fn unbind_thread_handle(&mut self, thread: usize)
        requires
            old(self)@.well_formed(),
        ensures
            final(self)@.well_formed(),
            final(self)@ == thread_unbound(old(self)@, thread),
    {
        reveal(thread_unbound);
        if self.current == thread {
            self.current = 0;
        }
        self.threads.remove(&thread);
        assert(self@.threads =~= old(self)@.threads.remove(thread));
        assert forall|handle: usize| #[trigger] self@.threads.contains_key(handle) implies 0 < handle
            < self@.next_handle by {
            assert(old(self)@.threads.contains_key(handle));
        }
        assert(self@.current != 0 ==> self@.threads.contains_key(self@.current));
        assert(self@.objects == old(self)@.objects);
        assert(self@.space == old(self)@.space);
        assert(self@.symbols == old(self)@.symbols);
    }
}

/// Makes an object that refers to `count` values, which have to be kept alive meanwhile.
#[verifier::opaque]
pub open spec fn allocated_row(world: World, count: nat, thing: Thing) -> Outcome<usize> {
    if count == 0 {
        allocated(world, thing)
    } else {
        allocated_rooted(world, thing)
    }
}

/// A new bound thread that calls. The heap is there from then on.
#[verifier::opaque]
pub open spec fn thread_bound(world: World) -> (World, usize) {
    if world.next_handle == usize::MAX {
        (World { initialized: true, ..world }, 0)
    } else {
        let context = Context { roots: Seq::empty(), pending: None, blocked_epoch: 0 };
        (
            World {
                initialized: true,
                threads: world.threads.insert(world.next_handle, context),
                next_handle: (world.next_handle + 1) as usize,
                current: world.next_handle,
                ..world
            },
            world.next_handle,
        )
    }
}

/// A thread is no longer bound, with its roots and pending exception.
#[verifier::opaque]
pub open spec fn thread_unbound(world: World, thread: usize) -> World {
    World {
        threads: world.threads.remove(thread),
        current: if world.current == thread { 0 } else { world.current },
        ..world
    }
}

} // verus!
