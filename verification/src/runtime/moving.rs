//! What a collection does to the state: objects that are dead are forgotten, and others come to
//! stand somewhere else.
use crate::runtime::heap::{
    copy_bytes, interned, keys_of, Context, Root, Runtime, ThreadContext, World,
};
use crate::runtime::object::{copy_words, Object, Thing};
use crate::runtime::value::is_heap_word;
use std::collections::HashMap;
use vstd::prelude::*;

verus! {

broadcast use {vstd::seq_lib::group_seq_properties, vstd::std_specs::hash::group_hash_axioms};

/// A word after objects were moved. A reference to one of them refers to its new place.
pub open spec fn moved(moves: Map<usize, usize>, word: usize) -> usize {
    if moves.contains_key(word) {
        moves[word]
    } else {
        word
    }
}

/// A row of words after objects were moved.
pub open spec fn moved_row(moves: Map<usize, usize>, words: Seq<usize>) -> Seq<usize> {
    words.map_values(|word: usize| moved(moves, word))
}

/// The contents of an object after objects were moved.
pub open spec fn moved_thing(moves: Map<usize, usize>, thing: Thing) -> Thing {
    match thing {
        Thing::Pair { car, cdr } => Thing::Pair { car: moved(moves, car), cdr: moved(moves, cdr) },
        Thing::Vector(elements) => Thing::Vector(moved_row(moves, elements)),
        Thing::Closure { code_ptr, env } => Thing::Closure { code_ptr, env: moved_row(moves, env) },
        Thing::Boxed(value) => Thing::Boxed(moved(moves, value)),
        Thing::Values(elements) => Thing::Values(moved_row(moves, elements)),
        Thing::Promise { value, forced } => Thing::Promise { value: moved(moves, value), forced },
        Thing::Text(_) => thing,
        Thing::Symbol(_) => thing,
        Thing::Raw(_) => thing,
    }
}

/// What is known of a thread after objects were moved.
pub open spec fn moved_context(moves: Map<usize, usize>, context: Context) -> Context {
    Context {
        pending: match context.pending {
            Some(value) => Some(moved(moves, value)),
            None => None,
        },
        ..context
    }
}

/// Whether objects can be moved: they all come to stand at heap words that differ and are not free.
pub open spec fn can_move(world: World, moves: Map<usize, usize>) -> bool {
    &&& forall|address: usize| #[trigger]
        world.objects.contains_key(address) ==> is_heap_word(moved(moves, address)) && !world.space.contains(
            moved(moves, address),
        )
    &&& forall|left: usize, right: usize|
        #![trigger moved(moves, left), moved(moves, right)]
        world.objects.contains_key(left) && world.objects.contains_key(right) && moved(moves, left) == moved(
            moves,
            right,
        ) ==> left == right
}

/// Whether a state comes from another by moving objects: every object stands at its new place, and
/// every reference to it from an object, an interned name or a pending exception refers to that.
/// Nothing else is different.
pub open spec fn relocated(before: World, after: World, moves: Map<usize, usize>) -> bool {
    &&& forall|address: usize| #[trigger]
        before.objects.contains_key(address) ==> after.objects.contains_key(moved(moves, address))
            && after.objects[moved(moves, address)] == moved_thing(moves, before.objects[address])
    &&& forall|place: usize| #[trigger]
        after.objects.contains_key(place) ==> exists|address: usize| #[trigger]
            before.objects.contains_key(address) && moved(moves, address) == place
    &&& after == World {
        objects: after.objects,
        symbols: before.symbols.map_values(|symbol: usize| moved(moves, symbol)),
        threads: before.threads.map_values(|context: Context| moved_context(moves, context)),
        ..before
    }
}

/// A word after objects were moved.
pub fn move_word(moves: &HashMap<usize, usize>, word: usize) -> (result: usize)
    ensures
        result == moved(moves@, word),
{
    match moves.get(&word) {
        Some(place) => *place,
        None => word,
    }
}

fn move_row(moves: &HashMap<usize, usize>, words: &Vec<usize>) -> (result: Vec<usize>)
    ensures
        result@ == moved_row(moves@, words@),
{
    let mut result: Vec<usize> = Vec::new();
    let mut index: usize = 0;
    while index < words.len()
        invariant
            index <= words@.len(),
            result@ == moved_row(moves@, words@.take(index as int)),
        decreases words@.len() - index,
    {
        result.push(move_word(moves, words[index]));
        assert(result@ =~= moved_row(moves@, words@.take(index + 1)));
        index = index + 1;
    }
    assert(words@.take(index as int) =~= words@);
    result
}

fn move_object(moves: &HashMap<usize, usize>, object: &Object) -> (result: Object)
    ensures
        result@ == moved_thing(moves@, object@),
{
    match object {
        Object::Pair { car, cdr } => Object::Pair { car: move_word(moves, *car), cdr: move_word(moves, *cdr) },
        Object::Vector(elements) => Object::Vector(move_row(moves, elements)),
        Object::Text(bytes) => Object::Text(copy_bytes(bytes)),
        Object::Symbol(bytes) => Object::Symbol(copy_bytes(bytes)),
        Object::Closure { code_ptr, env } => Object::Closure { code_ptr: *code_ptr, env: move_row(moves, env) },
        Object::Boxed(value) => Object::Boxed(move_word(moves, *value)),
        Object::Values(elements) => Object::Values(move_row(moves, elements)),
        Object::Promise { value, forced } => Object::Promise { value: move_word(moves, *value), forced: *forced },
        Object::Raw(header) => Object::Raw(*header),
    }
}

fn move_objects(moves: &HashMap<usize, usize>, objects: &HashMap<usize, Object>) -> (result: HashMap<usize, Object>)
    requires
        forall|left: usize, right: usize|
            #![trigger moved(moves@, left), moved(moves@, right)]
            objects@.contains_key(left) && objects@.contains_key(right) && moved(moves@, left) == moved(
                moves@,
                right,
            ) ==> left == right,
    ensures
        forall|address: usize| #[trigger]
            objects@.contains_key(address) ==> result@.contains_key(moved(moves@, address)) && result@[moved(
                moves@,
                address,
            )]@ == moved_thing(moves@, objects@[address]@),
        forall|place: usize| #[trigger]
            result@.contains_key(place) ==> exists|address: usize| #[trigger]
                objects@.contains_key(address) && moved(moves@, address) == place,
{
    let addresses = keys_of(objects);
    let mut result: HashMap<usize, Object> = HashMap::new();
    let mut index: usize = 0;
    while index < addresses.len()
        invariant
            index <= addresses@.len(),
            addresses@.to_set() == objects@.dom(),
            forall|left: usize, right: usize|
                #![trigger moved(moves@, left), moved(moves@, right)]
                objects@.contains_key(left) && objects@.contains_key(right) && moved(moves@, left) == moved(
                    moves@,
                    right,
                ) ==> left == right,
            forall|i: int|
                0 <= i < index ==> result@.contains_key(moved(moves@, #[trigger] addresses@[i])) && result@[moved(
                    moves@,
                    addresses@[i],
                )]@ == moved_thing(moves@, objects@[addresses@[i]]@),
            forall|place: usize| #[trigger]
                result@.contains_key(place) ==> exists|address: usize| #[trigger]
                    objects@.contains_key(address) && moved(moves@, address) == place,
        decreases addresses@.len() - index,
    {
        let address: usize = addresses[index];
        assert(addresses@.to_set().contains(addresses@[index as int]));
        assert(objects@.contains_key(address));
        if let Some(object) = objects.get(&address) {
            let ghost before = result@;
            result.insert(move_word(moves, address), move_object(moves, object));
            assert forall|i: int| 0 <= i < index implies result@.contains_key(
                moved(moves@, #[trigger] addresses@[i]),
            ) && result@[moved(moves@, addresses@[i])]@ == moved_thing(moves@, objects@[addresses@[i]]@) by {
                assert(addresses@.to_set().contains(addresses@[i]));
                assert(objects@.contains_key(addresses@[i]));
                if moved(moves@, addresses@[i]) == moved(moves@, address) {
                    assert(addresses@[i] == address);
                }
            }
            assert forall|place: usize| #[trigger] result@.contains_key(place) implies exists|from: usize| #[trigger]
                objects@.contains_key(from) && moved(moves@, from) == place by {
                if place == moved(moves@, address) {
                    assert(objects@.contains_key(address));
                } else {
                    assert(before.contains_key(place));
                }
            }
        }
        index = index + 1;
    }
    assert forall|address: usize| #[trigger] objects@.contains_key(address) implies result@.contains_key(
        moved(moves@, address),
    ) && result@[moved(moves@, address)]@ == moved_thing(moves@, objects@[address]@) by {
        assert(addresses@.to_set().contains(address));
        let i = choose|i: int| 0 <= i < addresses@.len() && addresses@[i] == address;
        assert(addresses@[i] == address);
    }
    result
}

fn move_threads(moves: &HashMap<usize, usize>, threads: &HashMap<usize, ThreadContext>) -> (result: HashMap<
    usize,
    ThreadContext,
>)
    ensures
        result@.dom() == threads@.dom(),
        forall|handle: usize| #[trigger]
            threads@.contains_key(handle) ==> result@[handle]@ == moved_context(moves@, threads@[handle]@),
{
    let handles = keys_of(threads);
    let mut result: HashMap<usize, ThreadContext> = HashMap::new();
    let mut index: usize = 0;
    assert(handles@.take(0).to_set() =~= Set::<usize>::empty());
    while index < handles.len()
        invariant
            index <= handles@.len(),
            handles@.to_set() == threads@.dom(),
            result@.dom() == handles@.take(index as int).to_set(),
            forall|handle: usize| #[trigger]
                result@.contains_key(handle) ==> result@[handle]@ == moved_context(moves@, threads@[handle]@),
        decreases handles@.len() - index,
    {
        let handle: usize = handles[index];
        assert(handles@.to_set().contains(handles@[index as int]));
        assert(threads@.contains_key(handle));
        if let Some(context) = threads.get(&handle) {
            let pending = match context.pending {
                Some(value) => Some(move_word(moves, value)),
                None => None,
            };
            let changed = ThreadContext {
                roots: copy_words(&context.roots),
                pending,
                blocked_epoch: context.blocked_epoch,
            };
            assert(changed@ == moved_context(moves@, context@));
            result.insert(handle, changed);
        }
        assert(handles@.take(index + 1) =~= handles@.take(index as int).push(handle));
        assert(handles@.take(index + 1).to_set() =~= handles@.take(index as int).to_set().insert(handle));
        index = index + 1;
    }
    assert(handles@.take(index as int) =~= handles@);
    result
}

/// The same names are interned after objects were moved, for the symbols at their new places.
proof fn lemma_interned_moved(
    before: Seq<(Vec<u8>, usize)>,
    after: Seq<(Vec<u8>, usize)>,
    moves: Map<usize, usize>,
)
    requires
        before.len() == after.len(),
        forall|i: int|
            0 <= i < before.len() ==> (#[trigger] after[i]).0@ == before[i].0@ && after[i].1 == moved(
                moves,
                before[i].1,
            ),
    ensures
        interned(after) =~= interned(before).map_values(|symbol: usize| moved(moves, symbol)),
    decreases before.len(),
{
    if before.len() > 0 {
        assert(after[after.len() - 1].0@ == before.last().0@);
        assert forall|i: int| 0 <= i < before.drop_last().len() implies (#[trigger] after.drop_last()[i]).0@
            == before.drop_last()[i].0@ && after.drop_last()[i].1 == moved(moves, before.drop_last()[i].1) by {
            assert(after.drop_last()[i] == after[i]);
        }
        lemma_interned_moved(before.drop_last(), after.drop_last(), moves);
    }
}

fn move_symbols(moves: &HashMap<usize, usize>, symbols: &Vec<(Vec<u8>, usize)>) -> (result: Vec<(Vec<u8>, usize)>)
    ensures
        interned(result@) == interned(symbols@).map_values(|symbol: usize| moved(moves@, symbol)),
{
    let mut result: Vec<(Vec<u8>, usize)> = Vec::new();
    let mut index: usize = 0;
    while index < symbols.len()
        invariant
            index <= symbols@.len(),
            result@.len() == index,
            forall|i: int|
                0 <= i < index ==> (#[trigger] result@[i]).0@ == symbols@[i].0@ && result@[i].1 == moved(
                    moves@,
                    symbols@[i].1,
                ),
        decreases symbols@.len() - index,
    {
        result.push((copy_bytes(&symbols[index].0), move_word(moves, symbols[index].1)));
        index = index + 1;
    }
    proof {
        lemma_interned_moved(symbols@, result@, moves@);
    }
    result
}

impl Runtime {
    /// Has objects stand somewhere else, as a collection has moved them.
    pub fn relocate(&mut self, moves: &HashMap<usize, usize>)
        requires
            old(self)@.well_formed(),
            can_move(old(self)@, moves@),
        ensures
            final(self)@.well_formed(),
            relocated(old(self)@, final(self)@, moves@),
    {
        let ghost before = self@;
        assert forall|left: usize, right: usize|
            #![trigger moved(moves@, left), moved(moves@, right)]
            self.objects@.contains_key(left) && self.objects@.contains_key(right) && moved(moves@, left) == moved(
                moves@,
                right,
            ) implies left == right by {
            assert(before.objects.contains_key(left) && before.objects.contains_key(right));
        }
        let ghost objects_before = self.objects@;
        let ghost threads_before = self.threads@;
        let objects = move_objects(moves, &self.objects);
        let threads = move_threads(moves, &self.threads);
        let symbols = move_symbols(moves, &self.symbols);
        self.objects = objects;
        self.threads = threads;
        self.symbols = symbols;
        proof {
            let after = self@;
            assert(after.threads =~= before.threads.map_values(|context: Context| moved_context(moves@, context)));
            assert forall|address: usize| #[trigger] before.objects.contains_key(
                address,
            ) implies after.objects.contains_key(moved(moves@, address)) && after.objects[moved(moves@, address)]
                == moved_thing(moves@, before.objects[address]) by {
                assert(objects_before.contains_key(address));
            }
            assert forall|place: usize| #[trigger] after.objects.contains_key(place) implies exists|
                address: usize,
            | #[trigger]
                before.objects.contains_key(address) && moved(moves@, address) == place by {
                assert(self.objects@.contains_key(place));
                let address = choose|address: usize| #[trigger]
                    objects_before.contains_key(address) && moved(moves@, address) == place;
                assert(before.objects.contains_key(address));
            }
            assert(relocated(before, after, moves@));
            assert forall|i: int| 0 <= i < after.space.len() implies is_heap_word(#[trigger] after.space[i])
                && !after.objects.contains_key(after.space[i]) by {
                if after.objects.contains_key(after.space[i]) {
                    assert(before.space.contains(before.space[i]));
                }
            }
            assert forall|name: Seq<u8>| #[trigger] after.symbols.contains_key(name) implies after.objects.contains_key(
                after.symbols[name],
            ) && after.objects[after.symbols[name]] == Thing::Symbol(name) && after.global_roots.contains(
                Root::Symbol(name),
            ) by {
                assert(before.symbols.contains_key(name));
                assert(before.objects.contains_key(before.symbols[name]));
            }
            assert forall|handle: usize| #[trigger] after.threads.contains_key(handle) implies 0 < handle
                < after.next_handle by {
                assert(before.threads.contains_key(handle));
            }
        }
    }

    /// Forgets an object that is dead. Interned symbols are not forgotten.
    pub fn forget(&mut self, address: usize) -> (gone: bool)
        requires
            old(self)@.well_formed(),
        ensures
            final(self)@.well_formed(),
            gone == (old(self)@.objects.contains_key(address) && forall|name: Seq<u8>| #[trigger]
                old(self)@.symbols.contains_key(name) ==> old(self)@.symbols[name] != address),
            final(self)@ == (if gone {
                World { objects: old(self)@.objects.remove(address), ..old(self)@ }
            } else {
                old(self)@
            }),
    {
        let ghost before = self@;
        let interned = match self.object(address) {
            None => {
                return false;
            },
            Some(Object::Symbol(name)) => match self.find_symbol(name) {
                Some(symbol) => {
                    assert(before.objects[address] == Thing::Symbol(name@));
                    symbol == address
                },
                None => false,
            },
            Some(_) => false,
        };
        proof {
            if exists|name: Seq<u8>| #[trigger] before.symbols.contains_key(name) && before.symbols[name] == address {
                let name = choose|name: Seq<u8>| #[trigger]
                    before.symbols.contains_key(name) && before.symbols[name] == address;
                assert(before.objects[before.symbols[name]] == Thing::Symbol(name));
            }
        }
        if interned {
            return false;
        }
        self.objects.remove(&address);
        assert(self@.objects =~= before.objects.remove(address));
        true
    }
}

} // verus!
