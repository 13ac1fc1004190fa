//! How the operations of the runtime fit together.
use crate::runtime::access::{
    car_changed, cdr_changed, string_interned, symbol_named, vector_changed, vector_element, word_stored,
};
use crate::runtime::error::RuntimeError;
use crate::runtime::heap::{
    allocated, allocated_rooted, exception_taken, object_at, raised, root_popped, root_pushed,
    thread_bound, thread_unbound, with_symbol, written, Root, World,
};
use crate::runtime::layout::EMPTY_LIST;
use crate::runtime::lists::{
    appended, chain_ends, consed, elements_of, lemma_spine, lemma_spine_step, list_copied, list_made, list_reversed,
    pair_at, spine, spine_within,
};
use crate::runtime::object::{apart, first_slot, slot_count, slot_index, word_size, Thing};
use vstd::prelude::*;

verus! {

broadcast use vstd::seq_lib::group_seq_properties;

/// Whether everything that is there in one state is there, unchanged, in another, and only free
/// addresses were used.
pub open spec fn grew(before: World, after: World) -> bool {
    &&& forall|address: usize| #[trigger]
        before.objects.contains_key(address) ==> after.objects.contains_key(address) && after.objects[address]
            == before.objects[address]
    &&& forall|address: usize| #[trigger]
        after.objects.contains_key(address) ==> before.objects.contains_key(address) || before.space.contains(
            address,
        )
    &&& forall|address: usize| #[trigger]
        after.space.contains(address) ==> before.space.contains(address)
    &&& after.current == before.current
}

/// A new object is what was asked for, at an address that held nothing, and no other object is
/// touched.
pub proof fn lemma_allocated(world: World, thing: Thing)
    requires
        world.well_formed(),
    ensures
        allocated(world, thing).1 is Ok <==> world.current != 0 && world.space.len() > 0,
        allocated(world, thing).0.well_formed(),
        grew(world, allocated(world, thing).0),
        match allocated(world, thing) {
            (after, Ok(address)) => !world.objects.contains_key(address) && object_at(after.objects, address) == Some(
                thing,
            ),
            (after, Err(_)) => after == world,
        },
{
    reveal(allocated);
    let (after, result) = allocated(world, thing);
    if result is Ok {
        let address = world.space.last();
        assert(world.space[world.space.len() - 1] == address);
        assert forall|other: usize| #[trigger] after.space.contains(other) implies world.space.contains(other) by {
            let i = choose|i: int| 0 <= i < after.space.len() && after.space[i] == other;
            assert(world.space[i] == other);
        }
        assert(world.space.contains(address));
        assert forall|i: int| 0 <= i < after.space.len() implies crate::runtime::value::is_heap_word(
            #[trigger] after.space[i],
        ) && !after.objects.contains_key(after.space[i]) by {
            assert(after.space[i] == world.space[i]);
            assert(world.space[i] != world.space[world.space.len() - 1]);
        }
        assert forall|i: int, j: int| 0 <= i < j < after.space.len() implies #[trigger] after.space[i]
            != #[trigger] after.space[j] by {
            assert(world.space[i] != world.space[j]);
        }
    }
}

/// The parts of a new pair are those it was made of.
pub proof fn lemma_pair_made(world: World, car: usize, cdr: usize)
    requires
        world.well_formed(),
    ensures
        match allocated_rooted(world, Thing::Pair { car, cdr }) {
            (after, Ok(pair)) => pair_at(after.objects, pair) == Some((car, cdr)),
            (after, Err(error)) => after == world,
        },
{
    reveal(allocated_rooted);
    lemma_allocated(world, Thing::Pair { car, cdr });
}

/// After a part of a pair is replaced, the pair holds it, and its other part is as it was.
pub proof fn lemma_pair_changed(world: World, pair: usize, value: usize)
    requires
        world.well_formed(),
    ensures
        match pair_at(world.objects, pair) {
            Some((car, cdr)) => pair_at(car_changed(world, pair, value).0.objects, pair) == Some((value, cdr))
                && pair_at(cdr_changed(world, pair, value).0.objects, pair) == Some((car, value)),
            None => car_changed(world, pair, value).0 == world && cdr_changed(world, pair, value).0 == world,
        },
{
    reveal(car_changed);
    reveal(cdr_changed);
    reveal(written);
}

/// After an element of a vector is replaced, the vector holds it, and its other elements are as
/// they were.
pub proof fn lemma_vector_changed(world: World, vector: usize, index: nat, value: usize, other: nat)
    requires
        world.well_formed(),
        vector_element(world.objects, vector, index) is Ok,
    ensures
        vector_element(vector_changed(world, vector, index, value).0.objects, vector, index) == Ok::<
            usize,
            RuntimeError,
        >(value),
        other != index ==> vector_element(vector_changed(world, vector, index, value).0.objects, vector, other)
            == vector_element(world.objects, vector, other),
{
    reveal(vector_changed);
    reveal(written);
}

/// What an object has in a word that the collector follows.
pub open spec fn slot_value(thing: Thing, index: nat) -> usize {
    match thing {
        Thing::Pair { car, cdr } => if index == 0 {
            car
        } else {
            cdr
        },
        Thing::Boxed(value) => value,
        Thing::Closure { code_ptr, env } => env[index as int],
        Thing::Vector(elements) => elements[index as int],
        Thing::Values(elements) => elements[index as int],
        Thing::Promise { value, forced } => value,
        _ => 0,
    }
}

/// The words of an object that the collector follows lie within the object.
proof fn lemma_slot_inside(address: usize, thing: Thing, slot: usize)
    requires
        slot_index(address, thing, slot) is Some,
    ensures
        !apart(address, thing, slot),
{
    let word = word_size() as int;
    let offset = slot - address - first_slot(thing);
    let index = offset / word;
    assert(word == 4 || word == 8);
    assert(offset == index * word) by (nonlinear_arith)
        requires
            offset % word == 0,
            index == offset / word,
            word > 0,
    ;
    assert(offset < slot_count(thing) * word) by (nonlinear_arith)
        requires
            offset == index * word,
            index < slot_count(thing),
            word > 0,
    ;
}

/// A word that is stored on behalf of an object is what every object has there. Objects that have
/// no byte there are as they were, and no object comes or goes.
pub proof fn lemma_word_stored(world: World, slot: usize, value: usize, other: usize)
    requires
        world.well_formed(),
        slot != 0,
        world.objects.contains_key(other),
    ensures
        word_stored(world, slot, value).0.objects.dom() == world.objects.dom(),
        match slot_index(other, world.objects[other], slot) {
            Some(index) => slot_value(word_stored(world, slot, value).0.objects[other], index) == value,
            None => true,
        },
        apart(other, world.objects[other], slot) ==> word_stored(world, slot, value).0.objects[other]
            == world.objects[other],
{
    reveal(word_stored);
    let after = word_stored(world, slot, value).0;
    assert(after.objects.dom() =~= world.objects.dom());
    if slot_index(other, world.objects[other], slot) is Some {
        lemma_slot_inside(other, world.objects[other], slot);
    }
}

/// The symbol with a name has that name, the same name gives the same symbol again, and the
/// collector follows it.
pub proof fn lemma_symbol_interned(world: World, name: Seq<u8>)
    requires
        world.well_formed(),
    ensures
        match with_symbol(world, name) {
            (after, Ok(symbol)) => object_at(after.objects, symbol) == Some(Thing::Symbol(name)) && with_symbol(
                after,
                name,
            ) == (after, Ok::<usize, RuntimeError>(symbol)) && after.global_roots.contains(Root::Symbol(name)),
            (after, Err(error)) => after == world,
        },
{
    reveal(with_symbol);
    lemma_allocated(world, Thing::Symbol(name));
    if world.symbols.contains_key(name) {
        assert(world.objects.contains_key(world.symbols[name]));
    } else {
        let after = with_symbol(world, name).0;
        if with_symbol(world, name).1 is Ok {
            assert(after.global_roots.last() == Root::Symbol(name));
        }
    }
}

/// The name of an interned symbol, as a string, gives the symbol back.
pub proof fn lemma_symbol_round_trip(world: World, name: Seq<u8>)
    requires
        world.well_formed(),
        world.symbols.contains_key(name),
    ensures
        match symbol_named(world, world.symbols[name]) {
            (after, Ok(string)) => string_interned(after, string) == (
                after,
                Ok::<usize, RuntimeError>(world.symbols[name]),
            ),
            (after, Err(error)) => after == world,
        },
{
    reveal(symbol_named);
    reveal(string_interned);
    reveal(allocated_rooted);
    reveal(allocated);
    reveal(with_symbol);
    assert(world.objects.contains_key(world.symbols[name]));
    lemma_allocated(world, Thing::Text(name));
}

/// Popping a root slot undoes pushing one.
pub proof fn lemma_root_pushed_popped(world: World, thread: usize, slot: usize)
    ensures
        match root_pushed(world, thread, slot) {
            (after, Ok(_)) => root_popped(after, thread).1 is Ok && root_popped(after, thread).0.threads
                =~= world.threads && root_popped(after, thread).0.objects == world.objects,
            (after, Err(_)) => after == world,
        },
{
    reveal(root_pushed);
    reveal(root_popped);
    if root_pushed(world, thread, slot).1 is Ok {
        let after = root_pushed(world, thread, slot).0;
        assert(after.threads[thread].roots.drop_last() =~= world.threads[thread].roots);
        assert(root_popped(after, thread).0.threads =~= world.threads);
    }
}

/// A raised exception is pending until it is taken, and it is what is taken.
pub proof fn lemma_raised_taken(world: World, value: usize)
    requires
        world.well_formed(),
        world.current != 0,
    ensures
        raised(world, value).1 is Ok,
        raised(world, value).0.threads[world.current].pending == Some(value),
        exception_taken(raised(world, value).0).1 == Ok::<usize, RuntimeError>(value),
        exception_taken(raised(world, value).0).0.threads[world.current].pending is None,
{
    reveal(raised);
    reveal(exception_taken);
}

/// A bound thread calls, with no root slots and nothing pending, under a handle that was not
/// used before; unbinding it takes it away again.
pub proof fn lemma_thread_bound(world: World)
    requires
        world.well_formed(),
        world.next_handle < usize::MAX,
    ensures
        thread_bound(world).1 != 0,
        !world.threads.contains_key(thread_bound(world).1),
        thread_bound(world).0.current == thread_bound(world).1,
        thread_bound(world).0.threads[thread_bound(world).1].roots.len() == 0,
        thread_bound(world).0.threads[thread_bound(world).1].pending is None,
        thread_unbound(thread_bound(world).0, thread_bound(world).1).threads =~= world.threads,
        thread_unbound(thread_bound(world).0, thread_bound(world).1).current == 0,
{
    reveal(thread_bound);
    reveal(thread_unbound);
}

proof fn lemma_spine_kept(before: World, after: World, bits: usize, limit: nat)
    requires
        grew(before, after),
        spine_within(before.objects, bits, limit) is Some,
        !before.space.contains((spine_within(before.objects, bits, limit)->0).1),
    ensures
        spine_within(after.objects, bits, limit) == spine_within(before.objects, bits, limit),
    decreases limit,
{
    match pair_at(before.objects, bits) {
        Some((car, cdr)) => {
            assert(before.objects.contains_key(bits));
            lemma_spine_kept(before, after, cdr, (limit - 1) as nat);
        },
        None => {
            if after.objects.contains_key(bits) {
                assert(before.objects.contains_key(bits));
            }
        },
    }
}

/// A list stays as it is while new objects are made.
pub proof fn lemma_list_kept(before: World, after: World, bits: usize)
    requires
        grew(before, after),
        chain_ends(before.objects, bits),
        !before.space.contains(spine(before.objects, bits).1),
    ensures
        chain_ends(after.objects, bits),
        spine(after.objects, bits) == spine(before.objects, bits),
{
    let limit = choose|limit: nat| (#[trigger] spine_within(before.objects, bits, limit)) is Some;
    lemma_spine(before.objects, bits, limit);
    lemma_spine_kept(before, after, bits, limit);
    lemma_spine(after.objects, bits, limit);
}

proof fn lemma_consed(world: World, elements: Seq<usize>, tail: usize)
    requires
        world.well_formed(),
        chain_ends(world.objects, tail),
        !world.space.contains(spine(world.objects, tail).1),
    ensures
        consed(world, elements, tail).0.well_formed(),
        grew(world, consed(world, elements, tail).0),
        match consed(world, elements, tail) {
            (after, Ok(list)) => chain_ends(after.objects, list) && spine(after.objects, list) == (
                elements + spine(world.objects, tail).0,
                spine(world.objects, tail).1,
            ),
            (after, Err(_)) => true,
        },
    decreases elements.len(),
{
    if elements.len() == 0 {
        assert(elements + spine(world.objects, tail).0 =~= spine(world.objects, tail).0);
    } else {
        let thing = Thing::Pair { car: elements.last(), cdr: tail };
        reveal(allocated_rooted);
        lemma_allocated(world, thing);
        if let (after, Ok(pair)) = allocated_rooted(world, thing) {
            lemma_list_kept(world, after, tail);
            lemma_spine_step(after.objects, pair);
            let end = spine(world.objects, tail).1;
            assert(!after.space.contains(end));
            lemma_consed(after, elements.drop_last(), pair);
            assert(elements.drop_last() + (seq![elements.last()] + spine(world.objects, tail).0) =~= elements + spine(
                world.objects,
                tail,
            ).0);
        }
    }
}

proof fn lemma_empty_list(world: World)
    requires
        world.well_formed(),
    ensures
        chain_ends(world.objects, EMPTY_LIST),
        spine(world.objects, EMPTY_LIST) == (Seq::<usize>::empty(), EMPTY_LIST),
        !world.space.contains(EMPTY_LIST),
{
    lemma_spine_step(world.objects, EMPTY_LIST);
    if world.space.contains(EMPTY_LIST) {
        let i = choose|i: int| 0 <= i < world.space.len() && world.space[i] == EMPTY_LIST;
        assert(crate::runtime::value::is_heap_word(world.space[i]));
    }
}

/// A new list has the elements it was made of, and everything else is as it was.
pub proof fn lemma_list_made(world: World, elements: Seq<usize>)
    requires
        world.well_formed(),
    ensures
        grew(world, list_made(world, elements, EMPTY_LIST).0),
        match list_made(world, elements, EMPTY_LIST) {
            (after, Ok(list)) => chain_ends(after.objects, list) && elements_of(after.objects, list) == Ok::<
                Seq<usize>,
                RuntimeError,
            >(elements),
            (after, Err(_)) => true,
        },
{
    reveal(list_made);
    lemma_empty_list(world);
    lemma_consed(world, elements, EMPTY_LIST);
    assert(elements + Seq::<usize>::empty() =~= elements);
}

/// A copy of a list has the elements of the list; reversing puts them in the opposite order. The
/// list and everything else is as it was.
pub proof fn lemma_list_copied_reversed(world: World, list: usize)
    requires
        world.well_formed(),
        elements_of(world.objects, list) is Ok,
    ensures
        grew(world, list_copied(world, list).0),
        grew(world, list_reversed(world, list).0),
        match list_copied(world, list) {
            (after, Ok(copy)) => elements_of(after.objects, copy) == elements_of(world.objects, list),
            (after, Err(_)) => true,
        },
        match list_reversed(world, list) {
            (after, Ok(reversed)) => elements_of(after.objects, reversed) == Ok::<Seq<usize>, RuntimeError>(
                elements_of(world.objects, list)->Ok_0.reverse(),
            ),
            (after, Err(_)) => true,
        },
{
    reveal(list_copied);
    reveal(list_reversed);
    lemma_list_made(world, elements_of(world.objects, list)->Ok_0);
    lemma_list_made(world, elements_of(world.objects, list)->Ok_0.reverse());
}

/// Two lists, appended, have the elements of the first before those of the second. Both lists keep
/// their elements, and everything else is as it was.
pub proof fn lemma_lists_appended(world: World, left: usize, right: usize)
    requires
        world.well_formed(),
        chain_ends(world.objects, left),
        chain_ends(world.objects, right),
        elements_of(world.objects, left) is Ok,
        elements_of(world.objects, right) is Ok,
    ensures
        grew(world, appended(world, left, right).0),
        elements_of(appended(world, left, right).0.objects, left) == elements_of(world.objects, left),
        elements_of(appended(world, left, right).0.objects, right) == elements_of(world.objects, right),
        match appended(world, left, right) {
            (after, Ok(list)) => elements_of(after.objects, list) == Ok::<Seq<usize>, RuntimeError>(
                elements_of(world.objects, left)->Ok_0 + elements_of(world.objects, right)->Ok_0,
            ),
            (after, Err(_)) => true,
        },
{
    reveal(appended);
    reveal(list_made);
    lemma_empty_list(world);
    if left == EMPTY_LIST {
        assert(Seq::<usize>::empty() + elements_of(world.objects, right)->Ok_0 =~= elements_of(
            world.objects,
            right,
        )->Ok_0);
    } else {
        lemma_consed(world, elements_of(world.objects, left)->Ok_0, right);
    }
    lemma_list_kept(world, appended(world, left, right).0, left);
    lemma_list_kept(world, appended(world, left, right).0, right);
}

} // verus!
