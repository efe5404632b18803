//! What holds of the vectors whatever they contain: how a write to the
//! store and a read from it fit together, and how the operations on a
//! vector combine.

use crate::iter::IterModel;
use crate::lazy_array::{lemma_slot_in_region, ArrayModel};
use crate::store::{agree_on, Cells};
use crate::traits::{PullForward, PushForward, Storable, StorageFootprint};
use crate::vec_model::{same_element, VecModel};
use vstd::prelude::*;
use vstd::std_specs::cmp::PartialEqSpec;

verus! {

/// Writing the first `n` slots of an array back changes no cell outside the
/// region of those slots.
pub proof fn lemma_flush_frame<T: Storable>(
    array: ArrayModel<T>,
    cells: Cells,
    base: int,
    n: int,
    lo: int,
    hi: int,
)
    requires
        0 <= n,
        hi <= base || base + n * T::footprint_spec() <= lo,
    ensures
        agree_on(array.flushed_upto(cells, base, n), cells, lo, hi),
    decreases n,
{
    if n > 0 {
        let fp = T::footprint_spec() as int;
        lemma_slot_in_region(n - 1, n, fp);
        let before = array.flushed_upto(cells, base, n - 1);
        lemma_flush_frame(array, cells, base, n - 1, lo, hi);
        match array.entries[n - 1] {
            Some(value) => {
                T::lemma_push_frame(value, before, ArrayModel::<T>::slot_key(base, n - 1), lo, hi);
            },
            None => {},
        }
    }
}

/// After the first `n` slots of an array were written back, the region holds
/// for a slot what the array held in memory for it, and for a slot that was
/// left to the store what it held before.
pub proof fn lemma_flush_slot<T: Storable>(
    array: ArrayModel<T>,
    cells: Cells,
    base: int,
    n: int,
    i: int,
)
    requires
        0 <= n,
        0 <= i,
    ensures
        T::pulled(array.flushed_upto(cells, base, n), ArrayModel::<T>::slot_key(base, i))
            == (if i < n && array.entries[i] is Some {
            array.entries[i]
        } else {
            T::pulled(cells, ArrayModel::<T>::slot_key(base, i))
        }),
    decreases n,
{
    if n > 0 {
        let fp = T::footprint_spec() as int;
        let at = ArrayModel::<T>::slot_key(base, i);
        let before = array.flushed_upto(cells, base, n - 1);
        lemma_flush_slot(array, cells, base, n - 1, i);
        match array.entries[n - 1] {
            Some(value) => {
                let written = ArrayModel::<T>::slot_key(base, n - 1);
                if i == n - 1 {
                    T::lemma_pull_after_push(value, before, written);
                } else {
                    if i < n - 1 {
                        lemma_slot_in_region(i, n - 1, fp);
                    } else {
                        lemma_slot_in_region(n - 1, i, fp);
                    }
                    T::lemma_push_frame(value, before, written, at, at + fp);
                    T::lemma_pull_local(value.pushed(before, written), before, at);
                }
            },
            None => {},
        }
    }
}

/// Writing a vector to the store changes no cell outside the vector's
/// region.
pub proof fn lemma_pushed_frame<T: Storable>(
    vec: VecModel<T>,
    cells: Cells,
    key: int,
    lo: int,
    hi: int,
)
    requires
        hi <= key || key + VecModel::<T>::footprint(vec.elems.capacity) <= lo,
    ensures
        agree_on(vec.pushed(cells, key), cells, lo, hi),
{
    let with_len = (vec.len as u32).pushed(cells, key);
    lemma_flush_frame(vec.elems, with_len, key + 1, vec.elems.capacity as int, lo, hi);
}

/// After a vector was written to the store, its region holds for each index
/// below the length the element that the vector held there. This holds of a
/// vector that was built in memory, and of one that is written back to the
/// region it was pulled from.
pub proof fn lemma_pushed_slot<T: Storable>(vec: VecModel<T>, cells: Cells, key: int, index: int)
    requires
        vec.wf(),
        vec.elems.key is None || vec.elems.key == Some(key + 1),
        0 <= index < vec.len,
    ensures
        T::pulled(vec.pushed(cells, key), ArrayModel::<T>::slot_key(key + 1, index))
            == vec.elems.value_at(cells, index),
        vec.elems.value_at(vec.pushed(cells, key), index) == vec.elems.value_at(cells, index),
{
    let capacity = vec.elems.capacity as int;
    let with_len = (vec.len as u32).pushed(cells, key);
    lemma_flush_slot(vec.elems, with_len, key + 1, capacity, index);
    if vec.elems.entries[index] is None {
        lemma_slot_in_region(index, capacity, T::footprint_spec() as int);
        T::lemma_pull_local(with_len, cells, ArrayModel::<T>::slot_key(key + 1, index));
    }
}

/// A vector that was written to the store is found there again: a pull at
/// the same key gives a vector of the same length with the same elements in
/// the same order. This holds of a vector that was built in memory, and of
/// one that is written back to the region it was pulled from.
pub proof fn lemma_round_trip<T: Storable>(vec: VecModel<T>, cells: Cells, key: int)
    requires
        vec.wf(),
        vec.elems.key is None || vec.elems.key == Some(key + 1),
    ensures
        ({
            let stored = vec.pushed(cells, key);
            &&& VecModel::<T>::pulled(stored, key, vec.elems.capacity) matches Some(back)
            &&& back.len == vec.len
            &&& back.elements(stored) == vec.elements(cells)
            &&& vec.elements(stored) == vec.elements(cells)
        }),
{
    let capacity = vec.elems.capacity;
    let with_len = (vec.len as u32).pushed(cells, key);
    let stored = vec.pushed(cells, key);
    lemma_flush_frame(vec.elems, with_len, key + 1, capacity as int, key, key + 1);
    assert(with_len.contains_key(key));
    let back = VecModel::<T>::pulled(stored, key, capacity)->0;
    assert forall|i: int| 0 <= i < vec.len implies {
        &&& back.elems.value_at(stored, i) == vec.elems.value_at(cells, i)
        &&& vec.elems.value_at(stored, i) == vec.elems.value_at(cells, i)
    } by {
        lemma_pushed_slot(vec, cells, key, i);
    }
    assert(back.elements(stored) =~= vec.elements(cells));
    assert(vec.elements(stored) =~= vec.elements(cells));
}

/// A vector that was written to the store equals the vector that a pull
/// finds there, by the equality of vectors, where every element equals
/// itself.
pub proof fn lemma_round_trip_eq<T: Storable + PartialEq>(
    vec: VecModel<T>,
    cells: Cells,
    key: int,
)
    requires
        vec.wf(),
        vec.elems.key is None || vec.elems.key == Some(key + 1),
        forall|value: T| #[trigger] value.eq_spec(&value),
    ensures
        ({
            let stored = vec.pushed(cells, key);
            &&& VecModel::<T>::pulled(stored, key, vec.elems.capacity) matches Some(back)
            &&& back.eq_in(vec, stored)
            &&& vec.eq_in(back, stored)
        }),
{
    let stored = vec.pushed(cells, key);
    lemma_round_trip(vec, cells, key);
    let back = VecModel::<T>::pulled(stored, key, vec.elems.capacity)->0;
    assert forall|i: int| 0 <= i < vec.len implies {
        &&& same_element(#[trigger] back.elems.value_at(stored, i), vec.elems.value_at(stored, i))
        &&& same_element(#[trigger] vec.elems.value_at(stored, i), back.elems.value_at(stored, i))
    } by {
        assert(back.elements(stored)[i] == vec.elements(stored)[i]);
    }
}

/// Pushing the items of a sequence one by one into a vector without
/// elements gives the vector that is built from the sequence directly.
pub proof fn lemma_extend_empty<T>(items: Seq<T>, capacity: nat)
    requires
        items.len() <= capacity,
    ensures
        VecModel::<T>::empty(capacity).extend(items) == VecModel::from_seq(items, capacity),
    decreases items.len(),
{
    if items.len() > 0 {
        lemma_extend_empty(items.drop_last(), capacity);
        assert(VecModel::from_seq(items.drop_last(), capacity).push(items.last()).elems.entries
            =~= VecModel::from_seq(items, capacity).elems.entries);
    } else {
        assert(VecModel::<T>::empty(capacity).elems.entries =~= VecModel::from_seq(
            items,
            capacity,
        ).elems.entries);
    }
}

/// Each push adds one to the length, and leaves a vector with room sound.
pub proof fn lemma_extend_len<T: StorageFootprint>(vec: VecModel<T>, items: Seq<T>)
    requires
        vec.wf(),
        vec.len + items.len() <= vec.elems.capacity,
    ensures
        vec.extend(items).wf(),
        vec.extend(items).len == vec.len + items.len(),
        vec.extend(items).elems.capacity == vec.elems.capacity,
        vec.extend(items).elems.key == vec.elems.key,
    decreases items.len(),
{
    if items.len() > 0 {
        lemma_extend_len(vec, items.drop_last());
    }
}

/// After a push, the new last index holds the pushed value and every
/// index before it holds what it held.
pub proof fn lemma_get_after_push<T: PullForward>(
    vec: VecModel<T>,
    value: T,
    cells: Cells,
    index: int,
)
    requires
        vec.wf(),
        vec.len < vec.elems.capacity,
    ensures
        vec.push(value).get(cells, index) == (if index == vec.len {
            Some(value)
        } else {
            vec.get(cells, index)
        }),
{
}

/// After a write at an index below the length, that index holds the written
/// value and every other index holds what it held.
pub proof fn lemma_get_after_set<T: PullForward>(
    vec: VecModel<T>,
    at: int,
    value: T,
    cells: Cells,
    index: int,
)
    requires
        vec.wf(),
        0 <= at < vec.len,
    ensures
        vec.set(at, value).get(cells, index) == (if index == at {
            Some(value)
        } else {
            vec.get(cells, index)
        }),
{
}

/// After a pop, the last index is gone and every index before it holds
/// what it held.
pub proof fn lemma_get_after_pop<T: PullForward>(vec: VecModel<T>, cells: Cells, index: int)
    requires
        vec.wf(),
        vec.len > 0,
    ensures
        vec.pop().get(cells, index) == (if index == vec.len - 1 {
            None
        } else {
            vec.get(cells, index)
        }),
{
}

/// Each pop takes one from the length, and leaves a vector sound.
pub proof fn lemma_pop_times_len<T: StorageFootprint>(vec: VecModel<T>, times: nat)
    requires
        vec.wf(),
        times <= vec.len,
    ensures
        vec.pop_times(times).wf(),
        vec.pop_times(times).len == vec.len - times,
    decreases times,
{
    if times > 0 {
        lemma_pop_times_len(vec.pop(), (times - 1) as nat);
    }
}

/// The length after pushes and then pops is the length before, plus the
/// number of pushes, less the number of pops.
pub proof fn lemma_len_after_pushes_and_pops<T: StorageFootprint>(
    vec: VecModel<T>,
    items: Seq<T>,
    pops: nat,
)
    requires
        vec.wf(),
        vec.len + items.len() <= vec.elems.capacity,
        pops <= vec.len + items.len(),
    ensures
        vec.extend(items).len == vec.len + items.len(),
        vec.extend(items).pop_times(pops).len == vec.len + items.len() - pops,
{
    lemma_extend_len(vec, items);
    lemma_pop_times_len(vec.extend(items), pops);
}

/// A vector built from a sequence holds exactly that sequence, in order,
/// whatever the store holds.
pub proof fn lemma_elements_of_from_seq<T: PullForward>(
    items: Seq<T>,
    capacity: nat,
    cells: Cells,
)
    requires
        items.len() <= capacity,
    ensures
        VecModel::from_seq(items, capacity).elements(cells) == items.map_values(
            |item: T| Some(item),
        ),
{
    assert(VecModel::from_seq(items, capacity).elements(cells) =~= items.map_values(
        |item: T| Some(item),
    ));
}

/// A walk that starts over a vector has all of the vector's elements to
/// come: stepped from the front it yields them in order, stepped from the
/// back in reverse order.
pub proof fn lemma_walk_start<T: PullForward>(vec: VecModel<T>, cells: Cells)
    ensures
        IterModel::start(vec, cells).remaining() == vec.elements(cells),
        IterModel::start(vec, cells).forward() == vec.elements(cells),
        IterModel::start(vec, cells).backward() == vec.elements(cells).reverse(),
{
    assert(IterModel::start(vec, cells).remaining() =~= vec.elements(cells));
    lemma_walk_forward(IterModel::start(vec, cells));
    lemma_walk_backward(IterModel::start(vec, cells));
}

/// A step from the front takes the first of what is to come and leaves the
/// rest; a step from the back takes the last and leaves the rest. So no
/// index is yielded twice and none is passed over, from whichever ends the
/// steps are made.
pub proof fn lemma_walk_step<T: PullForward>(walk: IterModel<T>)
    requires
        walk.count() > 0,
    ensures
        walk.step().remaining() == walk.remaining().drop_first(),
        walk.step_back().remaining() == walk.remaining().drop_last(),
{
    assert(walk.step().remaining() =~= walk.remaining().drop_first());
    assert(walk.step_back().remaining() =~= walk.remaining().drop_last());
}

/// Stepped from the front to the end, a walk yields what was to come, in
/// order.
pub proof fn lemma_walk_forward<T: PullForward>(walk: IterModel<T>)
    ensures
        walk.forward() == walk.remaining(),
    decreases walk.count(),
{
    if walk.count() > 0 {
        lemma_walk_forward(walk.step());
        lemma_walk_step(walk);
        assert(walk.forward() =~= walk.remaining());
    } else {
        assert(walk.forward() =~= walk.remaining());
    }
}

/// Stepped from the back to the end, a walk yields what was to come, in
/// reverse order.
pub proof fn lemma_walk_backward<T: PullForward>(walk: IterModel<T>)
    ensures
        walk.backward() == walk.remaining().reverse(),
    decreases walk.count(),
{
    if walk.count() > 0 {
        lemma_walk_backward(walk.step_back());
        lemma_walk_step(walk);
        assert(walk.backward() =~= walk.remaining().reverse());
    } else {
        assert(walk.backward() =~= walk.remaining().reverse());
    }
}

} // verus!
