//! The backing array of a vector: a region of the store, and the slots of it
//! that are held in memory.

use crate::key_ptr::KeyPtr;
use crate::store::{Cells, Store};
use crate::traits::{PullForward, PushForward, SaturatingStorage, StorageFootprint};
use vstd::prelude::*;

verus! {

/// A slot takes up its footprint inside the region of the slots before and
/// after it.
pub proof fn lemma_slot_in_region(i: int, n: int, fp: int)
    requires
        0 <= i < n,
        0 <= fp,
    ensures
        0 <= i * fp,
        i * fp + fp <= n * fp,
{
    assert(0 <= i * fp && i * fp + fp <= n * fp) by (nonlinear_arith)
        requires
            0 <= i < n,
            0 <= fp,
    ;
}

/// What a backing array is, as a value: its number of slots, the region of
/// the store it belongs to, and what it holds in memory.
pub struct ArrayModel<T> {
    /// The number of slots.
    pub capacity: nat,
    /// The first cell of the region that the array was pulled from; `None`
    /// for an array that was made in memory.
    pub key: Option<int>,
    /// Slot by slot, the element held in memory, or `None` where the slot is
    /// left to the store.
    pub entries: Seq<Option<T>>,
}

impl<T> ArrayModel<T> {
    /// The array of `capacity` slots that holds nothing in memory.
    pub open spec fn empty(capacity: nat, key: Option<int>) -> Self {
        ArrayModel { capacity, key, entries: Seq::new(capacity, |i: int| None::<T>) }
    }

    /// The array with `value` held in the slot at index `i`.
    pub open spec fn put(self, i: int, value: T) -> Self {
        ArrayModel {
            capacity: self.capacity,
            key: self.key,
            entries: self.entries.update(i, Some(value)),
        }
    }

    /// The array with the slot at index `i` left to the store.
    pub open spec fn released(self, i: int) -> Self {
        ArrayModel {
            capacity: self.capacity,
            key: self.key,
            entries: self.entries.update(i, None),
        }
    }
}

impl<T: StorageFootprint> ArrayModel<T> {
    /// The number of cells that an array of `capacity` slots occupies.
    pub open spec fn footprint(capacity: nat) -> nat {
        capacity * T::footprint_spec()
    }

    /// The first cell of the slot at index `i` of a region that starts at
    /// `base`.
    pub open spec fn slot_key(base: int, i: int) -> int {
        base + i * T::footprint_spec()
    }

    /// Every slot has its entry, an index fits in `u32`, and the region, if
    /// there is one, ends inside the store's keys.
    pub open spec fn wf(self) -> bool {
        &&& self.entries.len() == self.capacity
        &&& self.capacity <= u32::MAX
        &&& (self.key matches Some(base) ==> 0 <= base && base + Self::footprint(self.capacity)
            <= u64::MAX)
    }
}

impl<T: PullForward> ArrayModel<T> {
    /// The element in the slot at index `i` when the store holds `cells`:
    /// the one held in memory, else the one that the array's region holds
    /// for that slot; `None` where neither holds one.
    pub open spec fn value_at(self, cells: Cells, i: int) -> Option<T> {
        match self.entries[i] {
            Some(value) => Some(value),
            None => match self.key {
                Some(base) => T::pulled(cells, Self::slot_key(base, i)),
                None => None,
            },
        }
    }
}

impl<T: PushForward> ArrayModel<T> {
    /// The cells after the first `n` slots were written back to the region
    /// that starts at `base`: each slot held in memory is pushed to its place,
    /// in the order of the slots; the others leave the store as it is.
    pub open spec fn flushed_upto(self, cells: Cells, base: int, n: int) -> Cells
        decreases n,
    {
        if n <= 0 {
            cells
        } else {
            let before = self.flushed_upto(cells, base, n - 1);
            match self.entries[n - 1] {
                Some(value) => value.pushed(before, Self::slot_key(base, n - 1)),
                None => before,
            }
        }
    }

    /// The cells after the whole array was written back to the region that
    /// starts at `base`.
    pub open spec fn flushed(self, cells: Cells, base: int) -> Cells {
        self.flushed_upto(cells, base, self.capacity as int)
    }
}

/// A fixed number of slots laid out one after the other in the store. A slot
/// is read from the store when it is asked for, and held in memory once it
/// was written or handed out for writing; only those slots are written back.
pub struct LazyArray<T> {
    capacity: u32,
    key: Option<u64>,
    slots: Vec<Option<T>>,
}

impl<T> LazyArray<T> {
    /// The array as a value.
    pub closed spec fn view(&self) -> ArrayModel<T> {
        ArrayModel {
            capacity: self.capacity as nat,
            key: match self.key {
                Some(base) => Some(base as int),
                None => None,
            },
            entries: Seq::new(
                self.capacity as nat,
                |i: int|
                    if i < self.slots@.len() {
                        self.slots@[i]
                    } else {
                        None
                    },
            ),
        }
    }

    /// No more slots are held in memory than the array has.
    pub closed spec fn inv(&self) -> bool {
        self.slots@.len() <= self.capacity
    }

    /// An array of `capacity` slots that belongs to no region of the store
    /// and holds nothing.
    pub fn new(capacity: u32) -> (array: Self)
        ensures
            array.inv(),
            array@ == ArrayModel::<T>::empty(capacity as nat, None),
    {
        let array = LazyArray { capacity, key: None, slots: Vec::new() };
        assert(array@.entries =~= ArrayModel::<T>::empty(capacity as nat, None).entries);
        array
    }

    /// The number of slots.
    pub fn capacity(&self) -> (capacity: u32)
        ensures
            capacity == self@.capacity,
    {
        self.capacity
    }

    /// Holds `value` in the slot at `index`.
    pub fn put(&mut self, index: u32, value: T)
        requires
            old(self).inv(),
            index < old(self)@.capacity,
        ensures
            final(self).inv(),
            final(self)@ == old(self)@.put(index as int, value),
    {
        let i: usize = index as usize;
        self.reserve_slot(i);
        self.slots[i] = Some(value);
        assert(self@.entries =~= old(self)@.put(index as int, value).entries);
    }

    /// Makes room in memory for the slot at `i`.
    fn reserve_slot(&mut self, i: usize)
        requires
            old(self).inv(),
            i < old(self).capacity,
        ensures
            final(self).inv(),
            final(self).capacity == old(self).capacity,
            final(self).key == old(self).key,
            final(self)@ == old(self)@,
            i < final(self).slots@.len(),
    {
        while self.slots.len() <= i
            invariant
                self.inv(),
                i < self.capacity,
                self.capacity == old(self).capacity,
                self.key == old(self).key,
                self@ == old(self)@,
            decreases i + 1 - self.slots@.len(),
        {
            let ghost before = self@;
            self.slots.push(None);
            assert(self@.entries =~= before.entries);
        }
    }
}

impl<T: StorageFootprint> LazyArray<T> {
    /// The array is sound in memory and as a value.
    pub open spec fn wf(&self) -> bool {
        self.inv() && self@.wf()
    }

    /// The number of cells that an array of `capacity` slots occupies, or
    /// `None` where that number is beyond `u64`.
    pub fn footprint(capacity: u32) -> (cells: Option<u64>)
        ensures
            cells == (if ArrayModel::<T>::footprint(capacity as nat) <= u64::MAX {
                Some(ArrayModel::<T>::footprint(capacity as nat) as u64)
            } else {
                None
            }),
    {
        let width: u64 = capacity as u64;
        width.checked_mul(T::footprint())
    }

    /// An array over the `capacity` slots that start at the cursor. Nothing
    /// is read yet; the cursor moves past the region.
    pub fn pull_forward(ptr: &mut KeyPtr, capacity: u32) -> (array: Self)
        requires
            old(ptr).pos() + ArrayModel::<T>::footprint(capacity as nat) <= u64::MAX,
        ensures
            final(ptr).pos() == old(ptr).pos() + ArrayModel::<T>::footprint(capacity as nat),
            array.wf(),
            array@ == ArrayModel::<T>::empty(capacity as nat, Some(old(ptr).pos())),
    {
        let width: u64 = capacity as u64;
        proof {
            ptr.lemma_pos_in_keys();
            assert(width * T::footprint_spec() == ArrayModel::<T>::footprint(capacity as nat));
        }
        let key: u64 = ptr.next_for(width * T::footprint());
        let array = LazyArray { capacity, key: Some(key), slots: Vec::new() };
        assert(array@.entries =~= ArrayModel::<T>::empty(capacity as nat, None).entries);
        array
    }
}

impl<T: PullForward> LazyArray<T> {
    /// Reads the slot at `index` from the array's region.
    fn pull_slot(&self, index: u32, store: &Store) -> (out: Option<T>)
        requires
            self.wf(),
            index < self@.capacity,
        ensures
            out == (match self@.key {
                Some(base) => T::pulled(store@, ArrayModel::<T>::slot_key(base, index as int)),
                None => None,
            }),
    {
        match self.key {
            Some(base) => {
                proof {
                    lemma_slot_in_region(
                        index as int,
                        self.capacity as int,
                        T::footprint_spec() as int,
                    );
                }
                let offset: u64 = (index as u64) * T::footprint();
                let mut ptr = KeyPtr::new(base + offset);
                T::pull_forward(&mut ptr, store)
            },
            None => None,
        }
    }

    /// The element in the slot at `index`, read from the store where it is
    /// not held in memory.
    pub fn get(&self, index: u32, store: &Store) -> (out: Option<T>) where T: Copy
        requires
            self.wf(),
            index < self@.capacity,
        ensures
            out == self@.value_at(store@, index as int),
    {
        let i: usize = index as usize;
        if i < self.slots.len() {
            if let Some(value) = &self.slots[i] {
                return Some(*value);
            }
        }
        self.pull_slot(index, store)
    }

    /// Takes the element out of the slot at `index`, reading it from the
    /// store where it is not held in memory, and leaves the slot to the
    /// store.
    pub fn take(&mut self, index: u32, store: &Store) -> (out: Option<T>)
        requires
            old(self).wf(),
            index < old(self)@.capacity,
        ensures
            out == old(self)@.value_at(store@, index as int),
            final(self).wf(),
            final(self)@ == old(self)@.released(index as int),
    {
        let i: usize = index as usize;
        if i < self.slots.len() {
            let held: Option<T> = self.slots[i].take();
            assert(self@.entries =~= old(self)@.released(index as int).entries);
            if held.is_some() {
                return held;
            }
        }
        assert(self@.entries =~= old(self)@.released(index as int).entries);
        self.pull_slot(index, store)
    }

    /// The element in the slot at `index`, for writing. Where the slot is not
    /// held in memory it is read from the store first, and filled with the
    /// saturated value where the store holds nothing for it. From then on
    /// the slot is held in memory.
    pub fn get_mut(&mut self, index: u32, store: &Store) -> (out: &mut T) where
        T: SaturatingStorage,

        requires
            old(self).wf(),
            index < old(self)@.capacity,
        ensures
            *out == (match old(self)@.value_at(store@, index as int) {
                Some(value) => value,
                None => T::saturated(),
            }),
            final(self).wf(),
            final(self)@.capacity == old(self)@.capacity,
            final(self)@.key == old(self)@.key,
            final(self)@.entries =~= old(self)@.entries.update(index as int, Some(*final(out))),
    {
        let i: usize = index as usize;
        self.reserve_slot(i);
        if self.slots[i].is_none() {
            let value: T = match self.pull_slot(index, store) {
                Some(value) => value,
                None => T::saturate(),
            };
            self.slots[i] = Some(value);
        }
        match &mut self.slots[i] {
            Some(value) => value,
            None => unreached(),
        }
    }
}

impl<T: PushForward> LazyArray<T> {
    /// Slots that are not held in memory add nothing to a flush.
    proof fn lemma_flush_rest(&self, cells: Cells, base: int, n: int)
        requires
            self.inv(),
            self.slots@.len() <= n <= self.capacity,
        ensures
            self@.flushed_upto(cells, base, n) == self@.flushed_upto(
                cells,
                base,
                self.slots@.len() as int,
            ),
        decreases n,
    {
        if n > self.slots@.len() {
            self.lemma_flush_rest(cells, base, n - 1);
        }
    }

    /// Writes the slots held in memory to the region that starts at the
    /// cursor, each to its place, and moves the cursor past the region.
    /// Slots that were left to the store are not touched.
    pub fn push_forward(&self, ptr: &mut KeyPtr, store: &mut Store)
        requires
            self.wf(),
            old(ptr).pos() + ArrayModel::<T>::footprint(self@.capacity) <= u64::MAX,
        ensures
            final(ptr).pos() == old(ptr).pos() + ArrayModel::<T>::footprint(self@.capacity),
            final(store)@ == self@.flushed(old(store)@, old(ptr).pos()),
    {
        let width: u64 = self.capacity as u64;
        let each: u64 = T::footprint();
        proof {
            ptr.lemma_pos_in_keys();
            assert(width * each == ArrayModel::<T>::footprint(self@.capacity));
        }
        let base: u64 = ptr.next_for(width * each);
        let mut i: usize = 0;
        while i < self.slots.len()
            invariant
                self.inv(),
                i <= self.slots@.len(),
                each == T::footprint_spec(),
                base == old(ptr).pos(),
                base + self.capacity * each <= u64::MAX,
                store@ == self@.flushed_upto(old(store)@, base as int, i as int),
            decreases self.slots@.len() - i,
        {
            proof {
                lemma_slot_in_region(i as int, self.capacity as int, each as int);
            }
            if let Some(value) = &self.slots[i] {
                let mut at = KeyPtr::new(base + (i as u64) * each);
                value.push_forward(&mut at, store);
            }
            i = i + 1;
        }
        proof {
            self.lemma_flush_rest(old(store)@, base as int, self.capacity as int);
        }
    }
}

} // verus!
