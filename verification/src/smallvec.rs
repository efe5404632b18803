//! The bounded storage vector.

use crate::iter::{Iter, IterModel, IterMut};
use crate::key_ptr::KeyPtr;
use crate::laws::{lemma_extend_empty, lemma_extend_len};
use crate::lazy_array::LazyArray;
use crate::store::Store;
use crate::traits::{PullForward, PushForward, SaturatingStorage, StorageFootprint};
use crate::vec_model::{same_element, VecModel};
use vstd::prelude::*;
use vstd::std_specs::cmp::PartialEqSpec;

verus! {

/// A vector of at most `capacity` elements that live in a region of the
/// store: one cell for the length, then one slot for each element it can
/// take. Elements are read slot by slot when they are asked for, and nothing
/// is written before `push_forward`.
///
/// A vector that is full takes no further element: `push` hands the value
/// back, and `extend` and `from_iter` hand back the whole sequence where it
/// does not fit.
pub struct SmallVec<T> {
    len: u32,
    elems: LazyArray<T>,
}

impl<T> SmallVec<T> {
    /// The vector as a value.
    pub closed spec fn view(&self) -> VecModel<T> {
        VecModel { len: self.len as nat, elems: self.elems@ }
    }

    /// The backing array is sound in memory.
    pub closed spec fn inv(&self) -> bool {
        self.elems.inv()
    }

    /// The number of elements.
    pub fn len(&self) -> (len: u32)
        ensures
            len == self@.len,
    {
        self.len
    }

    /// The number of elements that the vector can take.
    pub fn capacity(&self) -> (capacity: u32)
        ensures
            capacity == self@.elems.capacity,
    {
        self.elems.capacity()
    }
}

impl<T: StorageFootprint> SmallVec<T> {
    /// The vector is sound in memory and as a value.
    pub open spec fn wf(&self) -> bool {
        self.inv() && self@.wf()
    }

    /// A vector without elements that can take `capacity` of them.
    pub fn new(capacity: u32) -> (vec: Self)
        ensures
            vec.wf(),
            vec@ == VecModel::<T>::empty(capacity as nat),
    {
        SmallVec { len: 0, elems: LazyArray::new(capacity) }
    }

    /// Adds `value` at the end. A full vector stays as it is and hands the
    /// value back.
    pub fn push(&mut self, value: T) -> (done: Result<(), T>)
        requires
            old(self).wf(),
        ensures
            final(self).wf(),
            old(self)@.len < old(self)@.elems.capacity ==> {
                &&& done is Ok
                &&& final(self)@ == old(self)@.push(value)
            },
            old(self)@.len >= old(self)@.elems.capacity ==> {
                &&& done == Err::<(), T>(value)
                &&& final(self)@ == old(self)@
            },
    {
        if self.len >= self.elems.capacity() {
            return Err(value);
        }
        self.elems.put(self.len, value);
        self.len = self.len + 1;
        Ok(())
    }

    /// Adds each of `items` at the end, first to last. Where they do not all
    /// fit, the vector stays as it is and hands them back.
    pub fn extend(&mut self, items: Vec<T>) -> (done: Result<(), Vec<T>>)
        requires
            old(self).wf(),
        ensures
            final(self).wf(),
            old(self)@.len + items@.len() <= old(self)@.elems.capacity ==> {
                &&& done is Ok
                &&& final(self)@ == old(self)@.extend(items@)
            },
            old(self)@.len + items@.len() > old(self)@.elems.capacity ==> {
                &&& done == Err::<(), Vec<T>>(items)
                &&& final(self)@ == old(self)@
            },
    {
        let room: u32 = self.elems.capacity() - self.len;
        if items.len() > room as usize {
            return Err(items);
        }
        let ghost all = items@;
        for item in walk: items
            invariant
                walk.seq() == all,
                self.wf(),
                old(self).wf(),
                old(self)@.len + all.len() <= old(self)@.elems.capacity,
                self@ == old(self)@.extend(all.take(walk.index() as int)),
        {
            proof {
                let i = walk.index() as int;
                lemma_extend_len(old(self)@, all.take(i));
                assert(all.take(i + 1).drop_last() =~= all.take(i));
            }
            let _ = self.push(item);
        }
        assert(all.take(all.len() as int) =~= all);
        Ok(())
    }

    /// The vector that holds `items` in order and can take `capacity`
    /// elements; where they are more than `capacity`, they are handed back.
    pub fn from_iter(items: Vec<T>, capacity: u32) -> (built: Result<Self, Vec<T>>)
        ensures
            items@.len() <= capacity ==> (built matches Ok(vec) && vec.wf() && vec@
                == VecModel::from_seq(items@, capacity as nat)),
            items@.len() > capacity ==> built == Err::<Self, Vec<T>>(items),
    {
        let mut vec: SmallVec<T> = SmallVec::new(capacity);
        proof {
            if items@.len() <= capacity {
                lemma_extend_empty(items@, capacity as nat);
            }
        }
        match vec.extend(items) {
            Ok(()) => Ok(vec),
            Err(items) => Err(items),
        }
    }

    /// The number of cells that a vector for `capacity` elements occupies,
    /// or `None` where that number is beyond `u64`. It depends on the
    /// element type and the capacity alone.
    pub fn footprint(capacity: u32) -> (cells: Option<u64>)
        ensures
            cells == (if VecModel::<T>::footprint(capacity as nat) <= u64::MAX {
                Some(VecModel::<T>::footprint(capacity as nat) as u64)
            } else {
                None
            }),
    {
        match LazyArray::<T>::footprint(capacity) {
            Some(cells) => cells.checked_add(1),
            None => None,
        }
    }
}

impl<T: PullForward> SmallVec<T> {
    /// The element at `index`, read from the store where it is not held in
    /// memory; `None` at or past the length.
    pub fn get(&self, index: u32, store: &Store) -> (out: Option<T>) where T: Copy
        requires
            self.wf(),
        ensures
            out == self@.get(store@, index as int),
    {
        if index >= self.len {
            return None;
        }
        self.elems.get(index, store)
    }

    /// The element at `index`, which must be there.
    pub fn index(&self, index: u32, store: &Store) -> (out: T) where T: Copy
        requires
            self.wf(),
            self@.get(store@, index as int) is Some,
        ensures
            Some(out) == self@.get(store@, index as int),
    {
        match self.get(index, store) {
            Some(value) => value,
            None => unreached(),
        }
    }

    /// Removes the last element and returns it, read from the store where
    /// it is not held in memory; `None` for a vector without elements.
    pub fn pop(&mut self, store: &Store) -> (out: Option<T>)
        requires
            old(self).wf(),
        ensures
            final(self).wf(),
            old(self)@.len == 0 ==> out is None && final(self)@ == old(self)@,
            old(self)@.len > 0 ==> {
                &&& out == old(self)@.get(store@, old(self)@.len - 1)
                &&& final(self)@ == old(self)@.pop()
            },
    {
        if self.len == 0 {
            return None;
        }
        let last: u32 = self.len - 1;
        self.len = last;
        self.elems.take(last, store)
    }

    /// The element at `index`, for writing; `None` at or past the length.
    /// An element that the store holds nothing for starts out as the
    /// saturated value.
    pub fn get_mut(&mut self, index: u32, store: &Store) -> (out: Option<&mut T>) where
        T: SaturatingStorage,

        requires
            old(self).wf(),
        ensures
            final(self).wf(),
            index >= old(self)@.len ==> out is None && final(self)@ == old(self)@,
            index < old(self)@.len ==> {
                &&& out is Some
                &&& *out->0 == old(self)@.get_or_saturated(store@, index as int)
                &&& final(self)@ == old(self)@.set(index as int, *final(out->0))
            },
    {
        if index >= self.len {
            return None;
        }
        Some(self.elems.get_mut(index, store))
    }

    /// The element at `index`, which must be below the length, for writing.
    pub fn index_mut(&mut self, index: u32, store: &Store) -> (out: &mut T) where
        T: SaturatingStorage,

        requires
            old(self).wf(),
            index < old(self)@.len,
        ensures
            *out == old(self)@.get_or_saturated(store@, index as int),
            final(self).wf(),
            final(self)@ == old(self)@.set(index as int, *final(out)),
    {
        self.elems.get_mut(index, store)
    }

    /// A walk over all elements, as `store` holds them.
    pub fn iter<'a>(&'a self, store: &'a Store) -> (iter: Iter<'a, T>) where T: Copy
        requires
            self.wf(),
        ensures
            iter.wf(),
            iter@ == IterModel::start(self@, store@),
            iter@.remaining() == self@.elements(store@),
    {
        let iter = Iter::over(&self.elems, self.len, store);
        assert(iter@.remaining() =~= self@.elements(store@));
        iter
    }

    /// A walk over all elements that hands them out for writing. When the
    /// walk ends, the vector is as the walk left its backing array.
    pub fn iter_mut<'a>(&'a mut self, store: &'a Store) -> (iter: IterMut<'a, T>) where
        T: SaturatingStorage,

        requires
            old(self).wf(),
        ensures
            iter.wf(),
            iter@ == IterModel::start(old(self)@, store@),
            final(self)@.len == old(self)@.len,
            final(self)@.elems == final(iter.target())@,
            final(self).inv() == final(iter.target()).inv(),
    {
        IterMut::over(&mut self.elems, self.len, store)
    }

    /// Whether the two vectors are of one length and hold equal elements at
    /// each index, as `store` holds them.
    pub fn eq(&self, other: &Self, store: &Store) -> (equal: bool) where T: Copy + PartialEq
        requires
            self.wf(),
            other.wf(),
        ensures
            self@.len != other@.len ==> !equal,
            T::obeys_eq_spec() ==> equal == self@.eq_in(other@, store@),
    {
        if self.len != other.len {
            return false;
        }
        let mut lhs = self.iter(store);
        let mut rhs = other.iter(store);
        let mut i: u32 = 0;
        while i < self.len
            invariant
                i <= self.len,
                self.len == other.len,
                lhs.wf(),
                rhs.wf(),
                lhs@ == IterModel::start(self@, store@).from(i as nat),
                rhs@ == IterModel::start(other@, store@).from(i as nat),
                T::obeys_eq_spec() ==> forall|j: int|
                    0 <= j < i ==> same_element(
                        #[trigger] self@.elems.value_at(store@, j),
                        other@.elems.value_at(store@, j),
                    ),
            decreases self.len - i,
        {
            let same: bool = match (lhs.next(), rhs.next()) {
                (Some(x), Some(y)) => x == y,
                (None, None) => true,
                _ => false,
            };
            if !same {
                return false;
            }
            i = i + 1;
        }
        true
    }

    /// The vector for `capacity` elements that the store holds at the
    /// cursor. The length is read; the elements stay in the store until they
    /// are asked for. `None` where the store holds no length there, or one
    /// beyond `capacity`. The cursor moves past the vector's region either
    /// way.
    pub fn pull_forward(ptr: &mut KeyPtr, store: &Store, capacity: u32) -> (out: Option<Self>)
        requires
            old(ptr).pos() + VecModel::<T>::footprint(capacity as nat) <= u64::MAX,
        ensures
            final(ptr).pos() == old(ptr).pos() + VecModel::<T>::footprint(capacity as nat),
            out is Some <==> VecModel::<T>::pulled(store@, old(ptr).pos(), capacity as nat) is Some,
            out matches Some(vec) ==> {
                &&& vec.wf()
                &&& VecModel::<T>::pulled(store@, old(ptr).pos(), capacity as nat) == Some(vec@)
            },
    {
        proof {
            ptr.lemma_pos_in_keys();
        }
        let len: Option<u32> = u32::pull_forward(ptr, store);
        let elems: LazyArray<T> = LazyArray::pull_forward(ptr, capacity);
        match len {
            Some(len) => if len <= capacity {
                Some(SmallVec { len, elems })
            } else {
                None
            },
            None => None,
        }
    }
}

impl<T: PushForward> SmallVec<T> {
    /// Writes the vector to the store at the cursor: the length, then the
    /// elements held in memory, each to its slot. Elements that were left
    /// to the store are not written. The cursor moves past the vector's
    /// region.
    pub fn push_forward(&self, ptr: &mut KeyPtr, store: &mut Store)
        requires
            self.wf(),
            old(ptr).pos() + VecModel::<T>::footprint(self@.elems.capacity) <= u64::MAX,
        ensures
            final(ptr).pos() == old(ptr).pos() + VecModel::<T>::footprint(self@.elems.capacity),
            final(store)@ == self@.pushed(old(store)@, old(ptr).pos()),
    {
        proof {
            ptr.lemma_pos_in_keys();
        }
        self.len.push_forward(ptr, store);
        self.elems.push_forward(ptr, store);
    }
}

} // verus!
