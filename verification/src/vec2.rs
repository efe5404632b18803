//! The dynamic storage vector.

use crate::iter::{Iter, IterModel, IterMut};
use crate::key_ptr::KeyPtr;
use crate::laws::lemma_extend_len;
use crate::smallvec::SmallVec;
use crate::store::Store;
use crate::traits::{PullForward, PushForward, SaturatingStorage, StorageFootprint};
use crate::vec_model::VecModel;
use vstd::prelude::*;
use vstd::std_specs::cmp::PartialEqSpec;

verus! {

/// A vector that is bounded only by the width of its index: it can take as
/// many elements as a `u32` counts. It lives in the store as the bounded
/// vector does, and is as lazy.
///
/// A vector of `u32::MAX` elements takes no further element: `push` hands
/// the value back, and `extend` and `from_iter` hand back the whole sequence
/// where it does not fit.
pub struct Vec2<T> {
    bounded: SmallVec<T>,
}

impl<T> Vec2<T> {
    /// The number of elements that a vector can take.
    pub open spec fn limit() -> nat {
        u32::MAX as nat
    }

    /// The vector as a value.
    pub closed spec fn view(&self) -> VecModel<T> {
        self.bounded@
    }

    /// The backing array is sound in memory.
    pub closed spec fn inv(&self) -> bool {
        self.bounded.inv()
    }

    /// The number of elements.
    pub fn len(&self) -> (len: u32)
        ensures
            len == self@.len,
    {
        self.bounded.len()
    }
}

impl<T: StorageFootprint> Vec2<T> {
    /// The vector is sound in memory and as a value.
    pub open spec fn wf(&self) -> bool {
        self.inv() && self@.wf() && self@.elems.capacity == Self::limit()
    }

    /// A vector without elements.
    pub fn new() -> (vec: Self)
        ensures
            vec.wf(),
            vec@ == VecModel::<T>::empty(Self::limit()),
    {
        Vec2 { bounded: SmallVec::new(u32::MAX) }
    }

    /// Adds `value` at the end. A vector of `u32::MAX` elements stays as it
    /// is and hands the value back.
    pub fn push(&mut self, value: T) -> (done: Result<(), T>)
        requires
            old(self).wf(),
        ensures
            final(self).wf(),
            old(self)@.len < Self::limit() ==> {
                &&& done is Ok
                &&& final(self)@ == old(self)@.push(value)
            },
            old(self)@.len >= Self::limit() ==> {
                &&& done == Err::<(), T>(value)
                &&& final(self)@ == old(self)@
            },
    {
        self.bounded.push(value)
    }

    /// Adds each of `items` at the end, first to last. Where that would be
    /// more than `u32::MAX` elements, the vector stays as it is and hands
    /// them back.
    pub fn extend(&mut self, items: Vec<T>) -> (done: Result<(), Vec<T>>)
        requires
            old(self).wf(),
        ensures
            final(self).wf(),
            old(self)@.len + items@.len() <= Self::limit() ==> {
                &&& done is Ok
                &&& final(self)@ == old(self)@.extend(items@)
            },
            old(self)@.len + items@.len() > Self::limit() ==> {
                &&& done == Err::<(), Vec<T>>(items)
                &&& final(self)@ == old(self)@
            },
    {
        proof {
            if old(self)@.len + items@.len() <= Self::limit() {
                lemma_extend_len(old(self)@, items@);
            }
        }
        self.bounded.extend(items)
    }

    /// The vector that holds `items` in order; where they are more than
    /// `u32::MAX`, they are handed back.
    pub fn from_iter(items: Vec<T>) -> (built: Result<Self, Vec<T>>)
        ensures
            items@.len() <= Self::limit() ==> (built matches Ok(vec) && vec.wf() && vec@
                == VecModel::from_seq(items@, Self::limit())),
            items@.len() > Self::limit() ==> built == Err::<Self, Vec<T>>(items),
    {
        match SmallVec::from_iter(items, u32::MAX) {
            Ok(bounded) => Ok(Vec2 { bounded }),
            Err(items) => Err(items),
        }
    }

    /// The number of cells that a vector occupies, or `None` where that
    /// number is beyond `u64`. It depends on the element type alone.
    pub fn footprint() -> (cells: Option<u64>)
        ensures
            cells == (if VecModel::<T>::footprint(Self::limit()) <= u64::MAX {
                Some(VecModel::<T>::footprint(Self::limit()) as u64)
            } else {
                None
            }),
    {
        SmallVec::<T>::footprint(u32::MAX)
    }
}

impl<T: PullForward> Vec2<T> {
    /// The element at `index`, read from the store where it is not held in
    /// memory; `None` at or past the length.
    pub fn get(&self, index: u32, store: &Store) -> (out: Option<T>) where T: Copy
        requires
            self.wf(),
        ensures
            out == self@.get(store@, index as int),
    {
        self.bounded.get(index, store)
    }

    /// The element at `index`, which must be there.
    pub fn index(&self, index: u32, store: &Store) -> (out: T) where T: Copy
        requires
            self.wf(),
            self@.get(store@, index as int) is Some,
        ensures
            Some(out) == self@.get(store@, index as int),
    {
        self.bounded.index(index, store)
    }

    /// Removes the last element and returns it, read from the store where
    /// it is not held in memory; `None` for a vector without elements.
    pub fn pop(&mut self, store: &Store) -> (out: Option<T>)
        requires
            old(self).wf(),
        ensures
            final(self).wf(),
            old(self)@.len == 0 ==> out is None && final(self)@ == old(self)@,
            old(self)@.len > 0 ==> {
                &&& out == old(self)@.get(store@, old(self)@.len - 1)
                &&& final(self)@ == old(self)@.pop()
            },
    {
        self.bounded.pop(store)
    }

    /// The element at `index`, for writing; `None` at or past the length.
    /// An element that the store holds nothing for starts out as the
    /// saturated value.
    pub fn get_mut(&mut self, index: u32, store: &Store) -> (out: Option<&mut T>) where
        T: SaturatingStorage,

        requires
            old(self).wf(),
        ensures
            final(self).wf(),
            index >= old(self)@.len ==> out is None && final(self)@ == old(self)@,
            index < old(self)@.len ==> {
                &&& out is Some
                &&& *out->0 == old(self)@.get_or_saturated(store@, index as int)
                &&& final(self)@ == old(self)@.set(index as int, *final(out->0))
            },
    {
        self.bounded.get_mut(index, store)
    }

    /// The element at `index`, which must be below the length, for writing.
    pub fn index_mut(&mut self, index: u32, store: &Store) -> (out: &mut T) where
        T: SaturatingStorage,

        requires
            old(self).wf(),
            index < old(self)@.len,
        ensures
            *out == old(self)@.get_or_saturated(store@, index as int),
            final(self).wf(),
            final(self)@ == old(self)@.set(index as int, *final(out)),
    {
        self.bounded.index_mut(index, store)
    }

    /// A walk over all elements, as `store` holds them.
    pub fn iter<'a>(&'a self, store: &'a Store) -> (iter: Iter<'a, T>) where T: Copy
        requires
            self.wf(),
        ensures
            iter.wf(),
            iter@ == IterModel::start(self@, store@),
            iter@.remaining() == self@.elements(store@),
    {
        self.bounded.iter(store)
    }

    /// A walk over all elements that hands them out for writing. When the
    /// walk ends, the vector is as the walk left its backing array.
    pub fn iter_mut<'a>(&'a mut self, store: &'a Store) -> (iter: IterMut<'a, T>) where
        T: SaturatingStorage,

        requires
            old(self).wf(),
        ensures
            iter.wf(),
            iter@ == IterModel::start(old(self)@, store@),
            final(self)@.len == old(self)@.len,
            final(self)@.elems == final(iter.target())@,
            final(self).inv() == final(iter.target()).inv(),
    {
        self.bounded.iter_mut(store)
    }

    /// Whether the two vectors are of one length and hold equal elements at
    /// each index, as `store` holds them.
    pub fn eq(&self, other: &Self, store: &Store) -> (equal: bool) where T: Copy + PartialEq
        requires
            self.wf(),
            other.wf(),
        ensures
            self@.len != other@.len ==> !equal,
            T::obeys_eq_spec() ==> equal == self@.eq_in(other@, store@),
    {
        self.bounded.eq(&other.bounded, store)
    }

    /// The vector that the store holds at the cursor. The length is read;
    /// the elements stay in the store until they are asked for. `None` where
    /// the store holds no length there. The cursor moves past the vector's
    /// region either way.
    pub fn pull_forward(ptr: &mut KeyPtr, store: &Store) -> (out: Option<Self>)
        requires
            old(ptr).pos() + VecModel::<T>::footprint(Self::limit()) <= u64::MAX,
        ensures
            final(ptr).pos() == old(ptr).pos() + VecModel::<T>::footprint(Self::limit()),
            out is Some <==> VecModel::<T>::pulled(store@, old(ptr).pos(), Self::limit()) is Some,
            out matches Some(vec) ==> {
                &&& vec.wf()
                &&& VecModel::<T>::pulled(store@, old(ptr).pos(), Self::limit()) == Some(vec@)
            },
    {
        match SmallVec::pull_forward(ptr, store, u32::MAX) {
            Some(bounded) => Some(Vec2 { bounded }),
            None => None,
        }
    }
}

impl<T: PushForward> Vec2<T> {
    /// Writes the vector to the store at the cursor: the length, then the
    /// elements held in memory, each to its slot. Elements that were left
    /// to the store are not written. The cursor moves past the vector's
    /// region.
    pub fn push_forward(&self, ptr: &mut KeyPtr, store: &mut Store)
        requires
            self.wf(),
            old(ptr).pos() + VecModel::<T>::footprint(Self::limit()) <= u64::MAX,
        ensures
            final(ptr).pos() == old(ptr).pos() + VecModel::<T>::footprint(Self::limit()),
            final(store)@ == self@.pushed(old(store)@, old(ptr).pos()),
    {
        self.bounded.push_forward(ptr, store)
    }
}

} // verus!
