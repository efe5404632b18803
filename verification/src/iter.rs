//! Walking a storage vector from both ends.

use crate::lazy_array::{ArrayModel, LazyArray};
use crate::store::{Cells, Store};
use crate::traits::{PullForward, SaturatingStorage, StorageFootprint};
use crate::vec2::Vec2;
use crate::vec_model::VecModel;
use vstd::prelude::*;

verus! {

/// A walk as a value: the backing array and the cells it reads, and the part
/// of the vector that is still to come, from `begin` up to, not including,
/// `end`.
pub struct IterModel<T> {
    /// The backing array of the vector.
    pub elems: ArrayModel<T>,
    /// What the store holds.
    pub cells: Cells,
    /// The index that `next` yields.
    pub begin: nat,
    /// One past the index that `next_back` yields.
    pub end: nat,
}

impl<T> IterModel<T> {
    /// The walk over all of `vec` when the store holds `cells`.
    pub open spec fn start(vec: VecModel<T>, cells: Cells) -> Self {
        IterModel { elems: vec.elems, cells, begin: 0, end: vec.len }
    }

    /// The walk with `begin` as the index that comes next.
    pub open spec fn from(self, begin: nat) -> Self {
        IterModel { elems: self.elems, cells: self.cells, begin, end: self.end }
    }

    /// The walk after its first index was yielded.
    pub open spec fn step(self) -> Self {
        IterModel { elems: self.elems, cells: self.cells, begin: self.begin + 1, end: self.end }
    }

    /// The walk after its last index was yielded.
    pub open spec fn step_back(self) -> Self {
        IterModel {
            elems: self.elems,
            cells: self.cells,
            begin: self.begin,
            end: (self.end - 1) as nat,
        }
    }

    /// The walk over another state of the same array.
    pub open spec fn over(self, elems: ArrayModel<T>) -> Self {
        IterModel { elems, cells: self.cells, begin: self.begin, end: self.end }
    }

    /// The number of indices still to come.
    pub open spec fn count(self) -> nat {
        if self.begin <= self.end {
            (self.end - self.begin) as nat
        } else {
            0
        }
    }
}

impl<T: StorageFootprint> IterModel<T> {
    /// The array is sound and the part still to come lies inside it.
    pub open spec fn wf(self) -> bool {
        &&& self.elems.wf()
        &&& self.begin <= self.end <= self.elems.capacity
    }
}

impl<T: PullForward> IterModel<T> {
    /// What is handed out for writing at index `i`: the element there, or
    /// the saturated value where neither memory nor store holds one.
    pub open spec fn value_or_saturated(self, i: int) -> T where T: SaturatingStorage {
        match self.elems.value_at(self.cells, i) {
            Some(value) => value,
            None => T::saturated(),
        }
    }

    /// The walk after the element at index `i` was handed out for writing
    /// and left as `value`.
    pub open spec fn written(self, i: int, value: T) -> Self {
        self.over(self.elems.put(i, value))
    }

    /// What is still to come, in the order of the indices.
    pub open spec fn remaining(self) -> Seq<Option<T>> {
        Seq::new(self.count(), |i: int| self.elems.value_at(self.cells, self.begin + i))
    }

    /// What the walk yields when it is stepped from the front until nothing
    /// is left, in the order in which it is yielded.
    pub open spec fn forward(self) -> Seq<Option<T>>
        decreases self.count(),
    {
        if self.count() == 0 {
            Seq::empty()
        } else {
            seq![self.remaining().first()] + self.step().forward()
        }
    }

    /// What the walk yields when it is stepped from the back until nothing
    /// is left, in the order in which it is yielded.
    pub open spec fn backward(self) -> Seq<Option<T>>
        decreases self.count(),
    {
        if self.count() == 0 {
            Seq::empty()
        } else {
            seq![self.remaining().last()] + self.step_back().backward()
        }
    }
}

/// A walk over the elements of a storage vector, from either end. Any
/// number of them may walk one vector at a time.
#[derive(Clone, Copy)]
pub struct Iter<'a, T> {
    elems: &'a LazyArray<T>,
    store: &'a Store,
    begin: u32,
    end: u32,
}

impl<'a, T> Iter<'a, T> {
    /// The walk as a value.
    pub closed spec fn view(&self) -> IterModel<T> {
        IterModel {
            elems: self.elems@,
            cells: self.store@,
            begin: self.begin as nat,
            end: self.end as nat,
        }
    }

    /// The backing array is sound in memory.
    pub closed spec fn inv(&self) -> bool {
        self.elems.inv()
    }

    /// The number of elements still to come, as the lower and the upper
    /// bound.
    pub fn size_hint(&self) -> (hint: (usize, Option<usize>))
        requires
            self@.begin <= self@.end,
        ensures
            hint.0 == self@.count(),
            hint.1 == Some(hint.0),
    {
        let remaining: usize = (self.end - self.begin) as usize;
        (remaining, Some(remaining))
    }
}

impl<'a, T: StorageFootprint> Iter<'a, T> {
    /// The walk is sound in memory and as a value.
    pub open spec fn wf(&self) -> bool {
        self.inv() && self@.wf()
    }

    /// A walk over the slots of `elems` below `len`.
    pub(crate) fn over(elems: &'a LazyArray<T>, len: u32, store: &'a Store) -> (iter: Self)
        requires
            elems.wf(),
            len <= elems@.capacity,
        ensures
            iter.wf(),
            iter@ == (IterModel { elems: elems@, cells: store@, begin: 0, end: len as nat }),
    {
        Iter { elems, store, begin: 0, end: len }
    }
}

impl<'a, T: PullForward + Copy> Iter<'a, T> {
    /// A walk over all elements of `vec`, as `store` holds them.
    pub fn new(vec: &'a Vec2<T>, store: &'a Store) -> (iter: Self)
        requires
            vec.wf(),
        ensures
            iter.wf(),
            iter@ == IterModel::start(vec@, store@),
            iter@.remaining() == vec@.elements(store@),
    {
        vec.iter(store)
    }

    /// Yields the first element still to come and steps past it; `None`
    /// when nothing is left, and from then on. An index that neither memory
    /// nor store holds an element for yields `None` as well: `size_hint`
    /// tells whether the walk has ended.
    pub fn next(&mut self) -> (out: Option<T>)
        requires
            old(self).wf(),
        ensures
            final(self).wf(),
            old(self)@.count() == 0 ==> out is None && final(self)@ == old(self)@,
            old(self)@.count() > 0 ==> {
                &&& out == old(self)@.remaining().first()
                &&& final(self)@ == old(self)@.step()
                &&& final(self)@.remaining() == old(self)@.remaining().drop_first()
            },
    {
        if self.begin == self.end {
            return None;
        }
        let cur: u32 = self.begin;
        self.begin = cur + 1;
        assert(self@.remaining() =~= old(self)@.remaining().drop_first());
        self.elems.get(cur, self.store)
    }

    /// Yields the last element still to come and steps back before it;
    /// `None` when nothing is left, and from then on. An index that neither
    /// memory nor store holds an element for yields `None` as well:
    /// `size_hint` tells whether the walk has ended.
    pub fn next_back(&mut self) -> (out: Option<T>)
        requires
            old(self).wf(),
        ensures
            final(self).wf(),
            old(self)@.count() == 0 ==> out is None && final(self)@ == old(self)@,
            old(self)@.count() > 0 ==> {
                &&& out == old(self)@.remaining().last()
                &&& final(self)@ == old(self)@.step_back()
                &&& final(self)@.remaining() == old(self)@.remaining().drop_last()
            },
    {
        if self.begin == self.end {
            return None;
        }
        self.end = self.end - 1;
        assert(self@.remaining() =~= old(self)@.remaining().drop_last());
        self.elems.get(self.end, self.store)
    }
}

/// A walk over the elements of a storage vector that hands them out for
/// writing, from either end. It holds the vector for itself as long as it
/// lives, and hands out each index at most once; what it hands out is
/// borrowed from the walk and ends before the next step.
pub struct IterMut<'a, T> {
    elems: &'a mut LazyArray<T>,
    store: &'a Store,
    begin: u32,
    end: u32,
}

impl<'a, T> IterMut<'a, T> {
    /// The walk as a value, over the backing array as it is now.
    pub closed spec fn view(&self) -> IterModel<T> {
        IterModel {
            elems: (*self.elems)@,
            cells: self.store@,
            begin: self.begin as nat,
            end: self.end as nat,
        }
    }

    /// The backing array is sound in memory.
    pub closed spec fn inv(&self) -> bool {
        self.elems.inv()
    }

    /// The backing array that the walk holds.
    pub closed spec fn target(&self) -> &'a mut LazyArray<T> {
        self.elems
    }

    /// When a walk has ended, the backing array stays as the walk holds it.
    pub proof fn lemma_walk_ended(&self)
        ensures
            has_resolved(*self) ==> {
                &&& final(self.target())@ == self@.elems
                &&& final(self.target()).inv() == self.inv()
            },
    {
    }

    /// The number of elements still to come, as the lower and the upper
    /// bound.
    pub fn size_hint(&self) -> (hint: (usize, Option<usize>))
        requires
            self@.begin <= self@.end,
        ensures
            hint.0 == self@.count(),
            hint.1 == Some(hint.0),
    {
        let remaining: usize = (self.end - self.begin) as usize;
        (remaining, Some(remaining))
    }
}

impl<'a, T: StorageFootprint> IterMut<'a, T> {
    /// The walk is sound in memory and as a value.
    pub open spec fn wf(&self) -> bool {
        self.inv() && self@.wf()
    }

    /// A walk over the slots of `elems` below `len`.
    pub(crate) fn over(elems: &'a mut LazyArray<T>, len: u32, store: &'a Store) -> (iter: Self)
        requires
            old(elems).wf(),
            len <= old(elems)@.capacity,
        ensures
            iter.wf(),
            iter@ == (IterModel { elems: old(elems)@, cells: store@, begin: 0, end: len as nat }),
            *final(elems) == *final(iter.target()),
    {
        IterMut { elems, store, begin: 0, end: len }
    }
}

impl<'a, T: PullForward + SaturatingStorage> IterMut<'a, T> {
    /// A walk over all elements of `vec`, as `store` holds them. When the
    /// walk ends, the vector is as the walk left its backing array.
    pub fn new(vec: &'a mut Vec2<T>, store: &'a Store) -> (iter: Self)
        requires
            old(vec).wf(),
        ensures
            iter.wf(),
            iter@ == IterModel::start(old(vec)@, store@),
            final(vec)@.len == old(vec)@.len,
            final(vec)@.elems == final(iter.target())@,
            final(vec).inv() == final(iter.target()).inv(),
    {
        vec.iter_mut(store)
    }

    /// The element at `at`, for writing.
    fn get_mut(&mut self, at: u32) -> (out: &mut T)
        requires
            old(self).wf(),
            at < old(self)@.elems.capacity,
        ensures
            *out == old(self)@.value_or_saturated(at as int),
            final(self).wf(),
            final(self)@ == old(self)@.written(at as int, *final(out)),
            *final(final(self).target()) == *final(old(self).target()),
    {
        self.elems.get_mut(at, self.store)
    }

    /// Hands out the first element still to come and steps past it; `None`
    /// when nothing is left, and from then on. An element that the store
    /// holds nothing for starts out as the saturated value.
    pub fn next(&mut self) -> (out: Option<&mut T>)
        requires
            old(self).wf(),
        ensures
            final(self).wf(),
            *final(final(self).target()) == *final(old(self).target()),
            old(self)@.count() == 0 ==> out is None && final(self)@ == old(self)@,
            old(self)@.count() > 0 ==> {
                &&& out is Some
                &&& *out->0 == old(self)@.value_or_saturated(old(self)@.begin as int)
                &&& final(self)@ == old(self)@.step().written(
                    old(self)@.begin as int,
                    *final(out->0),
                )
            },
    {
        if self.begin == self.end {
            return None;
        }
        let cur: u32 = self.begin;
        self.begin = cur + 1;
        Some(self.get_mut(cur))
    }

    /// Hands out the last element still to come and steps back before it;
    /// `None` when nothing is left, and from then on. An element that the
    /// store holds nothing for starts out as the saturated value.
    pub fn next_back(&mut self) -> (out: Option<&mut T>)
        requires
            old(self).wf(),
        ensures
            final(self).wf(),
            *final(final(self).target()) == *final(old(self).target()),
            old(self)@.count() == 0 ==> out is None && final(self)@ == old(self)@,
            old(self)@.count() > 0 ==> {
                &&& out is Some
                &&& *out->0 == old(self)@.value_or_saturated(old(self)@.end - 1)
                &&& final(self)@ == old(self)@.step_back().written(
                    old(self)@.end - 1,
                    *final(out->0),
                )
            },
    {
        if self.begin == self.end {
            return None;
        }
        self.end = self.end - 1;
        let cur: u32 = self.end;
        Some(self.get_mut(cur))
    }
}

} // verus!
