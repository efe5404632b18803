//! What a storage vector is, as a value, and what its operations do to it.

use crate::lazy_array::ArrayModel;
use crate::store::Cells;
use crate::traits::{PullForward, PushForward, SaturatingStorage, StorageFootprint};
use vstd::prelude::*;
use vstd::std_specs::cmp::PartialEqSpec;

verus! {

/// A storage vector as a value: its length and its backing array. Only the
/// slots below the length are elements.
pub struct VecModel<T> {
    /// The number of elements.
    pub len: nat,
    /// The backing array.
    pub elems: ArrayModel<T>,
}

impl<T> VecModel<T> {
    /// The vector without elements that can take `capacity` of them and
    /// belongs to no region of the store.
    pub open spec fn empty(capacity: nat) -> Self {
        VecModel { len: 0, elems: ArrayModel::empty(capacity, None) }
    }

    /// The vector with `value` added at the end.
    pub open spec fn push(self, value: T) -> Self {
        VecModel { len: self.len + 1, elems: self.elems.put(self.len as int, value) }
    }

    /// The vector without its last element.
    pub open spec fn pop(self) -> Self {
        VecModel { len: (self.len - 1) as nat, elems: self.elems.released(self.len - 1) }
    }

    /// The vector with `value` written at index `i`.
    pub open spec fn set(self, i: int, value: T) -> Self {
        VecModel { len: self.len, elems: self.elems.put(i, value) }
    }

    /// The vector after each of `items` was pushed, first to last.
    pub open spec fn extend(self, items: Seq<T>) -> Self
        decreases items.len(),
    {
        if items.len() == 0 {
            self
        } else {
            self.extend(items.drop_last()).push(items.last())
        }
    }

    /// The vector after its last element was removed `times` times.
    pub open spec fn pop_times(self, times: nat) -> Self
        decreases times,
    {
        if times == 0 {
            self
        } else {
            self.pop().pop_times((times - 1) as nat)
        }
    }

    /// The vector that holds exactly `items`, in memory, and can take
    /// `capacity` elements.
    pub open spec fn from_seq(items: Seq<T>, capacity: nat) -> Self {
        VecModel {
            len: items.len(),
            elems: ArrayModel {
                capacity,
                key: None,
                entries: Seq::new(
                    capacity,
                    |i: int|
                        if i < items.len() {
                            Some(items[i])
                        } else {
                            None
                        },
                ),
            },
        }
    }
}

impl<T: StorageFootprint> VecModel<T> {
    /// The number of cells that a vector for `capacity` elements occupies:
    /// one for the length, then the backing array.
    pub open spec fn footprint(capacity: nat) -> nat {
        1 + ArrayModel::<T>::footprint(capacity)
    }

    /// The backing array is sound, the length is within the capacity, and a
    /// vector that belongs to no region holds each of its elements in
    /// memory.
    pub open spec fn wf(self) -> bool {
        &&& self.elems.wf()
        &&& self.len <= self.elems.capacity
        &&& (self.elems.key is None ==> forall|i: int|
            0 <= i < self.len ==> (#[trigger] self.elems.entries[i]) is Some)
    }
}

impl<T: PullForward> VecModel<T> {
    /// What is found at `index` when the store holds `cells`: the element,
    /// or `None` at or past the length, and where neither memory nor store
    /// holds anything for the slot.
    pub open spec fn get(self, cells: Cells, index: int) -> Option<T> {
        if 0 <= index < self.len {
            self.elems.value_at(cells, index)
        } else {
            None
        }
    }

    /// The element that is handed out for writing at `index`: what is found
    /// there, or the saturated value where nothing is.
    pub open spec fn get_or_saturated(self, cells: Cells, index: int) -> T where
        T: SaturatingStorage,
     {
        match self.get(cells, index) {
            Some(value) => value,
            None => T::saturated(),
        }
    }

    /// The elements in order when the store holds `cells`.
    pub open spec fn elements(self, cells: Cells) -> Seq<Option<T>> {
        Seq::new(self.len, |i: int| self.elems.value_at(cells, i))
    }

    /// The vector for `capacity` elements that the cells from `key` on hold:
    /// its length is read from the cell at `key`, its elements are left to the
    /// store. `None` where that cell is empty or holds more than `capacity`.
    pub open spec fn pulled(cells: Cells, key: int, capacity: nat) -> Option<Self> {
        match u32::pulled(cells, key) {
            Some(len) => if len <= capacity {
                Some(VecModel { len: len as nat, elems: ArrayModel::empty(capacity, Some(key + 1)) })
            } else {
                None
            },
            None => None,
        }
    }
}

impl<T: PushForward> VecModel<T> {
    /// The cells after the vector was written from `key` on: the length into
    /// the cell at `key`, then the elements held in memory, each to its
    /// place behind it.
    pub open spec fn pushed(self, cells: Cells, key: int) -> Cells {
        self.elems.flushed((self.len as u32).pushed(cells, key), key + 1)
    }
}

/// Whether two slots hold equal elements, or both hold none.
pub open spec fn same_element<T: PartialEq>(a: Option<T>, b: Option<T>) -> bool {
    match (a, b) {
        (Some(x), Some(y)) => x.eq_spec(&y),
        (None, None) => true,
        _ => false,
    }
}

impl<T: PullForward + PartialEq> VecModel<T> {
    /// Whether two vectors are equal when the store holds `cells`: they are
    /// of one length, and at each index their elements are equal.
    pub open spec fn eq_in(self, other: Self, cells: Cells) -> bool {
        &&& self.len == other.len
        &&& forall|i: int|
            0 <= i < self.len ==> same_element(
                #[trigger] self.elems.value_at(cells, i),
                other.elems.value_at(cells, i),
            )
    }
}

} // verus!
