//! What an element must offer to live in the store: a footprint, a pull, a
//! push, and a value to stand in a slot that was never written.

use crate::key_ptr::KeyPtr;
use crate::store::{agree_on, Cells, Store};
use vstd::prelude::*;

verus! {

/// The number of cells a value of the type occupies, one value after the
/// other. It is a property of the type: no value is needed to know it.
pub trait StorageFootprint {
    /// The number of cells of one value.
    spec fn footprint_spec() -> nat;

    /// The number of cells of one value.
    fn footprint() -> (cells: u64)
        ensures
            cells == Self::footprint_spec(),
    ;
}

/// Reading a value out of the store at a cursor.
pub trait PullForward: StorageFootprint + Sized {
    /// The value that the cells from `key` on hold, or `None` where they
    /// hold none.
    spec fn pulled(cells: Cells, key: int) -> Option<Self>;

    /// Reads the value at the cursor and moves the cursor past it.
    fn pull_forward(ptr: &mut KeyPtr, store: &Store) -> (out: Option<Self>)
        requires
            old(ptr).pos() + Self::footprint_spec() <= u64::MAX,
        ensures
            final(ptr).pos() == old(ptr).pos() + Self::footprint_spec(),
            out == Self::pulled(store@, old(ptr).pos()),
    ;
}

/// Writing a value into the store at a cursor.
pub trait PushForward: StorageFootprint {
    /// The cells after the value was written from `key` on.
    spec fn pushed(&self, cells: Cells, key: int) -> Cells;

    /// Writes the value at the cursor and moves the cursor past it.
    fn push_forward(&self, ptr: &mut KeyPtr, store: &mut Store)
        requires
            old(ptr).pos() + Self::footprint_spec() <= u64::MAX,
        ensures
            final(ptr).pos() == old(ptr).pos() + Self::footprint_spec(),
            final(store)@ == self.pushed(old(store)@, old(ptr).pos()),
    ;
}

/// A value for a slot that the store holds nothing for.
pub trait SaturatingStorage: StorageFootprint + Sized {
    /// The value that fills a slot never written.
    spec fn saturated() -> Self;

    /// The value that fills a slot never written.
    fn saturate() -> (out: Self)
        ensures
            out == Self::saturated(),
    ;
}

/// An element whose pull and push agree with each other and keep to their
/// own cells.
pub trait Storable: PullForward + PushForward {
    /// What was pushed at a key is what a pull at that key gives back.
    proof fn lemma_pull_after_push(value: Self, cells: Cells, key: int)
        ensures
            Self::pulled(value.pushed(cells, key), key) == Some(value),
    ;

    /// A push changes no cell outside the footprint that starts at its key.
    proof fn lemma_push_frame(value: Self, cells: Cells, key: int, lo: int, hi: int)
        requires
            hi <= key || key + Self::footprint_spec() <= lo,
        ensures
            agree_on(value.pushed(cells, key), cells, lo, hi),
    ;

    /// A pull reads no cell outside the footprint that starts at its key.
    proof fn lemma_pull_local(a: Cells, b: Cells, key: int)
        requires
            agree_on(a, b, key, key + Self::footprint_spec()),
        ensures
            Self::pulled(a, key) == Self::pulled(b, key),
    ;
}

impl StorageFootprint for u32 {
    open spec fn footprint_spec() -> nat {
        1
    }

    fn footprint() -> (cells: u64) {
        1
    }
}

impl PullForward for u32 {
    open spec fn pulled(cells: Cells, key: int) -> Option<u32> {
        if cells.contains_key(key) {
            Some(cells[key])
        } else {
            None
        }
    }

    fn pull_forward(ptr: &mut KeyPtr, store: &Store) -> (out: Option<u32>) {
        let key: u64 = ptr.next_for(1);
        store.get(key)
    }
}

impl PushForward for u32 {
    open spec fn pushed(&self, cells: Cells, key: int) -> Cells {
        cells.insert(key, *self)
    }

    fn push_forward(&self, ptr: &mut KeyPtr, store: &mut Store) {
        let key: u64 = ptr.next_for(1);
        store.set(key, *self);
    }
}

impl SaturatingStorage for u32 {
    open spec fn saturated() -> u32 {
        0
    }

    fn saturate() -> (out: u32) {
        0
    }
}

impl Storable for u32 {
    proof fn lemma_pull_after_push(value: u32, cells: Cells, key: int) {
    }

    proof fn lemma_push_frame(value: u32, cells: Cells, key: int, lo: int, hi: int) {
    }

    proof fn lemma_pull_local(a: Cells, b: Cells, key: int) {
    }
}

/// The low word of `value`.
pub open spec fn low_word(value: u64) -> u32 {
    (value & 0xffff_ffff) as u32
}

/// The high word of `value`.
pub open spec fn high_word(value: u64) -> u32 {
    (value >> 32) as u32
}

/// The value whose low word is `low` and whose high word is `high`.
pub open spec fn join_words(low: u32, high: u32) -> u64 {
    ((high as u64) << 32) | (low as u64)
}

/// A value is the join of its two words.
pub proof fn lemma_words_join(value: u64)
    ensures
        join_words(low_word(value), high_word(value)) == value,
{
    assert(((((value >> 32) as u32) as u64) << 32) | (((value & 0xffff_ffff) as u32) as u64)
        == value) by (bit_vector);
}

impl StorageFootprint for u64 {
    open spec fn footprint_spec() -> nat {
        2
    }

    fn footprint() -> (cells: u64) {
        2
    }
}

impl PullForward for u64 {
    open spec fn pulled(cells: Cells, key: int) -> Option<u64> {
        if cells.contains_key(key) && cells.contains_key(key + 1) {
            Some(join_words(cells[key], cells[key + 1]))
        } else {
            None
        }
    }

    fn pull_forward(ptr: &mut KeyPtr, store: &Store) -> (out: Option<u64>) {
        let key: u64 = ptr.next_for(2);
        match (store.get(key), store.get(key + 1)) {
            (Some(low), Some(high)) => Some(((high as u64) << 32) | (low as u64)),
            _ => None,
        }
    }
}

impl PushForward for u64 {
    open spec fn pushed(&self, cells: Cells, key: int) -> Cells {
        cells.insert(key, low_word(*self)).insert(key + 1, high_word(*self))
    }

    fn push_forward(&self, ptr: &mut KeyPtr, store: &mut Store) {
        let key: u64 = ptr.next_for(2);
        store.set(key, (*self & 0xffff_ffff) as u32);
        store.set(key + 1, (*self >> 32) as u32);
    }
}

impl SaturatingStorage for u64 {
    open spec fn saturated() -> u64 {
        0
    }

    fn saturate() -> (out: u64) {
        0
    }
}

impl Storable for u64 {
    proof fn lemma_pull_after_push(value: u64, cells: Cells, key: int) {
        lemma_words_join(value);
    }

    proof fn lemma_push_frame(value: u64, cells: Cells, key: int, lo: int, hi: int) {
    }

    proof fn lemma_pull_local(a: Cells, b: Cells, key: int) {
    }
}

} // verus!
