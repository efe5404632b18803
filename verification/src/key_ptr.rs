//! The cursor that a pull or push pass moves through the store.

use vstd::prelude::*;

verus! {

/// A position in the key-addressed store. A pull or a push takes the cells
/// from the cursor on and leaves the cursor behind them, so that fields laid
/// out one after the other are read and written in one pass.
pub struct KeyPtr {
    key: u64,
}

impl KeyPtr {
    /// The key of the cell the cursor points at.
    pub closed spec fn pos(&self) -> int {
        self.key as int
    }

    /// A cursor stays inside the store's keys.
    pub proof fn lemma_pos_in_keys(&self)
        ensures
            0 <= self.pos() <= u64::MAX,
    {
    }

    /// A cursor at `key`.
    pub fn new(key: u64) -> (ptr: KeyPtr)
        ensures
            ptr.pos() == key,
    {
        KeyPtr { key }
    }

    /// The key of the cell the cursor points at.
    pub fn key(&self) -> (key: u64)
        ensures
            key == self.pos(),
    {
        self.key
    }

    /// Hands out the key the cursor points at and moves the cursor
    /// `footprint` cells on.
    pub fn next_for(&mut self, footprint: u64) -> (key: u64)
        requires
            old(self).pos() + footprint <= u64::MAX,
        ensures
            key == old(self).pos(),
            final(self).pos() == old(self).pos() + footprint,
    {
        let key: u64 = self.key;
        self.key = key + footprint;
        key
    }
}

} // verus!
