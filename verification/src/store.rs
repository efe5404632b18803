//! The key-addressed store: numbered cells, each empty or holding one word.

use std::collections::HashMap;
use vstd::prelude::*;

verus! {

broadcast use vstd::std_specs::hash::group_hash_axioms;

/// What a store holds, cell by cell: the keys of the written cells and the
/// word in each.
pub type Cells = Map<int, u32>;

/// Whether `a` and `b` hold the same in every cell from `lo` up to, not
/// including, `hi`.
pub open spec fn agree_on(a: Cells, b: Cells, lo: int, hi: int) -> bool {
    forall|k: int|
        lo <= k < hi ==> {
            &&& #[trigger] a.contains_key(k) == b.contains_key(k)
            &&& a.contains_key(k) ==> a[k] == b[k]
        }
}

/// A key-addressed store of single-word cells.
pub struct Store {
    cells: HashMap<u64, u32>,
}

impl Store {
    /// The written cells and the word in each.
    pub closed spec fn view(&self) -> Cells {
        Map::new(
            |k: int| 0 <= k <= u64::MAX && self.cells@.contains_key(k as u64),
            |k: int| self.cells@[k as u64],
        )
    }

    /// A store in which no cell was written.
    pub fn new() -> (store: Store)
        ensures
            store@ == Cells::empty(),
    {
        let store = Store { cells: HashMap::new() };
        assert(store@ =~= Cells::empty());
        store
    }

    /// The word in the cell at `key`, if that cell was written.
    pub fn get(&self, key: u64) -> (word: Option<u32>)
        ensures
            word == (if self@.contains_key(key as int) {
                Some(self@[key as int])
            } else {
                None
            }),
    {
        match self.cells.get(&key) {
            Some(word) => Some(*word),
            None => None,
        }
    }

    /// Writes `word` into the cell at `key`.
    pub fn set(&mut self, key: u64, word: u32)
        ensures
            final(self)@ == old(self)@.insert(key as int, word),
    {
        self.cells.insert(key, word);
        assert(self@ =~= old(self)@.insert(key as int, word));
    }
}

} // verus!
