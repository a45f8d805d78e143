use vstd::prelude::*;

use crate::keys::KeyCode;

verus! {

broadcast use vstd::seq_lib::lemma_seq_contains_after_push;

/// A finite set of keys.
pub struct KeySet {
    keys: Vec<KeyCode>,
}

impl View for KeySet {
    type V = Set<KeyCode>;

    closed spec fn view(&self) -> Set<KeyCode> {
        self.keys@.to_set()
    }
}

impl KeySet {
    /// The empty set.
    pub fn new() -> (r: KeySet)
        ensures
            r@ == Set::<KeyCode>::empty(),
    {
        let r = KeySet { keys: Vec::new() };
        assert(r@ =~= Set::<KeyCode>::empty());
        r
    }

    /// Whether `key` is in the set.
    pub fn contains(&self, key: KeyCode) -> (r: bool)
        ensures
            r == self@.contains(key),
    {
        let mut i: usize = 0;
        while i < self.keys.len()
            invariant
                i <= self.keys@.len(),
                forall|j: int| 0 <= j < i ==> self.keys@[j] != key,
            decreases self.keys@.len() - i,
        {
            if self.keys[i] == key {
                return true;
            }
            i = i + 1;
        }
        false
    }

    /// Adds `key` to the set.
    pub fn insert(&mut self, key: KeyCode)
        ensures
            final(self)@ == old(self)@.insert(key),
    {
        if !self.contains(key) {
            self.keys.push(key);
        }
        assert(final(self)@ =~= old(self)@.insert(key));
    }

    /// Takes `key` out of the set.
    pub fn remove(&mut self, key: KeyCode)
        ensures
            final(self)@ == old(self)@.remove(key),
    {
        let mut kept: Vec<KeyCode> = Vec::new();
        let mut i: usize = 0;
        while i < self.keys.len()
            invariant
                i <= self.keys@.len(),
                forall|x: KeyCode|
                    kept@.contains(x) <==> (self.keys@.take(i as int).contains(x) && x != key),
            decreases self.keys@.len() - i,
        {
            assert(self.keys@.take(i as int + 1) =~= self.keys@.take(i as int).push(self.keys@[i as int]));
            let k = self.keys[i];
            if k != key {
                kept.push(k);
            }
            i = i + 1;
        }
        assert(self.keys@.take(i as int) =~= self.keys@);
        let ghost before = self@;
        self.keys = kept;
        assert(self@ =~= before.remove(key));
    }

    /// Empties the set.
    pub fn clear(&mut self)
        ensures
            final(self)@ == Set::<KeyCode>::empty(),
    {
        self.keys.clear();
        assert(self@ =~= Set::<KeyCode>::empty());
    }
}

} // verus!
