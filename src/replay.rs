//! The anti-replay ledger: which (player, nonce, scope) keys were admitted.

use vstd::prelude::*;
use crate::field::eq32;
use crate::policy::PolicyError;

verus! {

/// An admission key; the scope is the season or challenge.
#[derive(Clone, Copy, Debug)]
pub struct ReplayKey {
    pub player: [u8; 32],
    pub nonce: u64,
    pub scope: u32,
}

impl ReplayKey {
    pub open spec fn view(&self) -> (Seq<u8>, u64, u32) {
        (self.player@, self.nonce, self.scope)
    }
}

/// Admitted keys; a key enters once and is never removed.
pub struct ReplayLedger {
    used: Vec<ReplayKey>,
}

impl ReplayLedger {
    pub closed spec fn view(&self) -> Set<(Seq<u8>, u64, u32)> {
        Set::new(|k: (Seq<u8>, u64, u32)| exists|i: int| 0 <= i < self.used@.len() && (#[trigger] self.used@[i]).view() == k)
    }

    pub fn new() -> (r: ReplayLedger)
        ensures
            r@ == Set::<(Seq<u8>, u64, u32)>::empty(),
    {
        let r = ReplayLedger { used: Vec::new() };
        assert(r@ =~= Set::<(Seq<u8>, u64, u32)>::empty());
        r
    }

    /// Whether `key` was admitted.
    pub fn contains(&self, key: &ReplayKey) -> (r: bool)
        ensures
            r == self@.contains(key.view()),
    {
        let mut i: usize = 0;
        while i < self.used.len()
            invariant
                0 <= i <= self.used@.len(),
                forall|k: int| 0 <= k < i ==> (#[trigger] self.used@[k]).view() != key.view(),
            decreases self.used@.len() - i,
        {
            let u = &self.used[i];
            if u.nonce == key.nonce && u.scope == key.scope && eq32(&u.player, &key.player) {
                assert(self.used@[i as int].view() == key.view());
                return true;
            }
            i = i + 1;
        }
        false
    }

    /// Fails with `Replay` when `key` was admitted already.
    pub fn reserve(&self, key: &ReplayKey) -> (r: Result<(), PolicyError>)
        ensures
            r == if self@.contains(key.view()) {
                Err(PolicyError::Replay)
            } else {
                Ok(())
            },
    {
        if self.contains(key) {
            Err(PolicyError::Replay)
        } else {
            Ok(())
        }
    }

    /// Marks `key` admitted. Callers guard it with `reserve`.
    pub fn commit(&mut self, key: ReplayKey)
        ensures
            final(self)@ == old(self)@.insert(key.view()),
    {
        self.used.push(key);
        proof {
            assert forall|k: (Seq<u8>, u64, u32)| #[trigger] self@.contains(k) == old(self)@.insert(key.view()).contains(k) by {
                if old(self)@.contains(k) {
                    let i = choose|i: int| 0 <= i < old(self).used@.len() && (#[trigger] old(self).used@[i]).view() == k;
                    assert(self.used@[i] == old(self).used@[i]);
                }
                if k == key.view() {
                    assert(self.used@[old(self).used@.len() as int] == key);
                }
                if self@.contains(k) {
                    let i = choose|i: int| 0 <= i < self.used@.len() && (#[trigger] self.used@[i]).view() == k;
                    if i < old(self).used@.len() {
                        assert(old(self).used@[i] == self.used@[i]);
                    }
                }
            }
            assert(self@ =~= old(self)@.insert(key.view()));
        }
    }
}

} // verus!
