//! Casual progression of the game: per-player statistics and tiers, and
//! weapons unlocked by proof of a reached score threshold.

use vstd::prelude::*;
use soroban_sdk::Env;
use crate::field::eq32;
use crate::game::{CosmicCoder, CosmicCoderError, PlayerStats, WeaponUnlockKey};
use crate::groth16::{groth16_outcome, pairing_ready, scalars, Groth16Verifier, ZkProof, ZkVerificationKey};

verus! {

/// The tier of a best score: 1 Bronze, 2 Silver (1000), 3 Gold (5000),
/// 4 Mythic (10000).
pub open spec fn tier_for(best: u32) -> u32 {
    if best >= 10000 {
        4
    } else if best >= 5000 {
        3
    } else if best >= 1000 {
        2
    } else {
        1
    }
}

/// The index of the player's statistics, or -1.
pub open spec fn find_stats(s: Seq<PlayerStats>, p: Seq<u8>) -> int
    decreases s.len(),
{
    if s.len() == 0 {
        -1
    } else if s.last().player@ == p {
        s.len() - 1
    } else {
        find_stats(s.drop_last(), p)
    }
}

proof fn lemma_find_stats(s: Seq<PlayerStats>, p: Seq<u8>)
    ensures
        -1 <= find_stats(s, p) < s.len(),
        find_stats(s, p) >= 0 ==> s[find_stats(s, p)].player@ == p,
        find_stats(s, p) < 0 ==> forall|i: int| 0 <= i < s.len() ==> s[i].player@ != p,
    decreases s.len(),
{
    if s.len() > 0 && s.last().player@ != p {
        lemma_find_stats(s.drop_last(), p);
        assert forall|i: int| 0 <= i < s.len() - 1 implies s[i] == s.drop_last()[i] by {}
    }
}

proof fn lemma_find_stats_update(s: Seq<PlayerStats>, i: int, x: PlayerStats, p: Seq<u8>)
    requires
        0 <= i < s.len(),
        x.player@ == s[i].player@,
    ensures
        find_stats(s.update(i, x), p) == find_stats(s, p),
    decreases s.len(),
{
    if i < s.len() - 1 {
        assert(s.update(i, x).drop_last() =~= s.drop_last().update(i, x));
        lemma_find_stats_update(s.drop_last(), i, x, p);
    } else {
        assert(s.update(i, x).drop_last() =~= s.drop_last());
    }
}

/// Games played, best score and tier of a player; (0, 0, 1) before any game.
pub open spec fn stats_of(s: Seq<PlayerStats>, p: Seq<u8>) -> (u32, u32, u32) {
    let i = find_stats(s, p);
    if i < 0 {
        (0, 0, 1)
    } else {
        (s[i].games_played, s[i].best_score, s[i].tier)
    }
}

/// The score threshold that unlocks a weapon: 1 Starter, 2 Shotgun,
/// 3 Tactical Rifle, 4 Plasma Rifle, 5 Quantum Destroyer.
pub open spec fn weapon_threshold(weapon_id: u32) -> u32 {
    if weapon_id == 1 {
        0
    } else if weapon_id == 2 {
        1000
    } else if weapon_id == 3 {
        5000
    } else if weapon_id == 4 {
        10000
    } else {
        20000
    }
}

pub open spec fn weapon_unlocked(w: Seq<WeaponUnlockKey>, p: Seq<u8>, weapon_id: u32) -> bool {
    exists|i: int| 0 <= i < w.len() && (#[trigger] w[i]).player@ == p && w[i].weapon_id == weapon_id
}

/// The checks of an unlock before its proof is verified, in order.
pub open spec fn unlock_precheck(
    c: &CosmicCoder,
    player: [u8; 32],
    weapon_id: u32,
    vk: ZkVerificationKey,
    signals: Seq<Seq<u8>>,
    threshold: u32,
) -> Result<(), CosmicCoderError> {
    if weapon_id < 1 || weapon_id > 5 || threshold != weapon_threshold(weapon_id) {
        Err(CosmicCoderError::InvalidInput)
    } else if weapon_unlocked(c.weapons@, player@, weapon_id) {
        Err(CosmicCoderError::InvalidInput)
    } else if c.zk_verifier.is_none() {
        Err(CosmicCoderError::VerifierNotSet)
    } else if vk.ic@.len() != signals.len() + 1 {
        Err(CosmicCoderError::MalformedVk)
    } else {
        Ok(())
    }
}

/// What `unlock_weapon` returns.
pub open spec fn unlock_outcome(
    c: &CosmicCoder,
    player: [u8; 32],
    weapon_id: u32,
    proof: ZkProof,
    vk: ZkVerificationKey,
    signals: Seq<Seq<u8>>,
    threshold: u32,
) -> Result<(), CosmicCoderError> {
    if unlock_precheck(c, player, weapon_id, vk, signals, threshold) is Err {
        unlock_precheck(c, player, weapon_id, vk, signals, threshold)
    } else {
        match groth16_outcome(vk, proof.a@, proof.b@, proof.c@, signals) {
            Err(_) => Err(CosmicCoderError::VerifierError),
            Ok(false) => Err(CosmicCoderError::InvalidProof),
            Ok(true) => Ok(()),
        }
    }
}

impl CosmicCoder {
    fn stats_index(&self, player: &[u8; 32]) -> (r: Option<usize>)
        ensures
            match r {
                Some(i) => i as int == find_stats(self.stats@, player@),
                None => find_stats(self.stats@, player@) < 0,
            },
    {
        let mut i: usize = self.stats.len();
        assert(self.stats@.subrange(0, i as int) =~= self.stats@);
        while i > 0
            invariant
                0 <= i <= self.stats@.len(),
                find_stats(self.stats@, player@) == find_stats(self.stats@.subrange(0, i as int), player@),
            decreases i,
        {
            proof {
                assert(self.stats@.subrange(0, i as int).drop_last() =~= self.stats@.subrange(0, i - 1));
            }
            if eq32(&self.stats[i - 1].player, player) {
                return Some(i - 1);
            }
            i = i - 1;
        }
        None
    }

    /// Records a casual game: one more game played (saturating), the best
    /// score raised to `score` if higher, and the tier following the best.
    pub fn submit_score(&mut self, player: [u8; 32], score: u32)
        ensures
            ({
                let (g0, b0, t0) = stats_of(old(self).stats@, player@);
                let (g1, b1, t1) = stats_of(final(self).stats@, player@);
                &&& g1 == if g0 == u32::MAX { g0 } else { (g0 + 1) as u32 }
                &&& b1 == if score > b0 { score } else { b0 }
                &&& t1 == tier_for(b1)
            }),
            forall|p: Seq<u8>| p != player@ ==> stats_of(final(self).stats@, p) == stats_of(old(self).stats@, p),
            final(self).weapons@ == old(self).weapons@,
            final(self).casual@ == old(self).casual@,
            final(self).ranked == old(self).ranked,
            final(self).replay == old(self).replay,
            final(self).game_hub == old(self).game_hub,
            final(self).zk_verifier == old(self).zk_verifier,
            final(self).session == old(self).session,
    {
        proof {
            lemma_find_stats(self.stats@, player@);
        }
        match self.stats_index(&player) {
            Some(i) => {
                let old_s = self.stats[i];
                let games = if old_s.games_played == u32::MAX { u32::MAX } else { old_s.games_played + 1 };
                let best = if score > old_s.best_score { score } else { old_s.best_score };
                let tier = tier_of(best);
                let new_s = PlayerStats { player, games_played: games, best_score: best, tier };
                self.stats.remove(i);
                self.stats.insert(i, new_s);
                proof {
                    let s0 = old(self).stats@;
                    assert(self.stats@ =~= s0.update(i as int, new_s));
                    assert forall|p: Seq<u8>| #[trigger] find_stats(self.stats@, p) == find_stats(s0, p) by {
                        lemma_find_stats_update(s0, i as int, new_s, p);
                    }
                    assert forall|p: Seq<u8>| p != player@ implies stats_of(self.stats@, p) == stats_of(s0, p) by {
                        lemma_find_stats(s0, p);
                    }
                }
            },
            None => {
                let new_s = PlayerStats { player, games_played: 1, best_score: score, tier: tier_of(score) };
                self.stats.push(new_s);
                proof {
                    let s0 = old(self).stats@;
                    assert(self.stats@.drop_last() =~= s0);
                    assert forall|p: Seq<u8>| p != player@ implies stats_of(self.stats@, p) == stats_of(s0, p) by {
                        lemma_find_stats(s0, p);
                    }
                }
            },
        }
    }

    pub fn get_games_played(&self, player: &[u8; 32]) -> (r: u32)
        ensures
            r == stats_of(self.stats@, player@).0,
    {
        proof {
            lemma_find_stats(self.stats@, player@);
        }
        match self.stats_index(player) {
            Some(i) => self.stats[i].games_played,
            None => 0,
        }
    }

    pub fn get_best_score(&self, player: &[u8; 32]) -> (r: u32)
        ensures
            r == stats_of(self.stats@, player@).1,
    {
        proof {
            lemma_find_stats(self.stats@, player@);
        }
        match self.stats_index(player) {
            Some(i) => self.stats[i].best_score,
            None => 0,
        }
    }

    /// The player's tier (1 Bronze, 2 Silver, 3 Gold, 4 Mythic).
    pub fn get_player_tier(&self, player: &[u8; 32]) -> (r: u32)
        ensures
            r == stats_of(self.stats@, player@).2,
    {
        proof {
            lemma_find_stats(self.stats@, player@);
        }
        match self.stats_index(player) {
            Some(i) => self.stats[i].tier,
            None => 1,
        }
    }

    /// A player may start a ranked match after three games with a score.
    pub fn can_start_match(&self, player: &[u8; 32]) -> (r: bool)
        ensures
            r == (stats_of(self.stats@, player@).0 >= 3 && stats_of(self.stats@, player@).1 > 0),
    {
        let games = self.get_games_played(player);
        let best = self.get_best_score(player);
        games >= 3 && best > 0
    }

    /// Whether the player unlocked the weapon.
    pub fn is_weapon_unlocked(&self, player: &[u8; 32], weapon_id: u32) -> (r: bool)
        ensures
            r == weapon_unlocked(self.weapons@, player@, weapon_id),
    {
        let mut i: usize = 0;
        while i < self.weapons.len()
            invariant
                0 <= i <= self.weapons@.len(),
                forall|k: int| 0 <= k < i ==> !((#[trigger] self.weapons@[k]).player@ == player@ && self.weapons@[k].weapon_id == weapon_id),
            decreases self.weapons@.len() - i,
        {
            if self.weapons[i].weapon_id == weapon_id && eq32(&self.weapons[i].player, player) {
                return true;
            }
            i = i + 1;
        }
        false
    }

    /// The player's unlocked weapons, by id.
    pub fn get_unlocked_weapons(&self, player: &[u8; 32]) -> (r: Vec<u32>)
        ensures
            r@ == Seq::new(5, |i: int| (i + 1) as u32).filter(|w: u32| weapon_unlocked(self.weapons@, player@, w)),
    {
        let ghost ids = Seq::new(5, |i: int| (i + 1) as u32);
        let ghost pred = |w: u32| weapon_unlocked(self.weapons@, player@, w);
        let mut out: Vec<u32> = Vec::new();
        let mut w: u32 = 1;
        proof {
            reveal(Seq::filter);
            assert(ids.take(0) =~= Seq::<u32>::empty());
        }
        while w <= 5
            invariant
                1 <= w <= 6,
                ids == Seq::new(5, |i: int| (i + 1) as u32),
                pred == (|w: u32| weapon_unlocked(self.weapons@, player@, w)),
                out@ == ids.take(w - 1).filter(pred),
            decreases 6 - w,
        {
            proof {
                assert(ids.take(w as int).drop_last() =~= ids.take(w - 1));
                assert(ids.take(w as int).last() == w);
                reveal(Seq::filter);
            }
            if self.is_weapon_unlocked(player, w) {
                out.push(w);
            }
            w = w + 1;
        }
        assert(ids.take(5) =~= ids);
        proof {
            reveal(Seq::filter);
            assert(ids.take(0) =~= Seq::<u32>::empty());
        }
        out
    }

    /// Unlocks a weapon for a player who proves the weapon's score threshold.
    pub fn unlock_weapon(
        &mut self,
        env: &Env,
        player: [u8; 32],
        weapon_id: u32,
        proof: &ZkProof,
        vk: &ZkVerificationKey,
        pub_signals: &Vec<[u8; 32]>,
        threshold: u32,
    ) -> (r: Result<(), CosmicCoderError>)
        requires
            unlock_precheck(old(self), player, weapon_id, *vk, scalars(pub_signals@), threshold) is Ok
                ==> pairing_ready(*vk, proof.a@, proof.b@, proof.c@, scalars(pub_signals@)),
        ensures
            r == unlock_outcome(old(self), player, weapon_id, *proof, *vk, scalars(pub_signals@), threshold),
            final(self).weapons@ == if r is Ok {
                old(self).weapons@.push(WeaponUnlockKey { player, weapon_id })
            } else {
                old(self).weapons@
            },
            final(self).stats@ == old(self).stats@,
            final(self).casual@ == old(self).casual@,
            final(self).ranked == old(self).ranked,
            final(self).replay == old(self).replay,
            final(self).game_hub == old(self).game_hub,
            final(self).zk_verifier == old(self).zk_verifier,
            final(self).session == old(self).session,
    {
        if weapon_id < 1 || weapon_id > 5 {
            return Err(CosmicCoderError::InvalidInput);
        }
        let expected: u32 = if weapon_id == 1 {
            0
        } else if weapon_id == 2 {
            1000
        } else if weapon_id == 3 {
            5000
        } else if weapon_id == 4 {
            10000
        } else {
            20000
        };
        if threshold != expected {
            return Err(CosmicCoderError::InvalidInput);
        }
        if self.is_weapon_unlocked(&player, weapon_id) {
            return Err(CosmicCoderError::InvalidInput);
        }
        if self.zk_verifier.is_none() {
            return Err(CosmicCoderError::VerifierNotSet);
        }
        if vk.ic.len() == 0 || pub_signals.len() != vk.ic.len() - 1 {
            return Err(CosmicCoderError::MalformedVk);
        }
        let ok = match Groth16Verifier::verify_proof(env, vk, proof, pub_signals) {
            Ok(b) => b,
            Err(_) => return Err(CosmicCoderError::VerifierError),
        };
        if !ok {
            return Err(CosmicCoderError::InvalidProof);
        }
        self.weapons.push(WeaponUnlockKey { player, weapon_id });
        Ok(())
    }
}

/// The tier of a best score.
pub fn tier_of(best: u32) -> (r: u32)
    ensures
        r == tier_for(best),
{
    if best >= 10000 {
        4
    } else if best >= 5000 {
        3
    } else if best >= 1000 {
        2
    } else {
        1
    }
}

} // verus!
