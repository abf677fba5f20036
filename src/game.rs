//! The ranked game contract: proof-gated run submissions into per-season
//! leaderboards, each (player, nonce, season) admitted at most once.

use vstd::prelude::*;
use soroban_sdk::Env;
use crate::field::{be_nat, fr_modulus, fr_modulus_be, in_fr, is_ge_be_32};
use crate::groth16::{groth16_outcome, pairing_ready, scalars, Groth16Verifier, ZkProof, ZkVerificationKey};
use crate::leaderboard::{admitted, Leaderboard, LeaderboardEntry};
use crate::replay::{ReplayKey, ReplayLedger};
use crate::bn254::sha256_of;
use crate::ultrahonk::{honk_outcome, UltraHonkVerifier};

verus! {

/// The score each completed wave must at least add.
pub const MIN_SCORE_PER_WAVE: u32 = 10;

/// How many public signals the run circuit has.
pub const RUN_SIGNALS: usize = 7;

#[derive(Clone, Copy, Debug, PartialEq, Eq, Structural)]
pub enum CosmicCoderError {
    VerifierNotSet,
    Replay,
    InvalidProof,
    VerifierError,
    InvalidInput,
    MalformedVk,
    VerifierCrash,
    GameHubCrash,
    InvalidZkProof,
}

/// What an accepted ranked run reports; the game hub is then told that the
/// match of `session` ended.
#[derive(Clone, Debug)]
pub struct ZkRunSubmitted {
    pub player: [u8; 32],
    pub season_id: u32,
    pub score: u32,
    pub wave: u32,
    pub run_hash: Vec<u8>,
    /// The run used the ZK weapon: the last byte of the seventh signal is 1.
    pub used_zk_weapon: bool,
    pub session: u32,
}

/// The conversion of the public signals: each must be 32 bytes, then below
/// the scalar modulus; the first signal at fault decides the error.
pub open spec fn signals_check(s: Seq<Seq<u8>>) -> Result<(), CosmicCoderError>
    decreases s.len(),
{
    if s.len() == 0 {
        Ok(())
    } else {
        match signals_check(s.drop_last()) {
            Err(e) => Err(e),
            Ok(()) => if s.last().len() != 32 {
                Err(CosmicCoderError::InvalidInput)
            } else if !in_fr(s.last()) {
                Err(CosmicCoderError::InvalidZkProof)
            } else {
                Ok(())
            },
        }
    }
}

pub open spec fn byte_views(v: Seq<Vec<u8>>) -> Seq<Seq<u8>> {
    v.map_values(|b: Vec<u8>| b@)
}

fn to_array32(b: &Vec<u8>) -> (r: [u8; 32])
    requires
        b@.len() == 32,
    ensures
        r@ == b@,
{
    let mut r: [u8; 32] = [0u8; 32];
    let mut i: usize = 0;
    while i < 32
        invariant
            b@.len() == 32,
            0 <= i <= 32,
            r@.len() == 32,
            forall|k: int| 0 <= k < i ==> r@[k] == b@[k],
        decreases 32 - i,
    {
        r[i] = b[i];
        i = i + 1;
    }
    assert(r@ =~= b@);
    r
}

/// Converts the public signals into field elements.
pub fn to_field_elements(signals: &Vec<Vec<u8>>) -> (r: Result<Vec<[u8; 32]>, CosmicCoderError>)
    ensures
        match r {
            Ok(v) => signals_check(byte_views(signals@)) == Ok::<(), CosmicCoderError>(()) && scalars(v@) == byte_views(signals@),
            Err(e) => signals_check(byte_views(signals@)) == Err::<(), CosmicCoderError>(e),
        },
{
    let ghost s = byte_views(signals@);
    let m = fr_modulus_be();
    let mut out: Vec<[u8; 32]> = Vec::new();
    let mut i: usize = 0;
    while i < signals.len()
        invariant
            s == byte_views(signals@),
            be_nat(m@) == fr_modulus(),
            0 <= i <= signals@.len(),
            signals_check(s.take(i as int)) == Ok::<(), CosmicCoderError>(()),
            scalars(out@) == s.take(i as int),
        decreases signals@.len() - i,
    {
        proof {
            assert(s.take(i + 1).drop_last() =~= s.take(i as int));
            assert(s.take(i + 1).last() == signals@[i as int]@);
        }
        let b = &signals[i];
        if b.len() != 32 {
            proof { lemma_signals_check_prefix(s, i as int + 1); }
            return Err(CosmicCoderError::InvalidInput);
        }
        let a = to_array32(b);
        if is_ge_be_32(&a, &m) {
            proof { lemma_signals_check_prefix(s, i as int + 1); }
            return Err(CosmicCoderError::InvalidZkProof);
        }
        out.push(a);
        i = i + 1;
        assert(scalars(out@) =~= s.take(i as int));
    }
    assert(s.take(i as int) =~= s);
    Ok(out)
}

/// A failure in a prefix is the failure of the whole.
proof fn lemma_signals_check_prefix(s: Seq<Seq<u8>>, n: int)
    requires
        0 <= n <= s.len(),
        signals_check(s.take(n)) is Err,
    ensures
        signals_check(s) == signals_check(s.take(n)),
    decreases s.len() - n,
{
    if n < s.len() {
        assert(s.take(n + 1).drop_last() =~= s.take(n));
        lemma_signals_check_prefix(s, n + 1);
    } else {
        assert(s.take(n) =~= s);
    }
}

/// A casual (unproven) result.
#[derive(Clone, Copy, Debug)]
pub struct LegacyEntry {
    pub player: [u8; 32],
    pub wave: u32,
    pub score: i128,
}

/// The game contract's state.
pub struct CosmicCoder {
    /// The hub told of each match's start and end.
    pub game_hub: Option<[u8; 32]>,
    /// The verifier that proven submissions are bound to; until it is set
    /// they are refused. The checks themselves run through this library's
    /// verifiers.
    pub zk_verifier: Option<[u8; 32]>,
    /// The last session handed out.
    pub session: Option<u32>,
    pub min_score_per_wave: u32,
    /// The admitted (player, nonce, season) keys.
    pub replay: ReplayLedger,
    pub ranked: Leaderboard,
    /// Casual results, in submission order.
    pub casual: Vec<LegacyEntry>,
    pub stats: Vec<PlayerStats>,
    pub weapons: Vec<WeaponUnlockKey>,
}

/// Per-player statistics of casual play.
#[derive(Clone, Copy, Debug)]
pub struct PlayerStats {
    pub player: [u8; 32],
    pub games_played: u32,
    pub best_score: u32,
    pub tier: u32,
}

/// A weapon that a player unlocked.
#[derive(Clone, Copy, Debug)]
pub struct WeaponUnlockKey {
    pub player: [u8; 32],
    pub weapon_id: u32,
}

/// What a verifier outcome means to the game.
pub open spec fn zk_verdict(v: Result<bool, crate::groth16::Groth16Error>) -> Result<(), CosmicCoderError> {
    match v {
        Err(_) => Err(CosmicCoderError::VerifierError),
        Ok(false) => Err(CosmicCoderError::InvalidProof),
        Ok(true) => Ok(()),
    }
}

/// Everything but the anti-replay records and the ranked tables.
pub open spec fn same_setup(a: &CosmicCoder, b: &CosmicCoder) -> bool {
    &&& a.game_hub == b.game_hub
    &&& a.zk_verifier == b.zk_verifier
    &&& a.session == b.session
    &&& a.min_score_per_wave == b.min_score_per_wave
    &&& a.casual@ == b.casual@
    &&& a.stats@ == b.stats@
    &&& a.weapons@ == b.weapons@
}

impl CosmicCoder {
    pub open spec fn wf(&self) -> bool {
        self.ranked.well_ranked()
    }

    /// A fresh contract with no hub, no verifier and no session.
    pub fn new() -> (r: CosmicCoder)
        ensures
            r.wf(),
            r.game_hub.is_none() && r.zk_verifier.is_none() && r.session.is_none(),
            r.min_score_per_wave == MIN_SCORE_PER_WAVE,
            r.replay@ == Set::<(Seq<u8>, u64, u32)>::empty(),
            forall|id: u32| r.ranked.season(id) == Seq::<LeaderboardEntry>::empty(),
            r.casual@.len() == 0 && r.stats@.len() == 0 && r.weapons@.len() == 0,
    {
        CosmicCoder {
            game_hub: None,
            zk_verifier: None,
            session: None,
            min_score_per_wave: MIN_SCORE_PER_WAVE,
            replay: ReplayLedger::new(),
            ranked: Leaderboard::new(),
            casual: Vec::new(),
            stats: Vec::new(),
            weapons: Vec::new(),
        }
    }

    /// Sets the game hub and the verifier and starts the session count at 0.
    pub fn init(&mut self, game_hub: [u8; 32], zk_verifier: [u8; 32])
        requires
            old(self).wf(),
        ensures
            final(self).wf(),
            final(self).game_hub == Some(game_hub),
            final(self).zk_verifier == Some(zk_verifier),
            final(self).session == Some(0u32),
            final(self).min_score_per_wave == old(self).min_score_per_wave,
            final(self).replay@ == old(self).replay@,
            forall|id: u32| final(self).ranked.season(id) == old(self).ranked.season(id),
    {
        self.game_hub = Some(game_hub);
        self.zk_verifier = Some(zk_verifier);
        self.session = Some(0);
    }

    /// Sets the verifier that ranked submissions need.
    pub fn set_verifier(&mut self, verifier: [u8; 32])
        requires
            old(self).wf(),
        ensures
            final(self).wf(),
            final(self).zk_verifier == Some(verifier),
            final(self).game_hub == old(self).game_hub,
            final(self).session == old(self).session,
            final(self).min_score_per_wave == old(self).min_score_per_wave,
            final(self).replay@ == old(self).replay@,
            forall|id: u32| final(self).ranked.season(id) == old(self).ranked.season(id),
    {
        self.zk_verifier = Some(verifier);
    }

    /// Opens the next match: the session count goes up by one and the new
    /// session is returned, for the game hub to be told. Without a hub, or
    /// with the count at its maximum, nothing changes.
    pub fn start_match(&mut self) -> (r: Result<u32, CosmicCoderError>)
        requires
            old(self).wf(),
        ensures
            final(self).wf(),
            match r {
                Ok(s) => {
                    &&& old(self).game_hub.is_some()
                    &&& s as int == (match old(self).session { Some(v) => v as int, None => 0int }) + 1
                    &&& final(self).session == Some(s)
                },
                Err(e) => {
                    &&& final(self).session == old(self).session
                    &&& (old(self).game_hub.is_none() <==> e == CosmicCoderError::GameHubCrash)
                    &&& (old(self).game_hub.is_some() ==> e == CosmicCoderError::InvalidInput && old(self).session == Some(u32::MAX))
                },
            },
            final(self).game_hub == old(self).game_hub,
            final(self).zk_verifier == old(self).zk_verifier,
            final(self).min_score_per_wave == old(self).min_score_per_wave,
            final(self).replay@ == old(self).replay@,
            forall|id: u32| final(self).ranked.season(id) == old(self).ranked.season(id),
            final(self).casual@ == old(self).casual@,
            final(self).stats@ == old(self).stats@,
            final(self).weapons@ == old(self).weapons@,
    {
        if self.game_hub.is_none() {
            return Err(CosmicCoderError::GameHubCrash);
        }
        let session: u32 = match self.session {
            Some(s) => s,
            None => 0,
        };
        if session == u32::MAX {
            return Err(CosmicCoderError::InvalidInput);
        }
        let next = session + 1;
        self.session = Some(next);
        Ok(next)
    }

    /// Casual submission: a score below `wave * MIN_SCORE_PER_WAVE` is
    /// refused (`Ok(false)`); otherwise the entry is appended to the casual
    /// list and the current session is returned for the hub's end of match.
    pub fn submit_result(&mut self, player: [u8; 32], wave: u32, score: i128) -> (r: Result<Option<u32>, CosmicCoderError>)
        requires
            old(self).wf(),
        ensures
            final(self).wf(),
            match r {
                Ok(None) => score < wave as int * MIN_SCORE_PER_WAVE as int && final(self).casual@ == old(self).casual@,
                Ok(Some(s)) => {
                    &&& score >= wave as int * MIN_SCORE_PER_WAVE as int
                    &&& old(self).game_hub.is_some()
                    &&& s == match old(self).session { Some(v) => v, None => 0u32 }
                    &&& final(self).casual@ == old(self).casual@.push(LegacyEntry { player, wave, score })
                },
                Err(e) => {
                    &&& e == CosmicCoderError::GameHubCrash
                    &&& score >= wave as int * MIN_SCORE_PER_WAVE as int
                    &&& old(self).game_hub.is_none()
                    &&& final(self).casual@ == old(self).casual@
                },
            },
            final(self).game_hub == old(self).game_hub,
            final(self).zk_verifier == old(self).zk_verifier,
            final(self).session == old(self).session,
            final(self).min_score_per_wave == old(self).min_score_per_wave,
            final(self).replay@ == old(self).replay@,
            forall|id: u32| final(self).ranked.season(id) == old(self).ranked.season(id),
            final(self).stats@ == old(self).stats@,
            final(self).weapons@ == old(self).weapons@,
    {
        let min_score: i128 = wave as i128 * MIN_SCORE_PER_WAVE as i128;
        if score < min_score {
            return Ok(None);
        }
        if self.game_hub.is_none() {
            return Err(CosmicCoderError::GameHubCrash);
        }
        let session: u32 = match self.session {
            Some(s) => s,
            None => 0,
        };
        self.casual.push(LegacyEntry { player, wave, score });
        Ok(Some(session))
    }

    /// The season's first `limit` ranked entries.
    pub fn get_leaderboard_by_season(&self, season_id: u32, limit: u32) -> (r: Vec<LeaderboardEntry>)
        ensures
            r@ == self.ranked.season(season_id).take(
                if limit as int <= self.ranked.season(season_id).len() { limit as int } else { self.ranked.season(season_id).len() as int },
            ),
    {
        self.ranked.top(season_id, limit)
    }

    /// The first `limit` casual entries, in submission order.
    pub fn get_leaderboard(&self, limit: u32) -> (r: Vec<LegacyEntry>)
        ensures
            r@ == self.casual@.take(if limit as int <= self.casual@.len() { limit as int } else { self.casual@.len() as int }),
    {
        let n: usize = if (limit as usize) <= self.casual.len() { limit as usize } else { self.casual.len() };
        let mut out: Vec<LegacyEntry> = Vec::new();
        let mut i: usize = 0;
        while i < n
            invariant
                n <= self.casual@.len(),
                n as int == if limit as int <= self.casual@.len() { limit as int } else { self.casual@.len() as int },
                0 <= i <= n,
                out@ == self.casual@.take(i as int),
            decreases n - i,
        {
            out.push(self.casual[i]);
            i = i + 1;
            assert(out@ =~= self.casual@.take(i as int));
        }
        out
    }

    /// The checks before the proof is verified, in order.
    pub open spec fn zk_precheck(
        &self,
        player: [u8; 32],
        vk: ZkVerificationKey,
        signals: Seq<Seq<u8>>,
        nonce: u64,
        season_id: u32,
        score: u32,
        wave: u32,
    ) -> Result<(), CosmicCoderError> {
        if self.zk_verifier.is_none() {
            Err(CosmicCoderError::VerifierNotSet)
        } else if signals.len() != RUN_SIGNALS {
            Err(CosmicCoderError::InvalidInput)
        } else if vk.ic@.len() != signals.len() + 1 {
            Err(CosmicCoderError::MalformedVk)
        } else if signals_check(signals) is Err {
            signals_check(signals)
        } else if self.replay@.contains((player@, nonce, season_id)) {
            Err(CosmicCoderError::Replay)
        } else if !crate::policy::semantics_ok(score, wave, self.min_score_per_wave) {
            Err(CosmicCoderError::InvalidInput)
        } else {
            Ok(())
        }
    }

    /// What a ranked submission returns.
    pub open spec fn zk_outcome(
        &self,
        player: [u8; 32],
        proof: ZkProof,
        vk: ZkVerificationKey,
        signals: Seq<Seq<u8>>,
        nonce: u64,
        season_id: u32,
        score: u32,
        wave: u32,
    ) -> Result<(), CosmicCoderError> {
        match self.zk_precheck(player, vk, signals, nonce, season_id, score, wave) {
            Err(e) => Err(e),
            Ok(()) => match zk_verdict(groth16_outcome(vk, proof.a@, proof.b@, proof.c@, signals)) {
                Err(e) => Err(e),
                Ok(()) => if self.session.is_none() || self.game_hub.is_none() {
                    Err(CosmicCoderError::GameHubCrash)
                } else {
                    Ok(())
                },
            },
        }
    }

    /// Ranked submission: checks the signals, the claimed result and the
    /// replay key, verifies the proof, and only then marks the (player, nonce,
    /// season) key used and ranks the score. A rejection
    /// changes nothing.
    pub fn submit_zk(
        &mut self,
        env: &Env,
        player: [u8; 32],
        proof: &ZkProof,
        vk: &ZkVerificationKey,
        pub_signals: &Vec<Vec<u8>>,
        nonce: u64,
        run_hash: Vec<u8>,
        season_id: u32,
        score: u32,
        wave: u32,
    ) -> (r: Result<ZkRunSubmitted, CosmicCoderError>)
        requires
            old(self).wf(),
            old(self).zk_precheck(player, *vk, byte_views(pub_signals@), nonce, season_id, score, wave) is Ok
                ==> pairing_ready(*vk, proof.a@, proof.b@, proof.c@, byte_views(pub_signals@)),
        ensures
            final(self).wf(),
            same_setup(final(self), old(self)),
            match r {
                Err(e) => {
                    &&& old(self).zk_outcome(player, *proof, *vk, byte_views(pub_signals@), nonce, season_id, score, wave) == Err::<(), CosmicCoderError>(e)
                    &&& final(self).replay@ == old(self).replay@
                    &&& forall|id: u32| final(self).ranked.season(id) == old(self).ranked.season(id)
                },
                Ok(ev) => {
                    &&& old(self).zk_outcome(player, *proof, *vk, byte_views(pub_signals@), nonce, season_id, score, wave) == Ok::<(), CosmicCoderError>(())
                    &&& final(self).replay@ == old(self).replay@.insert((player@, nonce, season_id))
                    &&& final(self).ranked.season(season_id) == admitted(
                        old(self).ranked.season(season_id),
                        LeaderboardEntry { player, wave, score },
                    )
                    &&& forall|id: u32| id != season_id ==> final(self).ranked.season(id) == old(self).ranked.season(id)
                    &&& ev.player == player && ev.season_id == season_id && ev.score == score && ev.wave == wave
                    &&& ev.run_hash@ == run_hash@
                    &&& ev.used_zk_weapon == (pub_signals@[6]@[31] == 1)
                    &&& Some(ev.session) == old(self).session
                },
            },
    {
        if self.zk_verifier.is_none() {
            return Err(CosmicCoderError::VerifierNotSet);
        }
        if pub_signals.len() != RUN_SIGNALS {
            return Err(CosmicCoderError::InvalidInput);
        }
        if vk.ic.len() != pub_signals.len() + 1 {
            return Err(CosmicCoderError::MalformedVk);
        }
        let signals = match to_field_elements(pub_signals) {
            Ok(v) => v,
            Err(e) => return Err(e),
        };
        let key = ReplayKey { player, nonce, scope: season_id };
        if self.replay.contains(&key) {
            return Err(CosmicCoderError::Replay);
        }
        match crate::policy::check_semantics(score, wave, self.min_score_per_wave) {
            Ok(()) => {},
            Err(_) => return Err(CosmicCoderError::InvalidInput),
        }
        let ok = match Groth16Verifier::verify_proof(env, vk, proof, &signals) {
            Ok(b) => b,
            Err(_) => return Err(CosmicCoderError::VerifierError),
        };
        if !ok {
            return Err(CosmicCoderError::InvalidProof);
        }
        let session = match self.session {
            Some(s) => s,
            None => return Err(CosmicCoderError::GameHubCrash),
        };
        if self.game_hub.is_none() {
            return Err(CosmicCoderError::GameHubCrash);
        }
        self.replay.commit(key);
        let used_zk_weapon = pub_signals[6][31] == 1;
        self.ranked.record_result(season_id, player, score, wave);
        Ok(ZkRunSubmitted { player, season_id, score, wave, run_hash, used_zk_weapon, session })
    }
}

impl CosmicCoder {
    /// The checks of a Noir submission before its proof goes to the
    /// UltraHonk verifier, in order.
    pub open spec fn noir_precheck(
        &self,
        player: [u8; 32],
        vk_json: Seq<u8>,
        proof_blob: Seq<u8>,
        nonce: u64,
        run_hash: Seq<u8>,
        season_id: u32,
        score: u32,
        wave: u32,
    ) -> Result<(), CosmicCoderError> {
        if self.zk_verifier.is_none() {
            Err(CosmicCoderError::VerifierNotSet)
        } else if run_hash.len() != 32 || vk_json.len() == 0 || proof_blob.len() == 0 {
            Err(CosmicCoderError::InvalidInput)
        } else if self.replay@.contains((player@, nonce, season_id)) {
            Err(CosmicCoderError::Replay)
        } else if !crate::policy::semantics_ok(score, wave, self.min_score_per_wave) {
            Err(CosmicCoderError::InvalidInput)
        } else {
            Ok(())
        }
    }

    /// What a Noir submission returns.
    pub open spec fn noir_outcome(
        &self,
        player: [u8; 32],
        vk_json: Seq<u8>,
        proof_blob: Seq<u8>,
        nonce: u64,
        run_hash: Seq<u8>,
        season_id: u32,
        score: u32,
        wave: u32,
    ) -> Result<(), CosmicCoderError> {
        match self.noir_precheck(player, vk_json, proof_blob, nonce, run_hash, season_id, score, wave) {
            Err(e) => Err(e),
            Ok(()) => match honk_outcome(vk_json, proof_blob) {
                Err(_) => Err(CosmicCoderError::VerifierError),
                Ok(_) => if self.session.is_none() || self.game_hub.is_none() {
                    Err(CosmicCoderError::GameHubCrash)
                } else {
                    Ok(())
                },
            },
        }
    }

    /// Ranked submission of a Noir proof, checked by the UltraHonk verifier.
    /// The (player, nonce, season) key is marked and the score
    /// ranked only once the verifier accepted; a rejection changes nothing
    /// here, and the verifier records only blobs it accepts.
    pub fn submit_zk_noir(
        &mut self,
        env: &Env,
        honk: &mut UltraHonkVerifier,
        player: [u8; 32],
        vk_json: &Vec<u8>,
        proof_blob: &Vec<u8>,
        nonce: u64,
        run_hash: Vec<u8>,
        season_id: u32,
        score: u32,
        wave: u32,
    ) -> (r: Result<ZkRunSubmitted, CosmicCoderError>)
        requires
            old(self).wf(),
        ensures
            final(self).wf(),
            same_setup(final(self), old(self)),
            match r {
                Err(e) => {
                    &&& old(self).noir_outcome(player, vk_json@, proof_blob@, nonce, run_hash@, season_id, score, wave) == Err::<(), CosmicCoderError>(e)
                    &&& final(self).replay@ == old(self).replay@
                    &&& forall|id: u32| final(self).ranked.season(id) == old(self).ranked.season(id)
                    &&& final(honk).verified_ids() == old(honk).verified_ids()
                },
                Ok(ev) => {
                    &&& old(self).noir_outcome(player, vk_json@, proof_blob@, nonce, run_hash@, season_id, score, wave) == Ok::<(), CosmicCoderError>(())
                    &&& final(self).replay@ == old(self).replay@.insert((player@, nonce, season_id))
                    &&& final(self).ranked.season(season_id) == admitted(
                        old(self).ranked.season(season_id),
                        LeaderboardEntry { player, wave, score },
                    )
                    &&& forall|id: u32| id != season_id ==> final(self).ranked.season(id) == old(self).ranked.season(id)
                    &&& final(honk).verified_ids() == old(honk).verified_ids().insert(sha256_of(proof_blob@))
                    &&& ev.player == player && ev.season_id == season_id && ev.score == score && ev.wave == wave
                    &&& ev.run_hash@ == run_hash@ && !ev.used_zk_weapon
                    &&& Some(ev.session) == old(self).session
                },
            },
            final(honk).stored_vk() == old(honk).stored_vk(),
            final(honk).stored_vk_hash() == old(honk).stored_vk_hash(),
    {
        if self.zk_verifier.is_none() {
            return Err(CosmicCoderError::VerifierNotSet);
        }
        if run_hash.len() != 32 || vk_json.len() == 0 || proof_blob.len() == 0 {
            return Err(CosmicCoderError::InvalidInput);
        }
        let key = ReplayKey { player, nonce, scope: season_id };
        if self.replay.contains(&key) {
            return Err(CosmicCoderError::Replay);
        }
        match crate::policy::check_semantics(score, wave, self.min_score_per_wave) {
            Ok(()) => {},
            Err(_) => return Err(CosmicCoderError::InvalidInput),
        }
        let proof_id = match UltraHonkVerifier::check_proof(env, vk_json, proof_blob) {
            Ok(id) => id,
            Err(_) => return Err(CosmicCoderError::VerifierError),
        };
        let session = match self.session {
            Some(s) => s,
            None => return Err(CosmicCoderError::GameHubCrash),
        };
        if self.game_hub.is_none() {
            return Err(CosmicCoderError::GameHubCrash);
        }
        honk.record(proof_id);
        self.replay.commit(key);
        self.ranked.record_result(season_id, player, score, wave);
        Ok(ZkRunSubmitted { player, season_id, score, wave, run_hash, used_zk_weapon: false, session })
    }
}

/// The errors that a ranked submission raises before the proof is verified.
pub open spec fn is_precheck_error(e: CosmicCoderError) -> bool {
    e == CosmicCoderError::VerifierNotSet || e == CosmicCoderError::InvalidInput
        || e == CosmicCoderError::MalformedVk || e == CosmicCoderError::InvalidZkProof
}

proof fn lemma_signals_check_reject(s: Seq<Seq<u8>>, i: int)
    requires
        0 <= i < s.len(),
        s[i].len() == 32,
        !in_fr(s[i]),
    ensures
        signals_check(s) is Err,
        signals_check(s) matches Err(e) && (e == CosmicCoderError::InvalidInput || e == CosmicCoderError::InvalidZkProof),
    decreases s.len(),
{
    lemma_signals_check_errors(s.drop_last());
    if i < s.len() - 1 {
        assert(s.drop_last()[i] == s[i]);
        lemma_signals_check_reject(s.drop_last(), i);
    }
}

proof fn lemma_signals_check_errors(s: Seq<Seq<u8>>)
    ensures
        signals_check(s) matches Err(e) ==> (e == CosmicCoderError::InvalidInput || e == CosmicCoderError::InvalidZkProof),
    decreases s.len(),
{
    if s.len() > 0 {
        lemma_signals_check_errors(s.drop_last());
    }
}

impl CosmicCoder {
    /// A public signal at or above the scalar modulus gets a submission
    /// rejected with a structural or input error, before the proof is
    /// verified, whatever else it carries.
    pub proof fn lemma_out_of_field_signal_rejected(
        &self,
        player: [u8; 32],
        proof: ZkProof,
        vk: ZkVerificationKey,
        signals: Seq<Seq<u8>>,
        nonce: u64,
        season_id: u32,
        score: u32,
        wave: u32,
        i: int,
    )
        requires
            0 <= i < signals.len(),
            signals[i].len() == 32,
            !in_fr(signals[i]),
        ensures
            self.zk_precheck(player, vk, signals, nonce, season_id, score, wave) matches Err(e) && is_precheck_error(e),
            self.zk_outcome(player, proof, vk, signals, nonce, season_id, score, wave) matches Err(e) && is_precheck_error(e),
    {
        lemma_signals_check_reject(signals, i);
    }

    /// Once a (player, nonce, season) key is recorded, every submission under
    /// it fails; once its shape is right (verifier set, seven 32-byte signals
    /// in the field, eight `ic` points) it fails with `Replay`, whatever proof,
    /// score and wave it carries.
    pub proof fn lemma_replayed_key_rejected(
        &self,
        player: [u8; 32],
        proof: ZkProof,
        vk: ZkVerificationKey,
        signals: Seq<Seq<u8>>,
        nonce: u64,
        season_id: u32,
        score: u32,
        wave: u32,
    )
        requires
            self.replay@.contains((player@, nonce, season_id)),
        ensures
            self.zk_outcome(player, proof, vk, signals, nonce, season_id, score, wave) is Err,
            self.zk_outcome(player, proof, vk, signals, nonce, season_id, score, wave) matches Err(e)
                && (e == CosmicCoderError::Replay || is_precheck_error(e)),
            self.zk_verifier.is_some() && signals.len() == RUN_SIGNALS && vk.ic@.len() == RUN_SIGNALS + 1
                && signals_check(signals) is Ok
                ==> self.zk_outcome(player, proof, vk, signals, nonce, season_id, score, wave)
                    == Err::<(), CosmicCoderError>(CosmicCoderError::Replay),
    {
        lemma_signals_check_errors(signals);
    }

    /// A claimed score below `wave * min_score_per_wave` is rejected before
    /// the proof is verified: with `Replay` when its key was used, else with
    /// `InvalidInput` once the submission's shape is right. (A score of
    /// `u32::MAX` is left out: there the product saturates and the score
    /// passes.)
    pub proof fn lemma_low_score_rejected(
        &self,
        player: [u8; 32],
        proof: ZkProof,
        vk: ZkVerificationKey,
        signals: Seq<Seq<u8>>,
        nonce: u64,
        season_id: u32,
        score: u32,
        wave: u32,
    )
        requires
            score < wave * self.min_score_per_wave,
            score < u32::MAX,
        ensures
            self.zk_outcome(player, proof, vk, signals, nonce, season_id, score, wave) matches Err(e)
                && (e == CosmicCoderError::Replay || is_precheck_error(e)),
            !self.replay@.contains((player@, nonce, season_id))
                ==> (self.zk_outcome(player, proof, vk, signals, nonce, season_id, score, wave) matches Err(e) && is_precheck_error(e)),
            self.zk_verifier.is_some() && signals.len() == RUN_SIGNALS && vk.ic@.len() == RUN_SIGNALS + 1
                && signals_check(signals) is Ok && !self.replay@.contains((player@, nonce, season_id))
                ==> self.zk_outcome(player, proof, vk, signals, nonce, season_id, score, wave)
                    == Err::<(), CosmicCoderError>(CosmicCoderError::InvalidInput),
    {
        lemma_signals_check_errors(signals);
    }
}

} // verus!
