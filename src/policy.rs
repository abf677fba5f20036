//! The admission policy: cheap checks in a fixed order (domain binding,
//! agreement of the public inputs, anti-replay, semantic rules), then the
//! pairing verification, and only on success the replay mark.

use vstd::prelude::*;
use soroban_sdk::Env;
use crate::domain::{binding_holds, domain_separator_of, inputs_agree, public_inputs_agree, DomainBinding, ZkPublicInputs};
use crate::field::{be_nat, fr_modulus, fr_modulus_be, in_fr, is_ge_be_32};
use crate::groth16::{scalars, Groth16Error};
use crate::replay::{ReplayKey, ReplayLedger};
use crate::vk_store::Verifier;

verus! {

#[derive(Clone, Copy, Debug, PartialEq, Eq, Structural)]
pub enum PolicyError {
    VerifierNotSet,
    Replay,
    InvalidProof,
    VerifierError,
    InvalidInput,
    MalformedVk,
    DomainMismatch,
    UnsupportedNetwork,
}

/// `a * b`, saturating at `u32::MAX`.
pub open spec fn sat_mul(a: u32, b: u32) -> u32 {
    if a * b > u32::MAX {
        u32::MAX
    } else {
        (a * b) as u32
    }
}

/// The game-level rules on a claimed result: nothing is zero and the score
/// reaches the minimum per completed wave.
pub open spec fn semantics_ok(score: u32, wave: u32, min_score_per_wave: u32) -> bool {
    score != 0 && wave != 0 && score >= sat_mul(wave, min_score_per_wave)
}

/// Checks the game-level rules on `(score, wave)`.
pub fn check_semantics(score: u32, wave: u32, min_score_per_wave: u32) -> (r: Result<(), PolicyError>)
    ensures
        r == if semantics_ok(score, wave, min_score_per_wave) {
            Ok(())
        } else {
            Err(PolicyError::InvalidInput)
        },
{
    if score == 0 || wave == 0 {
        return Err(PolicyError::InvalidInput);
    }
    let w = wave as u64;
    let m = min_score_per_wave as u64;
    assert(w * m <= u32::MAX as u64 * u32::MAX as u64) by (nonlinear_arith)
        requires w <= u32::MAX, m <= u32::MAX;
    let prod: u64 = w * m;
    let min_score: u32 = if prod > u32::MAX as u64 { u32::MAX } else { prod as u32 };
    if score < min_score {
        return Err(PolicyError::InvalidInput);
    }
    Ok(())
}

pub open spec fn u32_fe(v: u32) -> Seq<u8> {
    Seq::new(28, |i: int| 0u8) + seq![
        (v / 0x1000000) as u8,
        ((v / 0x10000) % 256) as u8,
        ((v / 0x100) % 256) as u8,
        (v % 256) as u8,
    ]
}

pub open spec fn u64_fe(v: u64) -> Seq<u8> {
    Seq::new(24, |i: int| 0u8) + seq![
        (v / 0x100000000000000) as u8,
        ((v / 0x1000000000000) % 256) as u8,
        ((v / 0x10000000000) % 256) as u8,
        ((v / 0x100000000) % 256) as u8,
        ((v / 0x1000000) % 256) as u8,
        ((v / 0x10000) % 256) as u8,
        ((v / 0x100) % 256) as u8,
        (v % 256) as u8,
    ]
}

/// The public inputs as the field elements the verifier receives, in the
/// circuit's order; integers big-endian.
pub open spec fn public_signals(p: ZkPublicInputs) -> Seq<Seq<u8>> {
    seq![
        p.run_hash_hi@,
        p.run_hash_lo@,
        u32_fe(p.score),
        u32_fe(p.wave),
        u64_fe(p.nonce),
        u32_fe(p.season_id),
        u32_fe(p.challenge_id),
        p.player_address@,
        p.contract_id@,
        p.domain_separator@,
    ]
}

fn u32_to_fe(v: u32) -> (r: [u8; 32])
    ensures
        r@ == u32_fe(v),
{
    let mut r: [u8; 32] = [0u8; 32];
    r[28] = (v / 0x1000000) as u8;
    r[29] = ((v / 0x10000) % 256) as u8;
    r[30] = ((v / 0x100) % 256) as u8;
    r[31] = (v % 256) as u8;
    assert(r@ =~= u32_fe(v));
    r
}

fn u64_to_fe(v: u64) -> (r: [u8; 32])
    ensures
        r@ == u64_fe(v),
{
    let mut r: [u8; 32] = [0u8; 32];
    r[24] = (v / 0x100000000000000) as u8;
    r[25] = ((v / 0x1000000000000) % 256) as u8;
    r[26] = ((v / 0x10000000000) % 256) as u8;
    r[27] = ((v / 0x100000000) % 256) as u8;
    r[28] = ((v / 0x1000000) % 256) as u8;
    r[29] = ((v / 0x10000) % 256) as u8;
    r[30] = ((v / 0x100) % 256) as u8;
    r[31] = (v % 256) as u8;
    assert(r@ =~= u64_fe(v));
    r
}

/// The field elements handed to the verifier.
pub fn encode_public_inputs(p: &ZkPublicInputs) -> (r: Vec<[u8; 32]>)
    ensures
        scalars(r@) == public_signals(*p),
{
    let r: Vec<[u8; 32]> = vec![
        p.run_hash_hi,
        p.run_hash_lo,
        u32_to_fe(p.score),
        u32_to_fe(p.wave),
        u64_to_fe(p.nonce),
        u32_to_fe(p.season_id),
        u32_to_fe(p.challenge_id),
        p.player_address,
        p.contract_id,
        p.domain_separator,
    ];
    assert(scalars(r@) =~= public_signals(*p));
    r
}

/// Every public input is a scalar field element.
pub open spec fn signals_in_field(p: ZkPublicInputs) -> bool {
    forall|i: int| 0 <= i < public_signals(p).len() ==> in_fr(#[trigger] public_signals(p)[i])
}

/// The public inputs as field elements, or `None` when one lies outside the
/// scalar field.
pub fn field_public_inputs(p: &ZkPublicInputs) -> (r: Option<Vec<[u8; 32]>>)
    ensures
        match r {
            Some(v) => signals_in_field(*p) && scalars(v@) == public_signals(*p),
            None => !signals_in_field(*p),
        },
{
    let v = encode_public_inputs(p);
    let m = fr_modulus_be();
    let mut i: usize = 0;
    while i < v.len()
        invariant
            scalars(v@) == public_signals(*p),
            be_nat(m@) == fr_modulus(),
            0 <= i <= v@.len(),
            forall|k: int| 0 <= k < i ==> in_fr(#[trigger] public_signals(*p)[k]),
        decreases v@.len() - i,
    {
        if is_ge_be_32(&v[i], &m) {
            assert(!in_fr(public_signals(*p)[i as int]));
            return None;
        }
        i = i + 1;
    }
    Some(v)
}

/// The replay key of a binding: (player, nonce, challenge).
pub open spec fn binding_key(d: DomainBinding) -> (Seq<u8>, u64, u32) {
    (d.player_address@, d.nonce, d.challenge_id)
}

/// Admission policy state.
pub struct Policy {
    pub verifier: Option<Verifier>,
    pub replay: ReplayLedger,
    pub min_score_per_wave: u32,
}

/// What a verifier outcome means to the policy.
pub open spec fn verdict(v: Result<bool, Groth16Error>) -> Result<(), PolicyError> {
    match v {
        Err(_) => Err(PolicyError::VerifierError),
        Ok(false) => Err(PolicyError::InvalidProof),
        Ok(true) => Ok(()),
    }
}

impl Policy {
    /// The result of the checks that run before any curve arithmetic.
    pub open spec fn precheck(
        &self,
        d: DomainBinding,
        p: ZkPublicInputs,
        score: u32,
        wave: u32,
    ) -> Result<(), PolicyError> {
        if d.domain_separator@ != domain_separator_of(d) {
            Err(PolicyError::DomainMismatch)
        } else if !inputs_agree(d, p, score, wave) {
            Err(PolicyError::InvalidInput)
        } else if self.replay@.contains(binding_key(d)) {
            Err(PolicyError::Replay)
        } else if !semantics_ok(score, wave, self.min_score_per_wave) {
            Err(PolicyError::InvalidInput)
        } else if !signals_in_field(p) {
            Err(PolicyError::InvalidInput)
        } else {
            Ok(())
        }
    }

    /// The G2 points are valid wherever validation reaches the pairing.
    pub open spec fn pairing_ready(
        &self,
        d: DomainBinding,
        proof: Seq<u8>,
        p: ZkPublicInputs,
        vk_hash: Seq<u8>,
        score: u32,
        wave: u32,
    ) -> bool {
        self.precheck(d, p, score, wave) is Ok ==> (self.verifier matches Some(v) ==> v.g2_ready(
            proof,
            public_signals(p),
            vk_hash,
        ))
    }

    /// What `validate` returns.
    pub open spec fn outcome(
        &self,
        d: DomainBinding,
        proof: Seq<u8>,
        p: ZkPublicInputs,
        vk_hash: Seq<u8>,
        score: u32,
        wave: u32,
    ) -> Result<(), PolicyError> {
        match self.precheck(d, p, score, wave) {
            Err(e) => Err(e),
            Ok(()) => match self.verifier {
                None => Err(PolicyError::VerifierNotSet),
                Some(v) => verdict(v.outcome(proof, public_signals(p), vk_hash)),
            },
        }
    }

    pub fn new(min_score_per_wave: u32) -> (r: Policy)
        ensures
            r.verifier.is_none(),
            r.replay@ == Set::<(Seq<u8>, u64, u32)>::empty(),
            r.min_score_per_wave == min_score_per_wave,
    {
        Policy { verifier: None, replay: ReplayLedger::new(), min_score_per_wave }
    }

    /// Installs the verifier that admissions are checked with.
    pub fn set_verifier(&mut self, verifier: Verifier)
        ensures
            final(self).verifier == Some(verifier),
            final(self).replay@ == old(self).replay@,
            final(self).min_score_per_wave == old(self).min_score_per_wave,
    {
        self.verifier = Some(verifier);
    }

    /// Validates a submission and, when the proof verifies, marks its
    /// (player, nonce, challenge) key used. A rejection changes nothing.
    pub fn validate(
        &mut self,
        env: &Env,
        domain: &DomainBinding,
        proof: &[u8; 256],
        public_inputs: &ZkPublicInputs,
        vk_hash: &[u8; 32],
        score: u32,
        wave: u32,
    ) -> (r: Result<(), PolicyError>)
        requires
            old(self).pairing_ready(*domain, proof@, *public_inputs, vk_hash@, score, wave),
        ensures
            r == old(self).outcome(*domain, proof@, *public_inputs, vk_hash@, score, wave),
            final(self).replay@ == if r is Ok {
                old(self).replay@.insert(binding_key(*domain))
            } else {
                old(self).replay@
            },
            final(self).verifier == old(self).verifier,
            final(self).min_score_per_wave == old(self).min_score_per_wave,
    {
        if !binding_holds(env, domain) {
            return Err(PolicyError::DomainMismatch);
        }
        if !public_inputs_agree(domain, public_inputs, score, wave) {
            return Err(PolicyError::InvalidInput);
        }
        let key = ReplayKey { player: domain.player_address, nonce: domain.nonce, scope: domain.challenge_id };
        match self.replay.reserve(&key) {
            Err(e) => return Err(e),
            Ok(()) => {},
        }
        match check_semantics(score, wave, self.min_score_per_wave) {
            Err(e) => return Err(e),
            Ok(()) => {},
        }
        let signals = match field_public_inputs(public_inputs) {
            Some(s) => s,
            None => return Err(PolicyError::InvalidInput),
        };
        let ok = match &self.verifier {
            None => return Err(PolicyError::VerifierNotSet),
            Some(v) => {
                match v.verify(env, proof, &signals, vk_hash) {
                    Err(_) => return Err(PolicyError::VerifierError),
                    Ok(b) => b,
                }
            },
        };
        if !ok {
            return Err(PolicyError::InvalidProof);
        }
        self.replay.commit(key);
        Ok(())
    }

    /// Once a binding's (player, nonce, challenge) key is recorded, every
    /// submission under it fails; past the domain checks it fails with
    /// `Replay`, whatever proof it carries.
    pub proof fn lemma_replayed_binding_rejected(
        &self,
        d: DomainBinding,
        proof: Seq<u8>,
        p: ZkPublicInputs,
        vk_hash: Seq<u8>,
        score: u32,
        wave: u32,
    )
        requires
            self.replay@.contains(binding_key(d)),
        ensures
            self.outcome(d, proof, p, vk_hash, score, wave) is Err,
            d.domain_separator@ == domain_separator_of(d) && inputs_agree(d, p, score, wave)
                ==> self.outcome(d, proof, p, vk_hash, score, wave) == Err::<(), PolicyError>(PolicyError::Replay),
    {
    }

    /// A claimed score below `wave * min_score_per_wave` fails before the
    /// proof is looked at; past the domain and replay checks with
    /// `InvalidInput`. (A score of `u32::MAX` is left out: there the product
    /// saturates and the score passes.)
    pub proof fn lemma_low_score_rejected(
        &self,
        d: DomainBinding,
        proof: Seq<u8>,
        p: ZkPublicInputs,
        vk_hash: Seq<u8>,
        score: u32,
        wave: u32,
    )
        requires
            score < wave * self.min_score_per_wave,
            score < u32::MAX,
        ensures
            self.precheck(d, p, score, wave) is Err,
            self.outcome(d, proof, p, vk_hash, score, wave) == self.precheck(d, p, score, wave),
            d.domain_separator@ == domain_separator_of(d) && inputs_agree(d, p, score, wave)
                && !self.replay@.contains(binding_key(d))
                ==> self.outcome(d, proof, p, vk_hash, score, wave) == Err::<(), PolicyError>(PolicyError::InvalidInput),
    {
    }

    /// A public input outside the scalar field gets a submission rejected
    /// before the verifier is asked: as an input error once the domain and
    /// replay checks pass.
    pub proof fn lemma_out_of_field_input_rejected(
        &self,
        d: DomainBinding,
        proof: Seq<u8>,
        p: ZkPublicInputs,
        vk_hash: Seq<u8>,
        score: u32,
        wave: u32,
        i: int,
    )
        requires
            0 <= i < public_signals(p).len(),
            !in_fr(public_signals(p)[i]),
        ensures
            self.precheck(d, p, score, wave) is Err,
            self.outcome(d, proof, p, vk_hash, score, wave) == self.precheck(d, p, score, wave),
            self.precheck(d, p, score, wave) matches Err(e)
                && (e == PolicyError::DomainMismatch || e == PolicyError::Replay || e == PolicyError::InvalidInput),
            d.domain_separator@ == domain_separator_of(d) && !self.replay@.contains(binding_key(d))
                ==> self.outcome(d, proof, p, vk_hash, score, wave) == Err::<(), PolicyError>(PolicyError::InvalidInput),
    {
    }
}

} // verus!
