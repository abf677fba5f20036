//! Groth16 verification over BN254: structural checks first, then the
//! pairing equation `e(-A, B) * e(alpha, beta) * e(vk_x, gamma) * e(C, delta) == 1`
//! with `vk_x = ic[0] + sum(public_inputs[i] * ic[i + 1])`.

use vstd::prelude::*;
use soroban_sdk::Env;
use crate::bn254::{g1_add, g1_is_on_curve, g1_mul, g1_neg, g1_negated, g1_scaled, g1_sum, pairing_check, pairing_product_is_one};
use crate::curve::{g1_valid, g2_canonical, g2_valid};
use crate::field::{be_nat, fp_modulus_be, fr_modulus, fr_modulus_be, in_fr, is_ge_be_32, word_at};

verus! {

/// Serialized size of a G1 point.
pub const G1_SIZE: usize = 64;
/// Serialized size of a G2 point.
pub const G2_SIZE: usize = 128;
/// Serialized size of a scalar.
pub const FR_SIZE: usize = 32;

#[derive(Clone, Copy, Debug, PartialEq, Eq, Structural)]
pub enum Groth16Error {
    InvalidProof,
    InvalidVerificationKey,
    InvalidPublicInputs,
    /// `ic` must hold one point more than there are public inputs.
    MalformedVerifyingKey,
}

/// A proof: `a` and `c` in G1, `b` in G2.
#[derive(Clone, Debug)]
pub struct ZkProof {
    pub a: [u8; 64],
    pub b: [u8; 128],
    pub c: [u8; 64],
}

/// A verification key.
#[derive(Clone, Debug)]
pub struct ZkVerificationKey {
    pub alpha: [u8; 64],
    pub beta: [u8; 128],
    pub gamma: [u8; 128],
    pub delta: [u8; 128],
    pub ic: Vec<[u8; 64]>,
}

pub open spec fn points64(v: Seq<[u8; 64]>) -> Seq<Seq<u8>> {
    v.map_values(|p: [u8; 64]| p@)
}

pub open spec fn scalars(v: Seq<[u8; 32]>) -> Seq<Seq<u8>> {
    v.map_values(|s: [u8; 32]| s@)
}

/// `ic[0] + sum over i < n of inputs[i] * ic[i + 1]`, accumulated in order.
pub open spec fn vk_x(ic: Seq<Seq<u8>>, inputs: Seq<Seq<u8>>, n: nat) -> Seq<u8>
    decreases n,
{
    if n == 0 {
        ic[0]
    } else {
        g1_sum(vk_x(ic, inputs, (n - 1) as nat), g1_scaled(ic[n as int], inputs[n - 1]))
    }
}

/// The G2 points of a proof and key are valid: the host traps on any other.
pub open spec fn g2_points_valid(vk: ZkVerificationKey, b: Seq<u8>) -> bool {
    &&& g2_valid(b)
    &&& g2_valid(vk.beta@)
    &&& g2_valid(vk.gamma@)
    &&& g2_valid(vk.delta@)
}

/// The G2 points are valid wherever verification reaches the pairing: the
/// host aborts on any other, and no earlier check can see them.
pub open spec fn pairing_ready(vk: ZkVerificationKey, a: Seq<u8>, b: Seq<u8>, c: Seq<u8>, inputs: Seq<Seq<u8>>) -> bool {
    groth16_outcome(vk, a, b, c, inputs) is Ok ==> g2_points_valid(vk, b)
}

/// What verification returns, check by check in this order.
pub open spec fn groth16_outcome(
    vk: ZkVerificationKey,
    a: Seq<u8>,
    b: Seq<u8>,
    c: Seq<u8>,
    inputs: Seq<Seq<u8>>,
) -> Result<bool, Groth16Error> {
    if vk.ic@.len() != inputs.len() + 1 {
        Err(Groth16Error::MalformedVerifyingKey)
    } else if exists|i: int| 0 <= i < inputs.len() && !in_fr(#[trigger] inputs[i]) {
        Err(Groth16Error::InvalidPublicInputs)
    } else if !g1_valid(a) || !g2_canonical(b) || !g1_valid(c) {
        Err(Groth16Error::InvalidProof)
    } else if !g1_valid(vk.alpha@) || !g2_canonical(vk.beta@) || !g2_canonical(vk.gamma@) || !g2_canonical(vk.delta@) || exists|i: int| 0 <= i < vk.ic@.len() && !g1_valid(#[trigger] vk.ic@[i]@) {
        Err(Groth16Error::InvalidVerificationKey)
    } else {
        Ok(pairing_product_is_one(
            seq![g1_negated(a), vk.alpha@, vk_x(points64(vk.ic@), inputs, inputs.len()), c],
            seq![b, vk.beta@, vk.gamma@, vk.delta@],
        ))
    }
}

/// Whether a 64-byte string is a valid G1 point; the host is asked only
/// once both coordinates are known to be canonical.
fn g1_check(env: &Env, p: &[u8; 64]) -> (r: bool)
    ensures
        r == g1_valid(p@),
{
    let m = fp_modulus_be();
    let x = word_at(p.as_slice(), 0);
    let y = word_at(p.as_slice(), 32);
    if is_ge_be_32(&x, &m) || is_ge_be_32(&y, &m) {
        return false;
    }
    g1_is_on_curve(env, p)
}

/// Whether the four coordinates of a 128-byte G2 encoding are below p.
fn g2_check(p: &[u8; 128]) -> (r: bool)
    ensures
        r == g2_canonical(p@),
{
    let m = fp_modulus_be();
    let s = p.as_slice();
    !(is_ge_be_32(&word_at(s, 0), &m) || is_ge_be_32(&word_at(s, 32), &m) || is_ge_be_32(&word_at(s, 64), &m)
        || is_ge_be_32(&word_at(s, 96), &m))
}

/// The unit struct under which Groth16 verification is offered.
pub struct Groth16Verifier;

impl Groth16Verifier {
    /// Verifies `proof` against `vk` and the public inputs, in their order.
    /// Structural faults are errors; a well-formed proof that fails the
    /// pairing equation gives `Ok(false)`. G1 points are checked in full and
    /// G2 coordinates for their range; where the pairing is reached the G2
    /// points must also lie on the twist in the order-r subgroup, which no
    /// host function tests and on which the host aborts the invocation.
    pub fn verify_proof(
        env: &Env,
        vk: &ZkVerificationKey,
        proof: &ZkProof,
        pub_signals: &Vec<[u8; 32]>,
    ) -> (r: Result<bool, Groth16Error>)
        requires
            pairing_ready(*vk, proof.a@, proof.b@, proof.c@, scalars(pub_signals@)),
        ensures
            r == groth16_outcome(*vk, proof.a@, proof.b@, proof.c@, scalars(pub_signals@)),
    {
        let n = pub_signals.len();
        if vk.ic.len() == 0 || n != vk.ic.len() - 1 {
            return Err(Groth16Error::MalformedVerifyingKey);
        }
        let m = fr_modulus_be();
        let mut i: usize = 0;
        while i < n
            invariant
                n == pub_signals@.len(),
                vk.ic@.len() == n + 1,
                be_nat(m@) == fr_modulus(),
                0 <= i <= n,
                forall|k: int| 0 <= k < i ==> in_fr(#[trigger] scalars(pub_signals@)[k]),
            decreases n - i,
        {
            if is_ge_be_32(&pub_signals[i], &m) {
                assert(!in_fr(scalars(pub_signals@)[i as int]));
                return Err(Groth16Error::InvalidPublicInputs);
            }
            i = i + 1;
        }
        if !g1_check(env, &proof.a) || !g2_check(&proof.b) || !g1_check(env, &proof.c) {
            return Err(Groth16Error::InvalidProof);
        }
        if !g1_check(env, &vk.alpha) || !g2_check(&vk.beta) || !g2_check(&vk.gamma) || !g2_check(&vk.delta) {
            return Err(Groth16Error::InvalidVerificationKey);
        }
        let mut j: usize = 0;
        while j < vk.ic.len()
            invariant
                0 <= j <= vk.ic@.len(),
                vk.ic@.len() == pub_signals@.len() + 1,
                forall|k: int| 0 <= k < pub_signals@.len() ==> in_fr(#[trigger] scalars(pub_signals@)[k]),
                g1_valid(proof.a@) && g1_valid(proof.c@) && g1_valid(vk.alpha@),
                g2_canonical(proof.b@) && g2_canonical(vk.beta@) && g2_canonical(vk.gamma@) && g2_canonical(vk.delta@),
                forall|k: int| 0 <= k < j ==> g1_valid(#[trigger] vk.ic@[k]@),
            decreases vk.ic@.len() - j,
        {
            if !g1_check(env, &vk.ic[j]) {
                assert(!g1_valid(vk.ic@[j as int]@));
                return Err(Groth16Error::InvalidVerificationKey);
            }
            j = j + 1;
        }
        let ghost ic = points64(vk.ic@);
        let ghost inputs = scalars(pub_signals@);
        let mut acc: [u8; 64] = vk.ic[0];
        let mut k: usize = 0;
        while k < n
            invariant
                n == pub_signals@.len(),
                vk.ic@.len() == n + 1,
                ic == points64(vk.ic@),
                inputs == scalars(pub_signals@),
                forall|t: int| 0 <= t < vk.ic@.len() ==> g1_valid(#[trigger] vk.ic@[t]@),
                0 <= k <= n,
                acc@ == vk_x(ic, inputs, k as nat),
                g1_valid(acc@),
            decreases n - k,
        {
            let prod = g1_mul(env, &vk.ic[k + 1], &pub_signals[k]);
            acc = g1_add(env, &acc, &prod);
            k = k + 1;
        }
        let neg_a = g1_neg(env, &proof.a);
        proof {
            crate::bn254::lemma_g1_negated_valid(proof.a@);
        }
        let g1s: Vec<[u8; 64]> = vec![neg_a, vk.alpha, acc, proof.c];
        let g2s: Vec<[u8; 128]> = vec![proof.b, vk.beta, vk.gamma, vk.delta];
        assert(g1_valid(g1s@[0]@) && g1_valid(g1s@[1]@) && g1_valid(g1s@[2]@) && g1_valid(g1s@[3]@));
        let ok = pairing_check(env, &g1s, &g2s);
        proof {
            assert(g1s@.map_values(|p: [u8; 64]| p@) =~= seq![g1_negated(proof.a@), vk.alpha@, acc@, proof.c@]);
            assert(g2s@.map_values(|q: [u8; 128]| q@) =~= seq![proof.b@, vk.beta@, vk.gamma@, vk.delta@]);
        }
        Ok(ok)
    }
}

/// A key whose `ic` does not hold exactly one point more than there are
/// public inputs is malformed, whatever the proof and inputs: verification
/// stops there, before any curve arithmetic.
pub proof fn lemma_ic_length_mismatch(vk: ZkVerificationKey, a: Seq<u8>, b: Seq<u8>, c: Seq<u8>, inputs: Seq<Seq<u8>>)
    requires
        vk.ic@.len() != inputs.len() + 1,
    ensures
        groth16_outcome(vk, a, b, c, inputs) == Err::<bool, Groth16Error>(Groth16Error::MalformedVerifyingKey),
{
}

/// A public input at or above the scalar modulus is rejected as such when
/// the shapes agree, before any curve arithmetic.
pub proof fn lemma_out_of_field_input(vk: ZkVerificationKey, a: Seq<u8>, b: Seq<u8>, c: Seq<u8>, inputs: Seq<Seq<u8>>, i: int)
    requires
        0 <= i < inputs.len(),
        !in_fr(inputs[i]),
        vk.ic@.len() == inputs.len() + 1,
    ensures
        groth16_outcome(vk, a, b, c, inputs) == Err::<bool, Groth16Error>(Groth16Error::InvalidPublicInputs),
{
}

} // verus!
