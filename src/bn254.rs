//! The BN254 operations of the host environment that the verifier needs.
//! Each is reached through soroban_sdk's `Bn254` interface; the points are
//! handed over as their uncompressed encodings. Every host operation is
//! also charged to the environment's budget, and an exhausted budget aborts
//! the whole invocation; no contract here speaks of it.

use vstd::prelude::*;
use soroban_sdk::crypto::bn254::{Bn254Fr, Bn254G1Affine, Bn254G2Affine};
use soroban_sdk::{Bytes, BytesN, Env};
use crate::curve::{fp_p, g1_add_points, g1_decode, g1_encode, g1_mul_points, g1_on_curve, g1_valid, g2_valid, word};
use crate::field::{be_bytes, be_nat, fp_modulus_bytes, in_fp, lemma_be_bytes_value, lemma_be_nat_bound};

verus! {

/// The host environment through which the curve operations and hashes run.
#[verifier::external_type_specification]
#[verifier::external_body]
pub struct ExEnv(Env);

/// The encoding of the sum of two G1 points.
pub open spec fn g1_sum(a: Seq<u8>, b: Seq<u8>) -> Seq<u8> {
    g1_encode(g1_add_points(g1_decode(a), g1_decode(b)))
}

/// The encoding of a G1 point multiplied by a big-endian scalar. G1 has
/// prime order r, so reducing the scalar modulo r first changes nothing.
pub open spec fn g1_scaled(p: Seq<u8>, s: Seq<u8>) -> Seq<u8> {
    g1_encode(g1_mul_points(be_nat(s), g1_decode(p)))
}

/// Whether the product of the pairings of the G1 and G2 points, pair by pair,
/// is the identity of the target group.
pub uninterp spec fn pairing_product_is_one(g1s: Seq<Seq<u8>>, g2s: Seq<Seq<u8>>) -> bool;

/// The SHA-256 digest of a byte string.
pub uninterp spec fn sha256_of(data: Seq<u8>) -> Seq<u8>;

/// The negation of a base field element.
pub open spec fn fp_neg(y: int) -> int {
    if y == 0 {
        0
    } else {
        fp_p() - y
    }
}

/// The encoding of `-P` for a G1 point `P = (x, y)`: `(x, p - y)`, infinity staying itself.
pub open spec fn g1_negated(b: Seq<u8>) -> Seq<u8> {
    b.subrange(0, 32) + be_bytes(fp_neg(word(b, 32, 64)) as nat, 32)
}

/// The negation of a valid G1 point is a valid point.
pub proof fn lemma_g1_negated_valid(b: Seq<u8>)
    requires
        g1_valid(b),
    ensures
        g1_valid(g1_negated(b)),
{
    let p = fp_p();
    let y = word(b, 32, 64);
    let ny = fp_neg(y);
    let r = g1_negated(b);
    lemma_be_nat_bound(fp_modulus_bytes());
    assert(fp_modulus_bytes().len() == 32);
    lemma_be_bytes_value(ny as nat, 32);
    assert(r.subrange(0, 32) =~= b.subrange(0, 32));
    assert(r.subrange(32, 64) =~= be_bytes(ny as nat, 32));
    assert(ny * ny % p == y * y % p) by {
        if y != 0 {
            assert((p - y) * (p - y) == y * y + p * (p - 2 * y)) by (nonlinear_arith);
            vstd::arithmetic::div_mod::lemma_mod_multiples_vanish(p - 2 * y, y * y, p);
        }
    }
}

/// Relies on `Bn254::g1_is_on_curve`: decodes both coordinates (which must be
/// below p, else the host fails) and tells whether the point is infinity or
/// on the curve.
#[verifier::external_body]
pub(crate) fn g1_is_on_curve(env: &Env, p: &[u8; 64]) -> (r: bool)
    requires
        in_fp(p@.subrange(0, 32)),
        in_fp(p@.subrange(32, 64)),
    ensures
        r == g1_on_curve(p@),
{
    env.crypto().bn254().g1_is_on_curve(&Bn254G1Affine::from_array(env, p))
}

/// Relies on `Bn254::g1_add`: the host checks both points and encodes their
/// sum under the curve's group law, a valid point, uncompressed.
#[verifier::external_body]
pub(crate) fn g1_add(env: &Env, a: &[u8; 64], b: &[u8; 64]) -> (r: [u8; 64])
    requires
        g1_valid(a@),
        g1_valid(b@),
    ensures
        r@ == g1_sum(a@, b@),
        g1_valid(r@),
{
    let pa = Bn254G1Affine::from_array(env, a);
    let pb = Bn254G1Affine::from_array(env, b);
    env.crypto().bn254().g1_add(&pa, &pb).to_array()
}

/// Relies on `Bn254::g1_mul`: the scalar is read big-endian and reduced
/// modulo r; the product, a valid point, is encoded uncompressed.
#[verifier::external_body]
pub(crate) fn g1_mul(env: &Env, p: &[u8; 64], s: &[u8; 32]) -> (r: [u8; 64])
    requires
        g1_valid(p@),
    ensures
        r@ == g1_scaled(p@, s@),
        g1_valid(r@),
{
    let pt = Bn254G1Affine::from_array(env, p);
    let fr = Bn254Fr::from_bytes(BytesN::from_array(env, s));
    env.crypto().bn254().g1_mul(&pt, &fr).to_array()
}

/// Relies on `Neg for Bn254G1Affine`: keeps x and replaces y by `p - y`
/// (zero stays zero); y must be below p.
#[verifier::external_body]
pub(crate) fn g1_neg(env: &Env, p: &[u8; 64]) -> (r: [u8; 64])
    requires
        in_fp(p@.subrange(32, 64)),
    ensures
        r@ == g1_negated(p@),
{
    (-Bn254G1Affine::from_array(env, p)).to_array()
}

/// Relies on `Bn254::pairing_check`: equally many G1 and G2 points, at least
/// one, each valid (the host checks G2 points for the subgroup too); true
/// when the product of the pairings is one.
#[verifier::external_body]
pub(crate) fn pairing_check(env: &Env, g1s: &Vec<[u8; 64]>, g2s: &Vec<[u8; 128]>) -> (r: bool)
    requires
        g1s@.len() == g2s@.len(),
        g1s@.len() > 0,
        forall|i: int| 0 <= i < g1s@.len() ==> g1_valid(#[trigger] g1s@[i]@),
        forall|i: int| 0 <= i < g2s@.len() ==> g2_valid(#[trigger] g2s@[i]@),
    ensures
        r == pairing_product_is_one(
            g1s@.map_values(|p: [u8; 64]| p@),
            g2s@.map_values(|q: [u8; 128]| q@),
        ),
{
    let mut vp1 = soroban_sdk::Vec::new(env);
    for p in g1s.iter() {
        vp1.push_back(Bn254G1Affine::from_array(env, p));
    }
    let mut vp2 = soroban_sdk::Vec::new(env);
    for q in g2s.iter() {
        vp2.push_back(Bn254G2Affine::from_array(env, q));
    }
    env.crypto().bn254().pairing_check(vp1, vp2)
}

/// Relies on `Crypto::sha256`: the SHA-256 digest of the bytes.
#[verifier::external_body]
pub(crate) fn sha256(env: &Env, data: &Vec<u8>) -> (r: [u8; 32])
    ensures
        r@ == sha256_of(data@),
{
    env.crypto().sha256(&Bytes::from_slice(env, data.as_slice())).to_array()
}

} // verus!
