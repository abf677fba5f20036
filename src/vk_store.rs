//! A store of verification keys addressed by their content hash, and
//! verification of packed proofs against a stored key.

use vstd::prelude::*;
use soroban_sdk::Env;
use crate::bn254::{sha256, sha256_of};
use crate::field::{append_bytes, eq32};
use crate::groth16::{scalars, g2_points_valid, groth16_outcome, Groth16Error, Groth16Verifier, ZkProof, ZkVerificationKey};

verus! {

/// The canonical encoding of a key: alpha, beta, gamma, delta, then each
/// point of `ic`, all uncompressed.
pub open spec fn vk_bytes(vk: ZkVerificationKey) -> Seq<u8> {
    vk.alpha@ + vk.beta@ + vk.gamma@ + vk.delta@ + ic_bytes(vk.ic@)
}

pub open spec fn ic_bytes(ic: Seq<[u8; 64]>) -> Seq<u8>
    decreases ic.len(),
{
    if ic.len() == 0 {
        Seq::empty()
    } else {
        ic_bytes(ic.drop_last()) + ic.last()@
    }
}

/// The content hash of a key.
pub open spec fn vk_hash_of(vk: ZkVerificationKey) -> Seq<u8> {
    sha256_of(vk_bytes(vk))
}

/// The key stored last under `h`.
pub open spec fn find_vk(entries: Seq<([u8; 32], ZkVerificationKey)>, h: Seq<u8>) -> Option<ZkVerificationKey>
    decreases entries.len(),
{
    if entries.len() == 0 {
        None
    } else if entries.last().0@ == h {
        Some(entries.last().1)
    } else {
        find_vk(entries.drop_last(), h)
    }
}

/// Splits a packed proof `A (64) || B (128) || C (64)`.
pub open spec fn unpack_proof(p: Seq<u8>) -> (Seq<u8>, Seq<u8>, Seq<u8>) {
    (p.subrange(0, 64), p.subrange(64, 192), p.subrange(192, 256))
}

/// The canonical encoding of a key.
pub fn encode_vk(vk: &ZkVerificationKey) -> (r: Vec<u8>)
    ensures
        r@ == vk_bytes(*vk),
{
    let mut out: Vec<u8> = Vec::new();
    append_bytes(&mut out, vk.alpha.as_slice());
    append_bytes(&mut out, vk.beta.as_slice());
    append_bytes(&mut out, vk.gamma.as_slice());
    append_bytes(&mut out, vk.delta.as_slice());
    let ghost head = out@;
    assert(head =~= vk.alpha@ + vk.beta@ + vk.gamma@ + vk.delta@);
    let mut i: usize = 0;
    while i < vk.ic.len()
        invariant
            0 <= i <= vk.ic@.len(),
            out@ == head + ic_bytes(vk.ic@.subrange(0, i as int)),
        decreases vk.ic@.len() - i,
    {
        append_bytes(&mut out, vk.ic[i].as_slice());
        proof {
            let s = vk.ic@.subrange(0, i + 1);
            assert(s.drop_last() =~= vk.ic@.subrange(0, i as int));
            assert(out@ =~= head + ic_bytes(s));
        }
        i = i + 1;
    }
    assert(vk.ic@.subrange(0, vk.ic@.len() as int) =~= vk.ic@);
    out
}

/// Bytes `off..off + N` of `src`.
fn take<const N: usize>(src: &[u8; 256], off: usize) -> (r: [u8; N])
    requires
        off + N <= 256,
    ensures
        r@ == src@.subrange(off as int, off + N),
{
    let mut r: [u8; N] = [0u8; N];
    let mut i: usize = 0;
    while i < N
        invariant
            off + N <= 256,
            0 <= i <= N,
            r@.len() == N,
            forall|k: int| 0 <= k < i ==> r@[k] == src@[off + k],
        decreases N - i,
    {
        r[i] = src[off + i];
        i = i + 1;
    }
    assert(r@ =~= src@.subrange(off as int, off + N));
    r
}

/// Verification keys, each under the hash of its encoding.
pub struct Verifier {
    entries: Vec<([u8; 32], ZkVerificationKey)>,
}

impl Verifier {
    /// The key stored under `h`, if any.
    pub closed spec fn stored(&self, h: Seq<u8>) -> Option<ZkVerificationKey> {
        find_vk(self.entries@, h)
    }

    pub fn new() -> (r: Verifier)
        ensures
            forall|h: Seq<u8>| r.stored(h).is_none(),
    {
        Verifier { entries: Vec::new() }
    }

    /// Stores `vk` under its content hash, which is returned.
    pub fn store_vk(&mut self, env: &Env, vk: ZkVerificationKey) -> (r: [u8; 32])
        ensures
            r@ == vk_hash_of(vk),
            final(self).stored(r@) == Some(vk),
            forall|h: Seq<u8>| h != r@ ==> final(self).stored(h) == old(self).stored(h),
    {
        let bytes = encode_vk(&vk);
        let h = sha256(env, &bytes);
        self.entries.push((h, vk));
        proof {
            assert(self.entries@.drop_last() =~= old(self).entries@);
        }
        h
    }

    /// The key stored under `vk_hash`.
    pub fn get_vk(&self, vk_hash: &[u8; 32]) -> (r: Option<&ZkVerificationKey>)
        ensures
            match r {
                Some(k) => self.stored(vk_hash@) == Some(*k),
                None => self.stored(vk_hash@).is_none(),
            },
    {
        let mut i: usize = self.entries.len();
        assert(self.entries@.subrange(0, i as int) =~= self.entries@);
        while i > 0
            invariant
                0 <= i <= self.entries@.len(),
                find_vk(self.entries@, vk_hash@) == find_vk(self.entries@.subrange(0, i as int), vk_hash@),
            decreases i,
        {
            proof {
                assert(self.entries@.subrange(0, i as int).drop_last() =~= self.entries@.subrange(0, i - 1));
            }
            if eq32(&self.entries[i - 1].0, vk_hash) {
                return Some(&self.entries[i - 1].1);
            }
            i = i - 1;
        }
        None
    }

    /// What `verify` returns for a packed proof under the key stored at `vk_hash`.
    pub open spec fn outcome(&self, proof: Seq<u8>, inputs: Seq<Seq<u8>>, vk_hash: Seq<u8>) -> Result<bool, Groth16Error> {
        match self.stored(vk_hash) {
            None => Err(Groth16Error::InvalidVerificationKey),
            Some(vk) => {
                let (a, b, c) = unpack_proof(proof);
                groth16_outcome(vk, a, b, c, inputs)
            },
        }
    }

    /// The G2 points are valid wherever a verification reaches the pairing.
    pub open spec fn g2_ready(&self, proof: Seq<u8>, inputs: Seq<Seq<u8>>, vk_hash: Seq<u8>) -> bool {
        self.outcome(proof, inputs, vk_hash) is Ok ==> (self.stored(vk_hash) matches Some(vk) ==> g2_points_valid(
            vk,
            unpack_proof(proof).1,
        ))
    }

    /// Verifies a packed proof `A (64) || B (128) || C (64)` against the key
    /// stored under `vk_hash`; an unknown hash is an invalid key.
    pub fn verify(
        &self,
        env: &Env,
        proof: &[u8; 256],
        public_inputs: &Vec<[u8; 32]>,
        vk_hash: &[u8; 32],
    ) -> (r: Result<bool, Groth16Error>)
        requires
            self.g2_ready(proof@, scalars(public_inputs@), vk_hash@),
        ensures
            r == self.outcome(proof@, scalars(public_inputs@), vk_hash@),
    {
        let vk = match self.get_vk(vk_hash) {
            Some(vk) => vk,
            None => return Err(Groth16Error::InvalidVerificationKey),
        };
        let zp = ZkProof { a: take(proof, 0), b: take(proof, 64), c: take(proof, 192) };
        Groth16Verifier::verify_proof(env, vk, &zp, public_inputs)
    }
}

} // verus!