//! The UltraHonk verifier front: it keeps a verifier key payload and checks
//! the framing of proof blobs, `u32_be(total_fields) || 32-byte fields`,
//! recording each accepted blob under its SHA-256 digest.

use vstd::prelude::*;
use soroban_sdk::Env;
use crate::bn254::{sha256, sha256_of};
use crate::field::eq32;

verus! {

#[derive(Clone, Copy, Debug, PartialEq, Eq, Structural)]
pub enum UltraHonkError {
    VkParseError,
    ProofParseError,
    VerificationFailed,
    VkNotSet,
}

/// The name the verifier's own errors go by.
pub type Error = UltraHonkError;

/// The framing a proof blob must have: a 4-byte header and a non-empty
/// payload of whole 32-byte fields.
pub open spec fn blob_framed(blob: Seq<u8>) -> bool {
    blob.len() >= 4 && blob.len() - 4 > 0 && (blob.len() - 4) % 32 == 0
}

/// What `verify_proof` returns.
pub open spec fn honk_outcome(vk: Seq<u8>, blob: Seq<u8>) -> Result<Seq<u8>, UltraHonkError> {
    if vk.len() == 0 {
        Err(UltraHonkError::VkParseError)
    } else if !blob_framed(blob) {
        Err(UltraHonkError::ProofParseError)
    } else {
        Ok(sha256_of(blob))
    }
}

pub struct UltraHonkVerifier {
    vk: Option<Vec<u8>>,
    vk_hash: Option<[u8; 32]>,
    verified: Vec<[u8; 32]>,
}

impl UltraHonkVerifier {
    /// The stored key payload.
    pub closed spec fn stored_vk(&self) -> Option<Seq<u8>> {
        match self.vk {
            Some(v) => Some(v@),
            None => None,
        }
    }

    /// The digest of the stored key payload.
    pub closed spec fn stored_vk_hash(&self) -> Option<Seq<u8>> {
        match self.vk_hash {
            Some(h) => Some(h@),
            None => None,
        }
    }

    /// The digests of the accepted proof blobs.
    pub closed spec fn verified_ids(&self) -> Set<Seq<u8>> {
        Set::new(|h: Seq<u8>| exists|i: int| 0 <= i < self.verified@.len() && (#[trigger] self.verified@[i])@ == h)
    }

    pub fn new() -> (r: UltraHonkVerifier)
        ensures
            r.stored_vk().is_none(),
            r.stored_vk_hash().is_none(),
            r.verified_ids() == Set::<Seq<u8>>::empty(),
    {
        let r = UltraHonkVerifier { vk: None, vk_hash: None, verified: Vec::new() };
        assert(r.verified_ids() =~= Set::<Seq<u8>>::empty());
        r
    }

    /// Stores a verifier key payload and returns its digest; an empty
    /// payload is refused and changes nothing.
    pub fn set_vk(&mut self, env: &Env, vk_json: Vec<u8>) -> (r: Result<[u8; 32], UltraHonkError>)
        ensures
            final(self).verified_ids() == old(self).verified_ids(),
            match r {
                Err(e) => e == UltraHonkError::VkParseError && vk_json@.len() == 0
                    && final(self).stored_vk() == old(self).stored_vk()
                    && final(self).stored_vk_hash() == old(self).stored_vk_hash(),
                Ok(h) => vk_json@.len() > 0 && h@ == sha256_of(vk_json@)
                    && final(self).stored_vk() == Some(vk_json@)
                    && final(self).stored_vk_hash() == Some(h@),
            },
    {
        if vk_json.len() == 0 {
            return Err(UltraHonkError::VkParseError);
        }
        let h = sha256(env, &vk_json);
        self.vk = Some(vk_json);
        self.vk_hash = Some(h);
        Ok(h)
    }

    /// Checks the framing of a proof blob against a key payload and returns
    /// the blob's digest; nothing is recorded.
    pub fn check_proof(env: &Env, vk_json: &Vec<u8>, proof_blob: &Vec<u8>) -> (r: Result<[u8; 32], UltraHonkError>)
        ensures
            match r {
                Err(e) => honk_outcome(vk_json@, proof_blob@) == Err::<Seq<u8>, UltraHonkError>(e),
                Ok(id) => honk_outcome(vk_json@, proof_blob@) == Ok::<Seq<u8>, UltraHonkError>(id@),
            },
    {
        if vk_json.len() == 0 {
            return Err(UltraHonkError::VkParseError);
        }
        if proof_blob.len() < 4 {
            return Err(UltraHonkError::ProofParseError);
        }
        let payload_len = proof_blob.len() - 4;
        if payload_len == 0 || payload_len % 32 != 0 {
            return Err(UltraHonkError::ProofParseError);
        }
        Ok(sha256(env, proof_blob))
    }

    /// Records an accepted blob's digest.
    pub(crate) fn record(&mut self, proof_id: [u8; 32])
        ensures
            final(self).verified_ids() == old(self).verified_ids().insert(proof_id@),
            final(self).stored_vk() == old(self).stored_vk(),
            final(self).stored_vk_hash() == old(self).stored_vk_hash(),
    {
        self.verified.push(proof_id);
        proof {
            assert forall|h: Seq<u8>| #[trigger] self.verified_ids().contains(h) == old(self).verified_ids().insert(proof_id@).contains(h) by {
                if old(self).verified_ids().contains(h) {
                    let i = choose|i: int| 0 <= i < old(self).verified@.len() && (#[trigger] old(self).verified@[i])@ == h;
                    assert(self.verified@[i] == old(self).verified@[i]);
                }
                if h == proof_id@ {
                    assert(self.verified@[old(self).verified@.len() as int] == proof_id);
                }
                if self.verified_ids().contains(h) {
                    let i = choose|i: int| 0 <= i < self.verified@.len() && (#[trigger] self.verified@[i])@ == h;
                    if i < old(self).verified@.len() {
                        assert(old(self).verified@[i] == self.verified@[i]);
                    }
                }
            }
            assert(self.verified_ids() =~= old(self).verified_ids().insert(proof_id@));
        }
    }

    /// Checks a proof blob against a key payload; on success the blob's
    /// digest is recorded and returned.
    pub fn verify_proof(&mut self, env: &Env, vk_json: &Vec<u8>, proof_blob: &Vec<u8>) -> (r: Result<[u8; 32], UltraHonkError>)
        ensures
            match r {
                Err(e) => honk_outcome(vk_json@, proof_blob@) == Err::<Seq<u8>, UltraHonkError>(e)
                    && final(self).verified_ids() == old(self).verified_ids(),
                Ok(id) => honk_outcome(vk_json@, proof_blob@) == Ok::<Seq<u8>, UltraHonkError>(id@)
                    && final(self).verified_ids() == old(self).verified_ids().insert(id@),
            },
            final(self).stored_vk() == old(self).stored_vk(),
            final(self).stored_vk_hash() == old(self).stored_vk_hash(),
    {
        let proof_id = match UltraHonkVerifier::check_proof(env, vk_json, proof_blob) {
            Ok(id) => id,
            Err(e) => return Err(e),
        };
        self.record(proof_id);
        Ok(proof_id)
    }

    /// Checks a proof blob against the stored key payload.
    pub fn verify_proof_with_stored_vk(&mut self, env: &Env, proof_blob: &Vec<u8>) -> (r: Result<[u8; 32], UltraHonkError>)
        ensures
            final(self).stored_vk() == old(self).stored_vk(),
            final(self).stored_vk_hash() == old(self).stored_vk_hash(),
            match old(self).stored_vk() {
                None => r == Err::<[u8; 32], UltraHonkError>(UltraHonkError::VkNotSet)
                    && final(self).verified_ids() == old(self).verified_ids(),
                Some(vk) => match r {
                    Err(e) => honk_outcome(vk, proof_blob@) == Err::<Seq<u8>, UltraHonkError>(e)
                        && final(self).verified_ids() == old(self).verified_ids(),
                    Ok(id) => honk_outcome(vk, proof_blob@) == Ok::<Seq<u8>, UltraHonkError>(id@)
                        && final(self).verified_ids() == old(self).verified_ids().insert(id@),
                },
            },
    {
        let vk = match &self.vk {
            Some(v) => v.clone(),
            None => return Err(UltraHonkError::VkNotSet),
        };
        assert(vk@ == self.vk.unwrap()@);
        self.verify_proof(env, &vk, proof_blob)
    }

    /// Whether a blob with digest `proof_id` was accepted.
    pub fn is_verified(&self, proof_id: &[u8; 32]) -> (r: bool)
        ensures
            r == self.verified_ids().contains(proof_id@),
    {
        let mut i: usize = 0;
        while i < self.verified.len()
            invariant
                0 <= i <= self.verified@.len(),
                forall|k: int| 0 <= k < i ==> (#[trigger] self.verified@[k])@ != proof_id@,
            decreases self.verified@.len() - i,
        {
            if eq32(&self.verified[i], proof_id) {
                return true;
            }
            i = i + 1;
        }
        false
    }
}

} // verus!
