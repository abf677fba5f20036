//! Domain binding: the separator hash over (challenge, player, nonce,
//! contract) and the agreement of a proof's public inputs with the call.

use vstd::prelude::*;
use soroban_sdk::Env;
use crate::bn254::{sha256, sha256_of};
use crate::field::{append_bytes, eq32};

verus! {

/// Domain binding of a submission.
#[derive(Clone, Copy, Debug)]
pub struct DomainBinding {
    pub challenge_id: u32,
    pub player_address: [u8; 32],
    pub nonce: u64,
    pub contract_id: [u8; 32],
    pub domain_separator: [u8; 32],
}

/// The public inputs of a run proof, in the circuit's order.
#[derive(Clone, Copy, Debug)]
pub struct ZkPublicInputs {
    pub run_hash_hi: [u8; 32],
    pub run_hash_lo: [u8; 32],
    pub score: u32,
    pub wave: u32,
    pub nonce: u64,
    pub season_id: u32,
    pub challenge_id: u32,
    pub player_address: [u8; 32],
    pub contract_id: [u8; 32],
    pub domain_separator: [u8; 32],
}

pub open spec fn u32_le(v: u32) -> Seq<u8> {
    seq![(v % 256) as u8, ((v / 0x100) % 256) as u8, ((v / 0x10000) % 256) as u8, (v / 0x1000000) as u8]
}

pub open spec fn u64_le(v: u64) -> Seq<u8> {
    seq![
        (v % 256) as u8,
        ((v / 0x100) % 256) as u8,
        ((v / 0x10000) % 256) as u8,
        ((v / 0x1000000) % 256) as u8,
        ((v / 0x100000000) % 256) as u8,
        ((v / 0x10000000000) % 256) as u8,
        ((v / 0x1000000000000) % 256) as u8,
        (v / 0x100000000000000) as u8,
    ]
}

/// The bytes hashed into the domain separator: the challenge id and the
/// nonce little-endian, the identities raw, in this order.
pub open spec fn domain_preimage(d: DomainBinding) -> Seq<u8> {
    u32_le(d.challenge_id) + d.player_address@ + u64_le(d.nonce) + d.contract_id@
}

/// The separator a binding must carry.
pub open spec fn domain_separator_of(d: DomainBinding) -> Seq<u8> {
    sha256_of(domain_preimage(d))
}

/// Every field that the proof's public inputs declare equals the one of the call.
pub open spec fn inputs_agree(d: DomainBinding, p: ZkPublicInputs, score: u32, wave: u32) -> bool {
    &&& p.challenge_id == d.challenge_id
    &&& p.player_address@ == d.player_address@
    &&& p.nonce == d.nonce
    &&& p.contract_id@ == d.contract_id@
    &&& p.domain_separator@ == d.domain_separator@
    &&& p.score == score
    &&& p.wave == wave
}

/// The preimage of the domain separator.
pub fn domain_bytes(d: &DomainBinding) -> (r: Vec<u8>)
    ensures
        r@ == domain_preimage(*d),
{
    let c = d.challenge_id;
    let n = d.nonce;
    let mut out: Vec<u8> = Vec::new();
    out.push((c % 256) as u8);
    out.push(((c / 0x100) % 256) as u8);
    out.push(((c / 0x10000) % 256) as u8);
    out.push((c / 0x1000000) as u8);
    append_bytes(&mut out, d.player_address.as_slice());
    out.push((n % 256) as u8);
    out.push(((n / 0x100) % 256) as u8);
    out.push(((n / 0x10000) % 256) as u8);
    out.push(((n / 0x1000000) % 256) as u8);
    out.push(((n / 0x100000000) % 256) as u8);
    out.push(((n / 0x10000000000) % 256) as u8);
    out.push(((n / 0x1000000000000) % 256) as u8);
    out.push((n / 0x100000000000000) as u8);
    append_bytes(&mut out, d.contract_id.as_slice());
    assert(out@ =~= domain_preimage(*d));
    out
}

/// Derives the domain separator from the binding's identity fields.
pub fn derive_domain_separator(env: &Env, d: &DomainBinding) -> (r: [u8; 32])
    ensures
        r@ == domain_separator_of(*d),
{
    let bytes = domain_bytes(d);
    sha256(env, &bytes)
}

/// Whether the binding carries its own separator.
pub fn binding_holds(env: &Env, d: &DomainBinding) -> (r: bool)
    ensures
        r == (d.domain_separator@ == domain_separator_of(*d)),
{
    let derived = derive_domain_separator(env, d);
    eq32(&derived, &d.domain_separator)
}

/// Whether the public inputs declare exactly the call's fields.
pub fn public_inputs_agree(d: &DomainBinding, p: &ZkPublicInputs, score: u32, wave: u32) -> (r: bool)
    ensures
        r == inputs_agree(*d, *p, score, wave),
{
    p.challenge_id == d.challenge_id && eq32(&p.player_address, &d.player_address)
        && p.nonce == d.nonce && eq32(&p.contract_id, &d.contract_id)
        && eq32(&p.domain_separator, &d.domain_separator) && p.score == score && p.wave == wave
}

} // verus!
