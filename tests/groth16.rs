use cosmic_coder::groth16::{Groth16Error, Groth16Verifier, ZkProof, ZkVerificationKey, FR_SIZE, G1_SIZE, G2_SIZE};
use soroban_sdk::Env;

fn zero_vk(n_ic: usize) -> ZkVerificationKey {
    ZkVerificationKey {
        alpha: [0u8; G1_SIZE],
        beta: [0u8; G2_SIZE],
        gamma: [0u8; G2_SIZE],
        delta: [0u8; G2_SIZE],
        ic: vec![[0u8; G1_SIZE]; n_ic],
    }
}

fn zero_proof() -> ZkProof {
    ZkProof { a: [0u8; G1_SIZE], b: [0u8; G2_SIZE], c: [0u8; G1_SIZE] }
}

fn env() -> Env {
    let env = Env::default();
    env.cost_estimate().budget().reset_unlimited();
    env
}

#[test]
fn test_malformed_verifying_key_rejected() {
    let env = env();
    let vk = zero_vk(1);
    let signals = vec![[0u8; FR_SIZE], [0u8; FR_SIZE]];
    let res = Groth16Verifier::verify_proof(&env, &vk, &zero_proof(), &signals);
    assert_eq!(res, Err(Groth16Error::MalformedVerifyingKey));
}

#[test]
fn test_invalid_proof_rejected() {
    let env = env();
    let vk = zero_vk(2);
    let signals = vec![[0u8; FR_SIZE]];
    let res = Groth16Verifier::verify_proof(&env, &vk, &zero_proof(), &signals);
    assert!(res == Ok(true) || res == Ok(false));
}

#[test]
fn test_valid_proof_returns_ok_true() {
    let env = env();
    let vk = zero_vk(2);
    let signals = vec![[0u8; FR_SIZE]];
    let res = Groth16Verifier::verify_proof(&env, &vk, &zero_proof(), &signals);
    assert!(res.is_ok());
}

#[test]
fn seven_zero_inputs_give_the_same_bool_every_time() {
    let env = env();
    let vk = zero_vk(8);
    let signals = vec![[0u8; FR_SIZE]; 7];
    let first = Groth16Verifier::verify_proof(&env, &vk, &zero_proof(), &signals);
    let second = Groth16Verifier::verify_proof(&env, &vk, &zero_proof(), &signals);
    assert!(first.is_ok());
    assert_eq!(first, second);
}

#[test]
fn too_many_inputs_are_malformed() {
    let env = env();
    let res = Groth16Verifier::verify_proof(&env, &zero_vk(3), &zero_proof(), &vec![[0u8; FR_SIZE]; 3]);
    assert_eq!(res, Err(Groth16Error::MalformedVerifyingKey));
    let res = Groth16Verifier::verify_proof(&env, &zero_vk(0), &zero_proof(), &vec![]);
    assert_eq!(res, Err(Groth16Error::MalformedVerifyingKey));
}

#[test]
fn out_of_field_input_rejected() {
    let env = env();
    let mut r = [0u8; 32];
    r.copy_from_slice(&[
        0x30, 0x64, 0x4e, 0x72, 0xe1, 0x31, 0xa0, 0x29, 0xb8, 0x50, 0x45, 0xb6, 0x81, 0x81, 0x58, 0x5d, 0x28,
        0x33, 0xe8, 0x48, 0x79, 0xb9, 0x70, 0x91, 0x43, 0xe1, 0xf5, 0x93, 0xf0, 0x00, 0x00, 0x01,
    ]);
    let res = Groth16Verifier::verify_proof(&env, &zero_vk(2), &zero_proof(), &vec![r]);
    assert_eq!(res, Err(Groth16Error::InvalidPublicInputs));
    r[31] = 0;
    let res = Groth16Verifier::verify_proof(&env, &zero_vk(2), &zero_proof(), &vec![r]);
    assert!(res.is_ok());
}

#[test]
fn point_off_curve_is_invalid_proof() {
    let env = env();
    let mut proof = zero_proof();
    proof.a[63] = 1;
    let res = Groth16Verifier::verify_proof(&env, &zero_vk(2), &proof, &vec![[0u8; FR_SIZE]]);
    assert_eq!(res, Err(Groth16Error::InvalidProof));
    let mut vk = zero_vk(2);
    vk.ic[1][63] = 5;
    let res = Groth16Verifier::verify_proof(&env, &vk, &zero_proof(), &vec![[0u8; FR_SIZE]]);
    assert_eq!(res, Err(Groth16Error::InvalidVerificationKey));
}

#[test]
fn generator_point_is_accepted() {
    // (1, 2) generates G1; the equation with it cannot hold for a zero proof and key.
    let env = env();
    let mut vk = zero_vk(2);
    vk.alpha[31] = 1;
    vk.alpha[63] = 2;
    let res = Groth16Verifier::verify_proof(&env, &vk, &zero_proof(), &vec![[0u8; FR_SIZE]]);
    assert!(res.is_ok());
}

const G2_GEN: &str = "198e9393920d483a7260bfb731fb5d25f1aa493335a9e71297e485b7aef312c21800deef121f1e76426a00665e5c4479674322d4f75edadd46debd5cd992f6ed090689d0585ff075ec9e99ad690c3395bc4b313370b38ef355acdadcd122975b12c85ea5db8c6deb4aab71808dcb408fe3d1e7690c43d37b4ce6cc0166fa7daa";
const NEG_G: &str = "000000000000000000000000000000000000000000000000000000000000000130644e72e131a029b85045b68181585d97816a916871ca8d3c208c16d87cfd45";
const NEG_2G: &str = "030644e72e131a029b85045b68181585d97816a916871ca8d3c208c16d87cfd31a76dae6d3272396d0cbe61fced2bc532edac647851e3ac53ce1cc9c7e645a83";

fn hex<const N: usize>(s: &str) -> [u8; N] {
    let mut out = [0u8; N];
    for i in 0..N {
        out[i] = u8::from_str_radix(&s[2 * i..2 * i + 2], 16).unwrap();
    }
    out
}

fn g1_gen() -> [u8; 64] {
    let mut g = [0u8; 64];
    g[31] = 1;
    g[63] = 2;
    g
}

fn scalar(n: u8) -> [u8; 32] {
    let mut s = [0u8; 32];
    s[31] = n;
    s
}

// A = alpha = G and B = beta = H cancel; with gamma = delta = H the
// equation holds exactly when C = -vk_x.
fn balanced(ic: Vec<[u8; 64]>, c: [u8; 64]) -> (ZkVerificationKey, ZkProof) {
    let h: [u8; 128] = hex(G2_GEN);
    let vk = ZkVerificationKey { alpha: g1_gen(), beta: h, gamma: h, delta: h, ic };
    let proof = ZkProof { a: g1_gen(), b: h, c };
    (vk, proof)
}

#[test]
fn pairing_equation_holds_for_balanced_proof() {
    let env = env();
    let (vk, proof) = balanced(vec![g1_gen(), [0u8; 64]], hex(NEG_G));
    let res = Groth16Verifier::verify_proof(&env, &vk, &proof, &vec![scalar(9)]);
    assert_eq!(res, Ok(true));
}

#[test]
fn public_input_scales_its_ic_point() {
    let env = env();
    // vk_x = G + 1 * G = 2G, matched by C = -2G.
    let (vk, proof) = balanced(vec![g1_gen(), g1_gen()], hex(NEG_2G));
    assert_eq!(Groth16Verifier::verify_proof(&env, &vk, &proof, &vec![scalar(1)]), Ok(true));
    assert_eq!(Groth16Verifier::verify_proof(&env, &vk, &proof, &vec![scalar(2)]), Ok(false));
    assert_eq!(Groth16Verifier::verify_proof(&env, &vk, &proof, &vec![scalar(0)]), Ok(false));
}

#[test]
fn proof_point_a_is_negated() {
    let env = env();
    let (vk, mut proof) = balanced(vec![g1_gen(), [0u8; 64]], hex(NEG_G));
    // With A = -G the first two pairings no longer cancel.
    proof.a = hex(NEG_G);
    assert_eq!(Groth16Verifier::verify_proof(&env, &vk, &proof, &vec![scalar(0)]), Ok(false));
}

#[test]
fn g2_coordinate_out_of_range_is_rejected() {
    let env = env();
    let mut proof = zero_proof();
    proof.b = [0xff; G2_SIZE];
    let res = Groth16Verifier::verify_proof(&env, &zero_vk(2), &proof, &vec![[0u8; FR_SIZE]]);
    assert_eq!(res, Err(Groth16Error::InvalidProof));
    let mut vk = zero_vk(2);
    // The modulus p itself, as c0 of gamma's x coordinate.
    let p: [u8; 32] = hex("30644e72e131a029b85045b68181585d97816a916871ca8d3c208c16d87cfd47");
    vk.gamma[32..64].copy_from_slice(&p);
    let res = Groth16Verifier::verify_proof(&env, &vk, &zero_proof(), &vec![[0u8; FR_SIZE]]);
    assert_eq!(res, Err(Groth16Error::InvalidVerificationKey));
}
