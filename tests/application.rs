use cosmic_coder::application::{Application, ApplicationError};
use cosmic_coder::domain::{derive_domain_separator, DomainBinding, ZkPublicInputs};
use cosmic_coder::groth16::ZkVerificationKey;
use cosmic_coder::policy::Policy;
use cosmic_coder::vk_store::Verifier;
use soroban_sdk::Env;

const G2_GEN: &str = "198e9393920d483a7260bfb731fb5d25f1aa493335a9e71297e485b7aef312c21800deef121f1e76426a00665e5c4479674322d4f75edadd46debd5cd992f6ed090689d0585ff075ec9e99ad690c3395bc4b313370b38ef355acdadcd122975b12c85ea5db8c6deb4aab71808dcb408fe3d1e7690c43d37b4ce6cc0166fa7daa";
const NEG_G: &str = "000000000000000000000000000000000000000000000000000000000000000130644e72e131a029b85045b68181585d97816a916871ca8d3c208c16d87cfd45";

fn hex<const N: usize>(s: &str) -> [u8; N] {
    let mut out = [0u8; N];
    for i in 0..N {
        out[i] = u8::from_str_radix(&s[2 * i..2 * i + 2], 16).unwrap();
    }
    out
}

fn env() -> Env {
    let env = Env::default();
    env.cost_estimate().budget().reset_unlimited();
    env
}

fn g1_gen() -> [u8; 64] {
    let mut g = [0u8; 64];
    g[31] = 1;
    g[63] = 2;
    g
}

fn binding(env: &Env, player: u8, start: u64) -> DomainBinding {
    let mut d = DomainBinding { challenge_id: 8, player_address: [player; 32], nonce: start, contract_id: [0x12; 32], domain_separator: [0u8; 32] };
    loop {
        let sep = derive_domain_separator(env, &d);
        if sep[0] < 0x30 {
            d.domain_separator = sep;
            return d;
        }
        d.nonce += 1;
    }
}

fn inputs(d: &DomainBinding, score: u32, wave: u32) -> ZkPublicInputs {
    ZkPublicInputs {
        run_hash_hi: [1u8; 32],
        run_hash_lo: [2u8; 32],
        score,
        wave,
        nonce: d.nonce,
        season_id: 3,
        challenge_id: d.challenge_id,
        player_address: d.player_address,
        contract_id: d.contract_id,
        domain_separator: d.domain_separator,
    }
}

fn packed(valid: bool) -> [u8; 256] {
    let mut p = [0u8; 256];
    p[0..64].copy_from_slice(&g1_gen());
    p[64..192].copy_from_slice(&hex::<128>(G2_GEN));
    p[192..256].copy_from_slice(&if valid { hex::<64>(NEG_G) } else { g1_gen() });
    p
}

fn application(env: &Env) -> (Application, [u8; 32]) {
    let h: [u8; 128] = hex(G2_GEN);
    let mut ic = vec![[0u8; 64]; 11];
    ic[0] = g1_gen();
    let mut store = Verifier::new();
    let vk_hash = store.store_vk(env, ZkVerificationKey { alpha: g1_gen(), beta: h, gamma: h, delta: h, ic });
    let mut policy = Policy::new(5);
    policy.set_verifier(store);
    let mut app = Application::new();
    app.set_policy(policy);
    (app, vk_hash)
}

#[test]
fn policy_must_be_set() {
    let env = env();
    let mut app = Application::new();
    let d = binding(&env, 0x31, 0);
    let res = app.submit_proof(&env, &d, &packed(true), &inputs(&d, 100, 10), &[0u8; 32], 100, 10, 3);
    assert_eq!(res, Err(ApplicationError::PolicyNotSet));
}

#[test]
fn declared_season_must_match() {
    let env = env();
    let (mut app, h) = application(&env);
    let a = binding(&env, 0x0e, 0);
    let res = app.submit_proof(&env, &a, &packed(true), &inputs(&a, 150, 10), &h, 150, 10, 4);
    assert_eq!(res, Err(ApplicationError::InvalidInput));
    assert!(app.get_leaderboard(4).is_empty());
    assert_eq!(app.submit_proof(&env, &a, &packed(true), &inputs(&a, 150, 10), &h, 150, 10, 3), Ok(()));
}

#[test]
fn verified_submission_is_ranked() {
    let env = env();
    let (mut app, h) = application(&env);
    let a = binding(&env, 0x0a, 0);
    let b = binding(&env, 0x0b, 0);
    assert_eq!(app.submit_proof(&env, &a, &packed(true), &inputs(&a, 150, 10), &h, 150, 10, 3), Ok(()));
    assert_eq!(app.submit_proof(&env, &b, &packed(true), &inputs(&b, 300, 20), &h, 300, 20, 3), Ok(()));
    let board = app.get_leaderboard(3);
    assert_eq!(board.iter().map(|e| (e.player[0], e.score)).collect::<Vec<_>>(), vec![(0x0b, 300), (0x0a, 150)]);
    assert!(app.get_leaderboard(4).is_empty());
}

#[test]
fn rejections_change_nothing() {
    let env = env();
    let (mut app, h) = application(&env);
    let a = binding(&env, 0x0c, 0);
    let res = app.submit_proof(&env, &a, &packed(false), &inputs(&a, 150, 10), &h, 150, 10, 3);
    assert_eq!(res, Err(ApplicationError::PolicyRejected));
    let res = app.submit_proof(&env, &a, &packed(true), &inputs(&a, 10, 10), &h, 10, 10, 3);
    assert_eq!(res, Err(ApplicationError::PolicyRejected));
    assert!(app.get_leaderboard(3).is_empty());
    assert_eq!(app.submit_proof(&env, &a, &packed(true), &inputs(&a, 150, 10), &h, 150, 10, 3), Ok(()));
    let again = app.submit_proof(&env, &a, &packed(true), &inputs(&a, 150, 10), &h, 150, 10, 3);
    assert_eq!(again, Err(ApplicationError::PolicyRejected));
    assert_eq!(app.get_leaderboard(3).len(), 1);
}

#[test]
fn a_better_run_raises_the_entry() {
    let env = env();
    let (mut app, h) = application(&env);
    let first = binding(&env, 0x0d, 0);
    assert_eq!(app.submit_proof(&env, &first, &packed(true), &inputs(&first, 120, 10), &h, 120, 10, 3), Ok(()));
    let second = binding(&env, 0x0d, first.nonce + 1);
    assert_eq!(app.submit_proof(&env, &second, &packed(true), &inputs(&second, 80, 10), &h, 80, 10, 3), Ok(()));
    assert_eq!(app.get_leaderboard(3)[0].score, 120);
    let third = binding(&env, 0x0d, second.nonce + 1);
    assert_eq!(app.submit_proof(&env, &third, &packed(true), &inputs(&third, 400, 30), &h, 400, 30, 3), Ok(()));
    let board = app.get_leaderboard(3);
    assert_eq!(board.len(), 1);
    assert_eq!((board[0].score, board[0].wave), (400, 30));
}
