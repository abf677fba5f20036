use cosmic_coder::game::{CosmicCoder, CosmicCoderError, MIN_SCORE_PER_WAVE};
use cosmic_coder::groth16::{ZkProof, ZkVerificationKey};
use cosmic_coder::ultrahonk::UltraHonkVerifier;
use soroban_sdk::Env;

const G2_GEN: &str = "198e9393920d483a7260bfb731fb5d25f1aa493335a9e71297e485b7aef312c21800deef121f1e76426a00665e5c4479674322d4f75edadd46debd5cd992f6ed090689d0585ff075ec9e99ad690c3395bc4b313370b38ef355acdadcd122975b12c85ea5db8c6deb4aab71808dcb408fe3d1e7690c43d37b4ce6cc0166fa7daa";
const NEG_G: &str = "000000000000000000000000000000000000000000000000000000000000000130644e72e131a029b85045b68181585d97816a916871ca8d3c208c16d87cfd45";

fn hex<const N: usize>(s: &str) -> [u8; N] {
    let mut out = [0u8; N];
    for i in 0..N {
        out[i] = u8::from_str_radix(&s[2 * i..2 * i + 2], 16).unwrap();
    }
    out
}

fn env() -> Env {
    let env = Env::default();
    env.cost_estimate().budget().reset_unlimited();
    env
}

fn g1_gen() -> [u8; 64] {
    let mut g = [0u8; 64];
    g[31] = 1;
    g[63] = 2;
    g
}

/// A key with 8 `ic` points and a proof that verifies for any 7 signals.
fn vk_and_proof(valid: bool) -> (ZkVerificationKey, ZkProof) {
    let h: [u8; 128] = hex(G2_GEN);
    let mut ic = vec![[0u8; 64]; 8];
    ic[0] = g1_gen();
    let vk = ZkVerificationKey { alpha: g1_gen(), beta: h, gamma: h, delta: h, ic };
    let c = if valid { hex(NEG_G) } else { g1_gen() };
    (vk, ZkProof { a: g1_gen(), b: h, c })
}

fn signals(weapon: bool) -> Vec<Vec<u8>> {
    let mut s = vec![vec![0u8; 32]; 7];
    s[2][31] = 100;
    if weapon {
        s[6][31] = 1;
    }
    s
}

fn contract() -> CosmicCoder {
    let mut c = CosmicCoder::new();
    c.init([0xaa; 32], [0xbb; 32]);
    c
}

fn player(n: u8) -> [u8; 32] {
    [n; 32]
}

#[test]
fn tests_test_submit_zk_fails_when_verifier_not_set() {
    let env = env();
    let mut c = CosmicCoder::new();
    let (vk, proof) = vk_and_proof(true);
    let res = c.submit_zk(&env, player(1), &proof, &vk, &signals(false), 1, vec![0u8; 32], 1, 100, 5);
    assert_eq!(res.err(), Some(CosmicCoderError::VerifierNotSet));
}

#[test]
fn tests_test_submit_zk_anti_replay() {
    let env = env();
    let mut c = contract();
    let (vk, proof) = vk_and_proof(true);
    assert!(c.submit_zk(&env, player(1), &proof, &vk, &signals(false), 42, vec![0u8; 32], 1, 100, 5).is_ok());
    let res = c.submit_zk(&env, player(1), &proof, &vk, &signals(false), 42, vec![0u8; 32], 1, 100, 5);
    assert_eq!(res.err(), Some(CosmicCoderError::Replay));
    // The key is (player, nonce, season): the same nonce elsewhere is fresh.
    assert!(c.submit_zk(&env, player(2), &proof, &vk, &signals(false), 42, vec![0u8; 32], 1, 100, 5).is_ok());
    assert!(c.submit_zk(&env, player(1), &proof, &vk, &signals(false), 42, vec![0u8; 32], 2, 100, 5).is_ok());
}

#[test]
fn tests_test_submit_zk_invalid_proof_verifier_error() {
    let env = env();
    let mut c = contract();
    let (mut vk_bad, proof) = vk_and_proof(true);
    // One `ic` point where the seven signals need eight.
    vk_bad.ic.truncate(1);
    let res = c.submit_zk(&env, player(1), &proof, &vk_bad, &signals(false), 1, vec![0u8; 32], 1, 100, 5);
    assert!(res.is_err(), "submit_zk with bad VK should fail");
    assert_eq!(res.err(), Some(CosmicCoderError::MalformedVk));
}

#[test]
fn verifier_rejection_is_verifier_error() {
    let env = env();
    let mut c = contract();
    let (mut vk, proof) = vk_and_proof(true);
    vk.alpha[63] = 3;
    let res = c.submit_zk(&env, player(1), &proof, &vk, &signals(false), 1, vec![0u8; 32], 1, 100, 5);
    assert_eq!(res.err(), Some(CosmicCoderError::VerifierError));
}

#[test]
fn tests_test_submit_zk_invalid_input_score_below_min() {
    let env = env();
    let mut c = contract();
    let (vk, proof) = vk_and_proof(true);
    // wave 5 needs at least 50.
    let res = c.submit_zk(&env, player(1), &proof, &vk, &signals(false), 1, vec![0u8; 32], 1, 40, 5);
    assert_eq!(res.err(), Some(CosmicCoderError::InvalidInput));
    assert!(c.get_leaderboard_by_season(1, 10).is_empty());
    // Nothing was marked: the same nonce is still good.
    assert!(c.submit_zk(&env, player(1), &proof, &vk, &signals(false), 1, vec![0u8; 32], 1, 50, 5).is_ok());
}

#[test]
fn tests_test_submit_zk_invalid_input_zero_score() {
    let env = env();
    let mut c = contract();
    let (vk, proof) = vk_and_proof(true);
    let res = c.submit_zk(&env, player(1), &proof, &vk, &signals(false), 1, vec![0u8; 32], 1, 0, 5);
    assert_eq!(res.err(), Some(CosmicCoderError::InvalidInput));
    let res = c.submit_zk(&env, player(1), &proof, &vk, &signals(false), 1, vec![0u8; 32], 1, 100, 0);
    assert_eq!(res.err(), Some(CosmicCoderError::InvalidInput));
}

#[test]
fn replay_is_checked_before_the_claimed_result() {
    let env = env();
    let mut c = contract();
    let (vk, proof) = vk_and_proof(true);
    assert!(c.submit_zk(&env, player(1), &proof, &vk, &signals(false), 9, vec![], 1, 100, 5).is_ok());
    let res = c.submit_zk(&env, player(1), &proof, &vk, &signals(false), 9, vec![], 1, 0, 5);
    assert_eq!(res.err(), Some(CosmicCoderError::Replay));
    let (vk, bad) = vk_and_proof(false);
    let res = c.submit_zk(&env, player(1), &bad, &vk, &signals(false), 9, vec![], 1, 3, 5);
    assert_eq!(res.err(), Some(CosmicCoderError::Replay));
}

#[test]
fn tests_test_submit_zk_valid_updates_nonce_leaderboard_and_emits_event() {
    let env = env();
    let mut c = contract();
    let (vk, proof) = vk_and_proof(true);
    let ev = c.submit_zk(&env, player(1), &proof, &vk, &signals(false), 77, vec![9u8; 32], 1, 200, 10).unwrap();
    assert_eq!((ev.player, ev.season_id, ev.score, ev.wave), (player(1), 1, 200, 10));
    assert_eq!(ev.run_hash, vec![9u8; 32]);
    assert!(!ev.used_zk_weapon);
    assert_eq!(ev.session, 0);
    let board = c.get_leaderboard_by_season(1, 10);
    assert_eq!(board.len(), 1);
    assert_eq!((board[0].player, board[0].score), (player(1), 200));
}

#[test]
fn weapon_flag_is_reported() {
    let env = env();
    let mut c = contract();
    let (vk, proof) = vk_and_proof(true);
    let ev = c.submit_zk(&env, player(1), &proof, &vk, &signals(true), 3, vec![0u8; 32], 1, 100, 5).unwrap();
    assert!(ev.used_zk_weapon);
}

#[test]
fn failing_pairing_is_invalid_proof_and_marks_nothing() {
    let env = env();
    let mut c = contract();
    let (vk, bad) = vk_and_proof(false);
    let res = c.submit_zk(&env, player(1), &bad, &vk, &signals(false), 5, vec![0u8; 32], 1, 100, 5);
    assert_eq!(res.err(), Some(CosmicCoderError::InvalidProof));
    let (vk, good) = vk_and_proof(true);
    assert!(c.submit_zk(&env, player(1), &good, &vk, &signals(false), 5, vec![0u8; 32], 1, 100, 5).is_ok());
}

#[test]
fn signal_shape_errors() {
    let env = env();
    let mut c = contract();
    let (vk, proof) = vk_and_proof(true);
    let six = vec![vec![0u8; 32]; 6];
    assert_eq!(c.submit_zk(&env, player(1), &proof, &vk, &six, 1, vec![], 1, 100, 5).err(), Some(CosmicCoderError::InvalidInput));
    let mut short = signals(false);
    short[3] = vec![0u8; 31];
    assert_eq!(c.submit_zk(&env, player(1), &proof, &vk, &short, 1, vec![], 1, 100, 5).err(), Some(CosmicCoderError::InvalidInput));
    let mut big = signals(false);
    big[1] = vec![0xff; 32];
    assert_eq!(c.submit_zk(&env, player(1), &proof, &vk, &big, 1, vec![], 1, 100, 5).err(), Some(CosmicCoderError::InvalidZkProof));
    let (mut vk9, _) = vk_and_proof(true);
    vk9.ic.push([0u8; 64]);
    assert_eq!(c.submit_zk(&env, player(1), &proof, &vk9, &signals(false), 1, vec![], 1, 100, 5).err(), Some(CosmicCoderError::MalformedVk));
}

#[test]
fn missing_session_is_hub_crash() {
    let env = env();
    let mut c = CosmicCoder::new();
    c.set_verifier([0xbb; 32]);
    let (vk, proof) = vk_and_proof(true);
    let res = c.submit_zk(&env, player(1), &proof, &vk, &signals(false), 1, vec![], 1, 100, 5);
    assert_eq!(res.err(), Some(CosmicCoderError::GameHubCrash));
    assert!(c.get_leaderboard_by_season(1, 10).is_empty());
}

#[test]
fn ranked_scores_ratchet_per_season() {
    let env = env();
    let mut c = contract();
    let (vk, proof) = vk_and_proof(true);
    c.submit_zk(&env, player(1), &proof, &vk, &signals(false), 1, vec![], 1, 120, 10).unwrap();
    c.submit_zk(&env, player(1), &proof, &vk, &signals(false), 2, vec![], 1, 110, 11).unwrap();
    c.submit_zk(&env, player(2), &proof, &vk, &signals(false), 3, vec![], 1, 300, 10).unwrap();
    let board = c.get_leaderboard_by_season(1, 10);
    assert_eq!(board.iter().map(|e| (e.player[0], e.score, e.wave)).collect::<Vec<_>>(), vec![(2, 300, 10), (1, 120, 10)]);
    assert_eq!(c.get_leaderboard_by_season(1, 1).len(), 1);
}

#[test]
fn noir_submission() {
    let env = env();
    let mut c = contract();
    let mut honk = UltraHonkVerifier::new();
    let vk = b"{\"vk\":1}".to_vec();
    let mut blob = vec![0u8, 0, 0, 1];
    blob.extend(vec![5u8; 32]);
    let ok = c.submit_zk_noir(&env, &mut honk, player(1), &vk, &blob, 10, vec![1u8; 32], 2, 100, 5).unwrap();
    assert_eq!(ok.score, 100);
    assert_eq!(c.get_leaderboard_by_season(2, 5)[0].score, 100);
    let again = c.submit_zk_noir(&env, &mut honk, player(1), &vk, &blob, 10, vec![1u8; 32], 2, 100, 5);
    assert_eq!(again.err(), Some(CosmicCoderError::Replay));
    let bad = c.submit_zk_noir(&env, &mut honk, player(1), &vk, &vec![0u8; 5], 11, vec![1u8; 32], 2, 100, 5);
    assert_eq!(bad.err(), Some(CosmicCoderError::VerifierError));
    let short_hash = c.submit_zk_noir(&env, &mut honk, player(1), &vk, &blob, 12, vec![1u8; 31], 2, 100, 5);
    assert_eq!(short_hash.err(), Some(CosmicCoderError::InvalidInput));
    let replay_low = c.submit_zk_noir(&env, &mut honk, player(1), &vk, &blob, 10, vec![1u8; 32], 2, 0, 5);
    assert_eq!(replay_low.err(), Some(CosmicCoderError::Replay));
}

#[test]
fn noir_verifier_decides_before_the_hub() {
    let env = env();
    let mut c = CosmicCoder::new();
    c.set_verifier([0xbb; 32]);
    let mut honk = UltraHonkVerifier::new();
    let vk = b"{}".to_vec();
    let bad = c.submit_zk_noir(&env, &mut honk, player(1), &vk, &vec![0u8; 5], 1, vec![1u8; 32], 2, 100, 5);
    assert_eq!(bad.err(), Some(CosmicCoderError::VerifierError));
    let mut blob = vec![0u8, 0, 0, 1];
    blob.extend(vec![5u8; 32]);
    let no_hub = c.submit_zk_noir(&env, &mut honk, player(1), &vk, &blob, 1, vec![1u8; 32], 2, 100, 5);
    assert_eq!(no_hub.err(), Some(CosmicCoderError::GameHubCrash));
    // The rejected submission recorded nothing with the verifier either.
    let id = UltraHonkVerifier::check_proof(&env, &vk, &blob).unwrap();
    assert!(!honk.is_verified(&id));
}

#[test]
fn matches_and_casual_results() {
    let mut c = CosmicCoder::new();
    assert_eq!(c.start_match().err(), Some(CosmicCoderError::GameHubCrash));
    c.init([1; 32], [2; 32]);
    assert_eq!(c.start_match(), Ok(1));
    assert_eq!(c.start_match(), Ok(2));
    assert_eq!(c.submit_result(player(3), 5, 49), Ok(None));
    assert_eq!(c.submit_result(player(3), 5, 50), Ok(Some(2)));
    assert_eq!(c.submit_result(player(4), 1, 70), Ok(Some(2)));
    let legacy = c.get_leaderboard(1);
    assert_eq!(legacy.len(), 1);
    assert_eq!(legacy[0].score, 50);
    assert_eq!(c.get_leaderboard(10).len(), 2);
    assert_eq!(MIN_SCORE_PER_WAVE, 10);
}

#[test]
fn stats_default_to_zero() {
    let c = CosmicCoder::new();
    assert_eq!(c.get_games_played(&player(1)), 0);
    assert_eq!(c.get_best_score(&player(1)), 0);
    assert_eq!(c.get_player_tier(&player(1)), 1);
}

#[test]
fn stats_and_tiers() {
    let mut c = CosmicCoder::new();
    c.submit_score(player(1), 900);
    assert!(!c.can_start_match(&player(1)));
    c.submit_score(player(1), 5200);
    c.submit_score(player(1), 10);
    assert_eq!(c.get_games_played(&player(1)), 3);
    assert_eq!(c.get_best_score(&player(1)), 5200);
    assert_eq!(c.get_player_tier(&player(1)), 3);
    assert!(c.can_start_match(&player(1)));
    c.submit_score(player(1), 10000);
    assert_eq!(c.get_player_tier(&player(1)), 4);
    c.submit_score(player(2), 1000);
    assert_eq!(c.get_player_tier(&player(2)), 2);
    assert_eq!(c.get_games_played(&player(2)), 1);
}

#[test]
fn weapons_unlock_once() {
    let env = env();
    let mut c = contract();
    let h: [u8; 128] = hex(G2_GEN);
    let vk = ZkVerificationKey { alpha: g1_gen(), beta: h, gamma: h, delta: h, ic: vec![g1_gen(), [0u8; 64]] };
    let proof = ZkProof { a: g1_gen(), b: h, c: hex(NEG_G) };
    let sig = vec![[0u8; 32]];
    assert_eq!(c.unlock_weapon(&env, player(1), 6, &proof, &vk, &sig, 0), Err(CosmicCoderError::InvalidInput));
    assert_eq!(c.unlock_weapon(&env, player(1), 2, &proof, &vk, &sig, 999), Err(CosmicCoderError::InvalidInput));
    assert_eq!(c.unlock_weapon(&env, player(1), 2, &proof, &vk, &sig, 1000), Ok(()));
    assert_eq!(c.unlock_weapon(&env, player(1), 2, &proof, &vk, &sig, 1000), Err(CosmicCoderError::InvalidInput));
    assert_eq!(c.unlock_weapon(&env, player(1), 3, &proof, &vk, &vec![], 5000), Err(CosmicCoderError::MalformedVk));
    let bad = ZkProof { a: g1_gen(), b: h, c: g1_gen() };
    assert_eq!(c.unlock_weapon(&env, player(1), 4, &bad, &vk, &sig, 10000), Err(CosmicCoderError::InvalidProof));
    assert_eq!(c.unlock_weapon(&env, player(1), 5, &proof, &vk, &sig, 20000), Ok(()));
    assert!(c.is_weapon_unlocked(&player(1), 2));
    assert!(!c.is_weapon_unlocked(&player(2), 2));
    assert_eq!(c.get_unlocked_weapons(&player(1)), vec![2, 5]);
    assert!(c.get_unlocked_weapons(&player(2)).is_empty());
}
