//! The application: submissions pass the admission policy, then their
//! result is ranked in the season's table.

use vstd::prelude::*;
use soroban_sdk::Env;
use crate::domain::{DomainBinding, ZkPublicInputs};
use crate::leaderboard::{admitted, Leaderboard, LeaderboardEntry};
use crate::policy::{binding_key, Policy, PolicyError};

verus! {

#[derive(Clone, Copy, Debug, PartialEq, Eq, Structural)]
pub enum ApplicationError {
    PolicyNotSet,
    PolicyRejected,
    InvalidInput,
}

/// Application state: the admission policy and the ranked tables.
pub struct Application {
    pub policy: Option<Policy>,
    pub boards: Leaderboard,
}

impl Application {
    pub open spec fn wf(&self) -> bool {
        self.boards.well_ranked()
    }

    pub fn new() -> (r: Application)
        ensures
            r.wf(),
            r.policy.is_none(),
            forall|id: u32| r.boards.season(id) == Seq::<LeaderboardEntry>::empty(),
    {
        Application { policy: None, boards: Leaderboard::new() }
    }

    /// Installs the admission policy.
    pub fn set_policy(&mut self, policy: Policy)
        requires
            old(self).wf(),
        ensures
            final(self).wf(),
            final(self).policy == Some(policy),
            forall|id: u32| final(self).boards.season(id) == old(self).boards.season(id),
    {
        self.policy = Some(policy);
    }

    /// What a submission returns.
    pub open spec fn outcome(
        &self,
        domain: DomainBinding,
        proof: Seq<u8>,
        public_inputs: ZkPublicInputs,
        vk_hash: Seq<u8>,
        score: u32,
        wave: u32,
        season_id: u32,
    ) -> Result<(), ApplicationError> {
        if public_inputs.season_id != season_id {
            Err(ApplicationError::InvalidInput)
        } else {
            match self.policy {
                None => Err(ApplicationError::PolicyNotSet),
                Some(p) => match p.outcome(domain, proof, public_inputs, vk_hash, score, wave) {
                    Err(_) => Err(ApplicationError::PolicyRejected),
                    Ok(()) => Ok(()),
                },
            }
        }
    }

    /// Admits a submission: the season its proof declares must be the one
    /// named, the policy validates it (and marks its replay key), then the
    /// season's table takes the result. A rejection changes nothing.
    pub fn submit_proof(
        &mut self,
        env: &Env,
        domain: &DomainBinding,
        proof: &[u8; 256],
        public_inputs: &ZkPublicInputs,
        vk_hash: &[u8; 32],
        score: u32,
        wave: u32,
        season_id: u32,
    ) -> (r: Result<(), ApplicationError>)
        requires
            old(self).wf(),
            public_inputs.season_id == season_id ==> (old(self).policy matches Some(p) ==> p.pairing_ready(
                *domain,
                proof@,
                *public_inputs,
                vk_hash@,
                score,
                wave,
            )),
        ensures
            final(self).wf(),
            r == old(self).outcome(*domain, proof@, *public_inputs, vk_hash@, score, wave, season_id),
            r is Err ==> forall|id: u32| final(self).boards.season(id) == old(self).boards.season(id),
            r is Err ==> (old(self).policy matches Some(p) ==> (final(self).policy matches Some(q) && q.replay@ == p.replay@)),
            r is Ok ==> {
                &&& final(self).boards.season(season_id) == admitted(
                    old(self).boards.season(season_id),
                    LeaderboardEntry { player: domain.player_address, wave, score },
                )
                &&& forall|id: u32| id != season_id ==> final(self).boards.season(id) == old(self).boards.season(id)
                &&& old(self).policy matches Some(p) && final(self).policy matches Some(q)
                    && q.replay@ == p.replay@.insert(binding_key(*domain))
            },
    {
        if public_inputs.season_id != season_id {
            return Err(ApplicationError::InvalidInput);
        }
        let res = match &mut self.policy {
            None => return Err(ApplicationError::PolicyNotSet),
            Some(p) => p.validate(env, domain, proof, public_inputs, vk_hash, score, wave),
        };
        match res {
            Err(_) => Err(ApplicationError::PolicyRejected),
            Ok(()) => {
                self.boards.record_result(season_id, domain.player_address, score, wave);
                Ok(())
            },
        }
    }

    /// The season's ranked table.
    pub fn get_leaderboard(&self, season_id: u32) -> (r: Vec<LeaderboardEntry>)
        ensures
            r@ == self.boards.season(season_id),
    {
        self.boards.entries(season_id)
    }
}

} // verus!
