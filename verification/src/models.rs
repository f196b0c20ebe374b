//! Data model of the election application built around the algebra:
//! anonymous voting tokens, elections with their candidates, encrypted
//! ballots and tallies.

use std::collections::HashMap;
use vstd::prelude::*;

use crate::tfhe_uint::FheUint32;

verus! {

/// One anonymous voting token, stored under the hash of its value.
#[derive(Debug, Clone)]
pub struct TokenRecord {
    pub used: bool,
    pub issued_at: u64,
    pub used_at: Option<u64>,
}

/// One candidate of an election.
#[derive(Debug, Clone)]
pub struct Candidate {
    pub id: u32,
    pub label: String,
}

/// An election with its schedule and candidates.
#[derive(Debug, Clone)]
pub struct Election {
    pub id: String,
    pub name: String,
    pub start_time: u64,
    pub end_time: u64,
    pub candidates: Vec<Candidate>,
    pub closed: bool,
}

/// Where an election's evaluation key is kept.
#[derive(Debug, Clone)]
pub struct ElectionKeys {
    pub id: String,
    pub server: String,
    pub timestamp: u64,
}

/// One cast ballot: a vector with one encrypted word per candidate, holding
/// 1 for the chosen candidate and 0 elsewhere.
#[derive(Debug, Clone)]
pub struct Ballot {
    pub ballot_id: String,
    pub election_id: String,
    pub encrypted_vector: Vec<FheUint32>,
    pub timestamp: u64,
    pub token_hash: String,
}

/// One candidate's encrypted tally, as the application persists it.
#[derive(Debug, Clone)]
pub struct Tally {
    pub candidate_id: u32,
    pub encrypted_tally: String,
}

/// All of an election's encrypted tallies, keyed by candidate.
#[derive(Debug, Clone)]
pub struct EncryptedElectionTallies {
    pub election_id: String,
    pub tallies: HashMap<u32, Tally>,
}

} // verus!
