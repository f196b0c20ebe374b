//! The zero-knowledge proof capability at its interface: the trait a proof
//! system implements and the data the election application hands it.
//!
//! The circuit provers themselves (a Groth16 voting circuit, a recursive
//! Fibonacci circuit) are outside collaborators; only their interface and
//! their cleartext statements live here.

use vstd::prelude::*;

verus! {

/// A zero-knowledge proof system: trusted setup, proving, verifying.
pub trait ZeroKnowledge {
    type Parameters;

    type Proof;

    type Statement;

    type Witness;

    /// Generate trusted setup parameters.
    fn setup() -> Result<Self::Parameters, ZkError>;

    /// Create a proof for a statement from a witness.
    fn prove(
        params: &Self::Parameters,
        statement: &Self::Statement,
        witness: &Self::Witness,
    ) -> Result<Self::Proof, ZkError>;

    /// Verify a proof against a statement.
    fn verify(
        params: &Self::Parameters,
        statement: &Self::Statement,
        proof: &Self::Proof,
    ) -> Result<bool, ZkError>;
}

/// Errors of the proof systems.
#[derive(Debug, Clone)]
pub enum ZkError {
    /// The setup parameters are unusable.
    InvalidSetup,
    /// Proof generation failed.
    ProveError,
    /// Proof verification failed to run.
    VerifyError,
    /// Anything the backend reports verbatim.
    Internal(String),
}

/// The serialized key material of a proof system's trusted setup.
#[derive(Debug, Clone)]
pub struct ZkKeys {
    pub pk: Vec<u8>,
    pub vk: Vec<u8>,
}

/// The cleartext statement of the voting circuit: each voter's 0/1 vote
/// vector (the private witness) and the claimed per-candidate totals (the
/// public input).
#[derive(Debug, Clone)]
pub struct VotingCircuit {
    pub votes: Vec<Vec<u8>>,
    pub totals: Vec<u8>,
}

/// The statement of the Fibonacci proof system: which term is claimed.
#[derive(Debug, Clone)]
pub struct FibonacciTerm {
    pub term: u32,
}

/// The (empty) witness of the Fibonacci proof system.
#[derive(Debug, Clone)]
pub struct Witness {}

} // verus!
