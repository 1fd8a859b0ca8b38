//! A prover-side pipeline for a HyperPlonk-style argument system.
//!
//! A witness over the boolean hypercube is arithmetized into per-wire
//! evaluation tables, its gate relation is decomposed into a fixed batch of
//! pairwise-product sum-check instances, and the wiring (copy) constraint is
//! reduced to a blinded grand-product identity.  Two orchestrations are
//! exposed: a baseline one, and a "plus" one that adds an extra
//! witness-linking sum-check and opens the witness at two points.
use vstd::prelude::*;

pub mod accumulator;
pub mod commit;
pub mod field;
pub mod pipeline;
pub mod protocol;
pub mod sample;
pub mod sumcheck;
pub mod table;

verus! {

/// How a proof invocation can fail.  Every failure aborts the whole
/// invocation; there is no partial result.
#[derive(Clone, Copy, Debug, PartialEq, Eq, Structural)]
pub enum ProofError {
    /// A table's length is inconsistent with its declared variable count.
    DimensionMismatch,
    /// A denominator of the rational wiring identity has no inverse.
    DivisionByZero,
    /// The commitment scheme's parameters cannot serve the request.
    CollaboratorFailure,
}

/// The assembled output of one proof invocation: a gate-identity group
/// (sum-check proofs plus commitment/opening pairs) and the wiring group
/// (sum-check proofs, commitments, and openings).
#[derive(Debug, PartialEq, Eq)]
pub struct ProofBundle {
    /// Gate-identity sum-check proofs, one per pairwise-product sub-claim.
    pub gate_proofs: Vec<Vec<(u64, u64, u64)>>,
    /// Commitment and opening for each polynomial of gate-identity scope.
    pub gate_openings: Vec<(u64, (u64, Vec<u64>))>,
    /// Wiring sum-check proofs.
    pub wiring_proofs: Vec<Vec<(u64, u64, u64)>>,
    /// Commitments of wiring scope, in the fixed protocol order.
    pub wiring_commitments: Vec<u64>,
    /// Openings of wiring scope, in the fixed protocol order.
    pub wiring_openings: Vec<(u64, Vec<u64>)>,
}

} // verus!
