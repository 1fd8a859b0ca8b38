//! The two exposed protocol orchestrations.  Both sample every table and
//! challenge fresh per invocation, build the commitment key from a fresh
//! reference point, and run the shared pipeline; they differ only in the
//! injected linking step.  The tables are sampled independently at random,
//! so the produced bundles exercise cost and structure, not the truth of a
//! constraint-satisfying witness.
use vstd::prelude::*;
use vstd::arithmetic::power2::{lemma_pow2_strictly_increases, pow2};
use crate::commit::CommitKey;
use crate::pipeline::{arity_needed, prove, wf_input, wf_link, LinkInput, ProverInput};
use crate::sample::{sample_field_element, sample_table};
use crate::table::{lemma_pow2_at_least, pow2_usize};
use crate::{ProofBundle, ProofError};

verus! {

/// Runs the baseline argument for a circuit of `2^n` gates: nine gate-scope
/// commitments each opened at the shared challenge, six gate-identity
/// sum-check instances, and the wiring argument's six instances,
/// commitments and openings.  The only failure an honest run can surface is
/// a wiring denominator without an inverse.
pub fn local_hyperplonk(n: usize) -> (r: Result<ProofBundle, ProofError>)
    requires
        1 <= n,
        pow2((n + 2) as nat) <= usize::MAX,
    ensures
        r is Err ==> r == Err::<ProofBundle, ProofError>(ProofError::DivisionByZero),
        r matches Ok(b) ==> {
            &&& b.gate_proofs@.len() == 6
            &&& b.gate_openings@.len() == 9
            &&& b.wiring_proofs@.len() == 6
            &&& b.wiring_commitments@.len() == 6
            &&& b.wiring_openings@.len() == 6
        },
{
    proof {
        lemma_pow2_at_least((n + 2) as nat);
        lemma_pow2_strictly_increases(n as nat, (n + 2) as nat);
    }
    let gc = match pow2_usize(n) {
        Some(v) => v,
        None => vstd::pervasive::unreached(),
    };
    let gc4 = match pow2_usize(n + 2) {
        Some(v) => v,
        None => vstd::pervasive::unreached(),
    };
    let m = sample_table(gc4);
    let input = sample_table(gc);
    let q1 = sample_table(gc);
    let q2 = sample_table(gc);
    let ssigma = sample_table(gc4);
    let sid = sample_table(gc);
    let eq = sample_table(gc);
    let challenge = sample_table(n);
    let beta = sample_field_element();
    let gamma = sample_field_element();
    let srs = sample_table(n + 2);
    let key = CommitKey { srs };
    let inp = ProverInput { n, m, input, q1, q2, ssigma, sid, eq, beta, gamma, challenge };
    let link = LinkInput::NoLink;
    let r = prove(&key, &inp, &link);
    proof {
        assert(wf_input(inp));
        assert(wf_link(link, n));
        assert(arity_needed(link, n) <= key.srs@.len());
    }
    r
}

/// Runs the "plus" argument for a circuit of `2^n` gates: everything the
/// baseline does, plus one extra sampled `(n+2)`-variable table that is
/// committed and sum-checked against the witness at an `(n+2)`-length
/// challenge, with the witness opened at two distinct `(n+2)`-length
/// points.
pub fn local_hyperplonkpp(n: usize) -> (r: Result<ProofBundle, ProofError>)
    requires
        1 <= n,
        pow2((n + 2) as nat) <= usize::MAX,
    ensures
        r is Err ==> r == Err::<ProofBundle, ProofError>(ProofError::DivisionByZero),
        r matches Ok(b) ==> {
            &&& b.gate_proofs@.len() == 6
            &&& b.gate_openings@.len() == 9
            &&& b.wiring_proofs@.len() == 7
            &&& b.wiring_commitments@.len() == 7
            &&& b.wiring_openings@.len() == 9
        },
{
    proof {
        lemma_pow2_at_least((n + 2) as nat);
        lemma_pow2_strictly_increases(n as nat, (n + 2) as nat);
    }
    let gc = match pow2_usize(n) {
        Some(v) => v,
        None => vstd::pervasive::unreached(),
    };
    let gc4 = match pow2_usize(n + 2) {
        Some(v) => v,
        None => vstd::pervasive::unreached(),
    };
    let m = sample_table(gc4);
    let input = sample_table(gc);
    let q1 = sample_table(gc);
    let q2 = sample_table(gc);
    let ssigma = sample_table(gc4);
    let sid = sample_table(gc);
    let eq = sample_table(gc);
    let challenge = sample_table(n);
    let beta = sample_field_element();
    let gamma = sample_field_element();
    let srs = sample_table(n + 2);
    let s = sample_table(gc4);
    let point_a = sample_table(n + 2);
    let point_b = sample_table(n + 2);
    let key = CommitKey { srs };
    let inp = ProverInput { n, m, input, q1, q2, ssigma, sid, eq, beta, gamma, challenge };
    let link = LinkInput::WitnessLink { s, point_a, point_b };
    let r = prove(&key, &inp, &link);
    proof {
        assert(wf_input(inp));
        assert(wf_link(link, n));
        assert(arity_needed(link, n) <= key.srs@.len());
    }
    r
}

} // verus!
