use hyperplonk::commit::CommitKey;
use hyperplonk::field::fe_mul;
use hyperplonk::pipeline::{
    arithmetize, build_blinded, build_ratio, gate_argument, prove, wiring_argument, LinkInput,
    ProverInput,
};
use hyperplonk::protocol::{local_hyperplonk, local_hyperplonkpp};
use hyperplonk::sumcheck::sumcheck_product;
use hyperplonk::ProofError;

fn zero_input(n: usize) -> ProverInput {
    let gc = 1usize << n;
    ProverInput {
        n,
        m: vec![0; gc * 4],
        input: vec![0; gc],
        q1: vec![0; gc],
        q2: vec![0; gc],
        ssigma: vec![0; gc * 4],
        sid: vec![0; gc],
        eq: vec![0; gc],
        beta: 0,
        gamma: 0,
        challenge: vec![0; n],
    }
}

#[test]
fn arithmetize_splits_quarters() {
    let m: Vec<u64> = (0..32).collect();
    let (a, b, c) = arithmetize(&m).unwrap();
    let quarter: Vec<u64> = (0..8).collect();
    assert_eq!(a, quarter);
    assert_eq!(b, (8..16).collect::<Vec<u64>>());
    assert_eq!(c, (16..24).collect::<Vec<u64>>());
}

#[test]
fn arithmetize_rejects_malformed_witness() {
    let m: Vec<u64> = (0..24).collect();
    assert_eq!(arithmetize(&m), Err(ProofError::DimensionMismatch));
}

#[test]
fn gate_argument_fixed_order() {
    let eq: Vec<u64> = vec![1, 2];
    let q1: Vec<u64> = vec![3, 4];
    let q2: Vec<u64> = vec![5, 6];
    let a: Vec<u64> = vec![7, 8];
    let b: Vec<u64> = vec![9, 10];
    let c: Vec<u64> = vec![11, 12];
    let input: Vec<u64> = vec![13, 14];
    let ch: Vec<u64> = vec![15];
    let proofs = gate_argument(&eq, &q1, &q2, &a, &b, &c, &input, &ch);
    assert_eq!(proofs.len(), 6);
    assert_eq!(proofs[0], sumcheck_product(&eq, &q1, &ch).unwrap());
    let sum_ab: Vec<u64> = vec![16, 18];
    assert_eq!(proofs[1], sumcheck_product(&q1, &sum_ab, &ch).unwrap());
    assert_eq!(proofs[2], sumcheck_product(&eq, &q2, &ch).unwrap());
    assert_eq!(proofs[3], sumcheck_product(&a, &b, &ch).unwrap());
    assert_eq!(proofs[4], sumcheck_product(&q2, &a, &ch).unwrap());
    let diff_ic: Vec<u64> = vec![2, 2];
    assert_eq!(proofs[5], sumcheck_product(&eq, &diff_ic, &ch).unwrap());
}

#[test]
fn wiring_argument_counts_and_order() {
    let eq: Vec<u64> = vec![1, 2];
    let a: Vec<u64> = vec![3, 4];
    let b: Vec<u64> = vec![5, 6];
    let c: Vec<u64> = vec![7, 8];
    let sa: Vec<u64> = vec![9, 10];
    let sb: Vec<u64> = vec![11, 12];
    let sc: Vec<u64> = vec![13, 14];
    let sid: Vec<u64> = vec![15, 16];
    let ch: Vec<u64> = vec![17];
    let key = CommitKey { srs: vec![18, 19, 20] };
    let (pf, cm, op) = wiring_argument(&key, &eq, &a, &b, &c, &sa, &sb, &sc, &sid, 2, 3, &ch)
        .unwrap();
    assert_eq!(pf.len(), 6);
    assert_eq!(cm.len(), 6);
    assert_eq!(op.len(), 6);
    // Cross-check the third instance against the grand product of h.
    let num = build_blinded(&a, &b, &c, &sa, &sb, &sc, 2, 3);
    let den = build_blinded(&a, &b, &c, &sid, &sid, &sid, 2, 3);
    let h = build_ratio(&num, &den).unwrap();
    let (vx0, vx1, _) = hyperplonk::accumulator::acc_product(&h).unwrap();
    assert_eq!(pf[2], sumcheck_product(&vx0, &vx1, &ch).unwrap());
    assert_eq!(pf[4], sumcheck_product(&eq, &num, &ch).unwrap());
}

#[test]
fn prove_hits_division_by_zero_deterministically() {
    // All-zero wires and labels with zero blinding make every denominator
    // entry the additive identity.
    let inp = zero_input(2);
    let key = CommitKey { srs: vec![1, 2, 3, 4] };
    assert_eq!(prove(&key, &inp, &LinkInput::NoLink), Err(ProofError::DivisionByZero));
}

#[test]
fn prove_rejects_malformed_witness() {
    let mut inp = zero_input(2);
    inp.m = vec![0; 12];
    let key = CommitKey { srs: vec![1, 2, 3, 4] };
    assert_eq!(prove(&key, &inp, &LinkInput::NoLink), Err(ProofError::DimensionMismatch));
}

#[test]
fn prove_reports_insufficient_arity() {
    let inp = zero_input(2);
    let key = CommitKey { srs: vec![1] };
    assert_eq!(prove(&key, &inp, &LinkInput::NoLink), Err(ProofError::CollaboratorFailure));
}

#[test]
fn prove_rejects_malformed_link() {
    let inp = zero_input(2);
    let key = CommitKey { srs: vec![1, 2, 3, 4] };
    let link = LinkInput::WitnessLink {
        s: vec![0; 8],
        point_a: vec![0; 4],
        point_b: vec![0; 4],
    };
    assert_eq!(prove(&key, &inp, &link), Err(ProofError::DimensionMismatch));
}

#[test]
fn baseline_cardinalities_n3() {
    // Eight gates: six gate proofs, nine gate commitment/opening pairs, six
    // wiring proofs, six wiring commitments, six wiring openings.
    let b = local_hyperplonk(3).unwrap();
    assert_eq!(b.gate_proofs.len(), 6);
    assert_eq!(b.gate_openings.len(), 9);
    assert_eq!(b.wiring_proofs.len(), 6);
    assert_eq!(b.wiring_commitments.len(), 6);
    assert_eq!(b.wiring_openings.len(), 6);
    for pf in b.gate_proofs.iter() {
        assert_eq!(pf.len(), 3);
    }
    for pf in b.wiring_proofs.iter() {
        assert_eq!(pf.len(), 3);
    }
    for (_, (_, wits)) in b.gate_openings.iter() {
        assert_eq!(wits.len(), 3);
    }
}

#[test]
fn baseline_cardinalities_other_sizes() {
    for n in [1usize, 2, 4] {
        let b = local_hyperplonk(n).unwrap();
        assert_eq!(b.gate_proofs.len(), 6);
        assert_eq!(b.gate_openings.len(), 9);
        assert_eq!(b.wiring_proofs.len(), 6);
        assert_eq!(b.wiring_commitments.len(), 6);
        assert_eq!(b.wiring_openings.len(), 6);
        for pf in b.gate_proofs.iter() {
            assert_eq!(pf.len(), n);
        }
    }
}

#[test]
fn plus_variant_cardinalities() {
    // The witness-link variant commits the baseline's fifteen polynomials
    // plus one, and opens the witness at two extra points.
    let b = local_hyperplonkpp(3).unwrap();
    assert_eq!(b.gate_proofs.len(), 6);
    assert_eq!(b.gate_openings.len(), 9);
    assert_eq!(b.wiring_proofs.len(), 7);
    assert_eq!(b.wiring_commitments.len(), 7);
    assert_eq!(b.wiring_openings.len(), 9);
    assert_eq!(b.wiring_proofs[0].len(), 5);
    for pf in b.wiring_proofs.iter().skip(1) {
        assert_eq!(pf.len(), 3);
    }
    let total_commitments = b.gate_openings.len() + b.wiring_commitments.len();
    assert_eq!(total_commitments, 16);
}

#[test]
fn commit_count_totals() {
    let b = local_hyperplonk(2).unwrap();
    let total_commitments = b.gate_openings.len() + b.wiring_commitments.len();
    assert_eq!(total_commitments, 15);
}

#[test]
fn grand_product_identity_in_pipeline() {
    // For the all-ones ratio table the accumulator identity holds at every
    // index; check it through the public pipeline pieces.
    let ones: Vec<u64> = vec![1; 8];
    let (vx0, vx1, v1x) = hyperplonk::accumulator::acc_product(&ones).unwrap();
    for i in 0..8 {
        assert_eq!(v1x[i], fe_mul(vx0[i], vx1[i]));
    }
}
