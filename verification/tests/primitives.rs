use hyperplonk::accumulator::acc_product;
use hyperplonk::commit::{commit, open, CommitKey};
use hyperplonk::field::{fe_add, fe_div, fe_mul, fe_sub, MODULUS};
use hyperplonk::sample::sample_table;
use hyperplonk::sumcheck::sumcheck_product;
use hyperplonk::table::fix;
use hyperplonk::ProofError;

#[test]
fn field_ops_exact_values() {
    assert_eq!(fe_add(3, 4), 7);
    assert_eq!(fe_add(MODULUS - 1, 1), 0);
    assert_eq!(fe_sub(3, 4), MODULUS - 1);
    assert_eq!(fe_mul(6, 7), 42);
    assert_eq!(fe_mul(MODULUS - 1, MODULUS - 1), 1);
}

#[test]
fn field_division_roundtrip() {
    let q = fe_div(6, 3).unwrap();
    assert_eq!(fe_mul(q, 3), 6);
    let r = fe_div(1, MODULUS - 1).unwrap();
    assert_eq!(fe_mul(r, MODULUS - 1), 1);
}

#[test]
fn field_division_by_zero() {
    assert_eq!(fe_div(5, 0), Err(ProofError::DivisionByZero));
    assert_eq!(fe_div(0, 0), Err(ProofError::DivisionByZero));
}

#[test]
fn fix_index_mapping() {
    // A 4-variable table of length 16: fixing the two leading coordinates
    // selects the four quarters by their big-endian bit pattern.
    let m: Vec<u64> = (0..16).collect();
    let a = fix(&m, &vec![false, false]).unwrap();
    let b = fix(&m, &vec![false, true]).unwrap();
    let c = fix(&m, &vec![true, false]).unwrap();
    assert_eq!(a, vec![0, 1, 2, 3]);
    assert_eq!(b, vec![4, 5, 6, 7]);
    assert_eq!(c, vec![8, 9, 10, 11]);
}

#[test]
fn fix_rejects_malformed_lengths() {
    let m: Vec<u64> = (0..12).collect();
    assert_eq!(fix(&m, &vec![false, false]), Err(ProofError::DimensionMismatch));
    let small: Vec<u64> = vec![1, 2];
    assert_eq!(fix(&small, &vec![false, false]), Err(ProofError::DimensionMismatch));
    let empty: Vec<u64> = Vec::new();
    assert_eq!(fix(&empty, &vec![false]), Err(ProofError::DimensionMismatch));
}

#[test]
fn fix_is_idempotent() {
    let m: Vec<u64> = (0..16).map(|x| x * 31 + 5).collect();
    let first = fix(&m, &vec![true, false]).unwrap();
    let second = fix(&m, &vec![true, false]).unwrap();
    assert_eq!(first, second);
}

#[test]
fn sumcheck_one_round_exact() {
    let p: Vec<u64> = vec![1, 2];
    let q: Vec<u64> = vec![3, 4];
    let ch: Vec<u64> = vec![5];
    let pf = sumcheck_product(&p, &q, &ch).unwrap();
    // One round: values at zero, one, and two of the round polynomial.
    assert_eq!(pf, vec![(3, 8, 15)]);
}

#[test]
fn sumcheck_round_count() {
    let p: Vec<u64> = (0..8).collect();
    let q: Vec<u64> = (8..16).collect();
    let ch: Vec<u64> = vec![2, 3, 4];
    let pf = sumcheck_product(&p, &q, &ch).unwrap();
    assert_eq!(pf.len(), 3);
}

#[test]
fn sumcheck_rejects_mismatched_dimensions() {
    let p: Vec<u64> = vec![1, 2];
    let q: Vec<u64> = vec![3, 4, 5];
    let ch: Vec<u64> = vec![5];
    assert_eq!(sumcheck_product(&p, &q, &ch), Err(ProofError::DimensionMismatch));
    let ch2: Vec<u64> = vec![5, 6];
    let q2: Vec<u64> = vec![3, 4];
    assert_eq!(sumcheck_product(&p, &q2, &ch2), Err(ProofError::DimensionMismatch));
}

#[test]
fn grand_product_all_ones() {
    // The trivial permutation case: every accumulation entry is one, and the
    // doubled-index products match the even/odd tables pointwise everywhere.
    let h: Vec<u64> = vec![1, 1, 1, 1];
    let (vx0, vx1, v1x) = acc_product(&h).unwrap();
    assert_eq!(vx0, vec![1, 1, 1, 1]);
    assert_eq!(vx1, vec![1, 1, 1, 1]);
    assert_eq!(v1x, vec![1, 1, 1, 1]);
    for i in 0..4 {
        assert_eq!(v1x[i], fe_mul(vx0[i], vx1[i]));
    }
}

#[test]
fn grand_product_recursive_structure() {
    let h: Vec<u64> = vec![2, 3, 4, 5];
    let (vx0, vx1, v1x) = acc_product(&h).unwrap();
    assert_eq!(vx0, vec![2, 4, 6, 120]);
    assert_eq!(vx1, vec![3, 5, 20, 1]);
    assert_eq!(v1x, vec![6, 20, 120, 1]);
    // Below the final slot the identity holds by construction.
    for i in 0..3 {
        assert_eq!(v1x[i], fe_mul(vx0[i], vx1[i]));
    }
}

#[test]
fn grand_product_rejects_bad_lengths() {
    let h: Vec<u64> = vec![1, 2, 3];
    assert_eq!(acc_product(&h), Err(ProofError::DimensionMismatch));
    let single: Vec<u64> = vec![1];
    assert_eq!(acc_product(&single), Err(ProofError::DimensionMismatch));
}

#[test]
fn commit_and_open_exact() {
    let key = CommitKey { srs: vec![2] };
    let t: Vec<u64> = vec![3, 5];
    // The commitment evaluates the table at the reference point.
    assert_eq!(commit(&key, &t).unwrap(), 7);
    let (value, wits) = open(&key, &t, &vec![4]).unwrap();
    assert_eq!(value, 11);
    assert_eq!(wits, vec![2]);
}

#[test]
fn commit_and_open_report_failures() {
    let empty_key = CommitKey { srs: Vec::new() };
    let t: Vec<u64> = vec![3, 5];
    assert_eq!(commit(&empty_key, &t), Err(ProofError::CollaboratorFailure));
    assert_eq!(open(&empty_key, &t, &vec![4]), Err(ProofError::CollaboratorFailure));
    let key = CommitKey { srs: vec![2, 3] };
    let bad: Vec<u64> = vec![1, 2, 3];
    assert_eq!(commit(&key, &bad), Err(ProofError::DimensionMismatch));
    assert_eq!(open(&key, &t, &vec![4, 5]), Err(ProofError::DimensionMismatch));
}

#[test]
fn sampled_tables_are_reduced() {
    let t = sample_table(64);
    assert_eq!(t.len(), 64);
    for &x in t.iter() {
        assert!(x < MODULUS);
    }
}
