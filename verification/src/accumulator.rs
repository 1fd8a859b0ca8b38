//! The grand-product accumulator: from a table `h` of length `N = 2^n` it
//! builds the accumulation vector `v` of length `2N`, whose first half is `h`
//! itself and whose second half carries the recursive pair products
//! `v[N + i] = v[2i] * v[2i + 1]` (the final slot, which the recursion cannot
//! define, is fixed to one).  The three returned tables are the even-indexed
//! entries, the odd-indexed entries, and the doubled-index products: the
//! identity `v1x[i] == vx0[i] * vx1[i]` then holds everywhere below the last
//! slot by construction, and at the last slot exactly when the cumulative
//! product of `h` is one.
use vstd::prelude::*;
use vstd::arithmetic::div_mod::lemma_small_mod;
use vstd::arithmetic::power2::pow2;
use crate::field::{f_mul, fe_mul, fe_ok, MODULUS};
use crate::table::{exact_pow2, log2_floor, slice_tbl, wf_tbl};
use crate::ProofError;

verus! {

/// The value of the accumulation vector of `h` at index `j`.
pub open spec fn acc_val(h: Seq<u64>, j: nat) -> u64
    decreases j,
{
    let n = h.len();
    if n == 0 {
        0u64
    } else if j < n {
        h[j as int]
    } else if j >= 2 * n - 1 {
        if j == 2 * n - 1 {
            1u64
        } else {
            0u64
        }
    } else {
        f_mul(acc_val(h, (2 * (j - n)) as nat), acc_val(h, (2 * (j - n) + 1) as nat))
    }
}

/// The even-indexed entries of the accumulation vector.
pub open spec fn acc_x0_tbl(h: Seq<u64>) -> Seq<u64> {
    Seq::new(h.len(), |i: int| acc_val(h, (2 * i) as nat))
}

/// The odd-indexed entries of the accumulation vector.
pub open spec fn acc_x1_tbl(h: Seq<u64>) -> Seq<u64> {
    Seq::new(h.len(), |i: int| acc_val(h, (2 * i + 1) as nat))
}

/// The doubled-index products: the upper half of the accumulation vector.
pub open spec fn acc_1x_tbl(h: Seq<u64>) -> Seq<u64> {
    Seq::new(h.len(), |i: int| acc_val(h, (h.len() + i) as nat))
}

/// Every accumulation entry of the all-ones table is one.
proof fn lemma_acc_val_all_ones(h: Seq<u64>, j: nat)
    requires
        h.len() >= 1,
        forall|k: int| 0 <= k < h.len() ==> h[k] == 1u64,
        j < 2 * h.len(),
    ensures
        acc_val(h, j) == 1u64,
    decreases j,
{
    let n = h.len();
    if j < n || j == 2 * n - 1 {
        lemma_small_mod(1nat, MODULUS as nat);
    } else {
        lemma_acc_val_all_ones(h, (2 * (j - n)) as nat);
        lemma_acc_val_all_ones(h, (2 * (j - n) + 1) as nat);
        lemma_small_mod(1nat, MODULUS as nat);
    }
}

/// Grand-product consistency: when `h` is the all-ones table (the trivial
/// permutation case), the doubled-index product table equals the pointwise
/// product of the even- and odd-indexed tables at every index.
pub proof fn lemma_grand_product_consistency(h: Seq<u64>, i: int)
    requires
        h.len() >= 1,
        forall|k: int| 0 <= k < h.len() ==> h[k] == 1u64,
        0 <= i < h.len(),
    ensures
        acc_1x_tbl(h)[i] == f_mul(acc_x0_tbl(h)[i], acc_x1_tbl(h)[i]),
{
    lemma_acc_val_all_ones(h, (h.len() + i) as nat);
    lemma_acc_val_all_ones(h, (2 * i) as nat);
    lemma_acc_val_all_ones(h, (2 * i + 1) as nat);
    lemma_small_mod(1nat, MODULUS as nat);
}

/// Below the final slot the identity holds for every table, directly by the
/// recursive construction.
pub proof fn lemma_grand_product_step(h: Seq<u64>, i: int)
    requires
        h.len() >= 1,
        0 <= i < h.len() - 1,
    ensures
        acc_1x_tbl(h)[i] == f_mul(acc_x0_tbl(h)[i], acc_x1_tbl(h)[i]),
{
}

/// Runs the grand-product accumulator on `h`, whose length must be a power
/// of two at least two, and returns the even-indexed, odd-indexed and
/// doubled-index tables of its accumulation vector, each as long as `h`.
pub fn acc_product(h: &Vec<u64>) -> (r: Result<(Vec<u64>, Vec<u64>, Vec<u64>), ProofError>)
    requires
        wf_tbl(h@),
        2 * h@.len() <= usize::MAX,
    ensures
        r is Err ==> r == Err::<(Vec<u64>, Vec<u64>, Vec<u64>), ProofError>(
            ProofError::DimensionMismatch,
        ),
        r is Ok <==> exact_pow2(h@.len()) && h@.len() >= 2,
        r matches Ok(t) ==> {
            &&& t.0@ == acc_x0_tbl(h@)
            &&& t.1@ == acc_x1_tbl(h@)
            &&& t.2@ == acc_1x_tbl(h@)
            &&& wf_tbl(t.0@)
            &&& wf_tbl(t.1@)
            &&& wf_tbl(t.2@)
        },
{
    let n = h.len();
    let (_, exact) = log2_floor(n);
    if !exact || n < 2 {
        return Err(ProofError::DimensionMismatch);
    }
    let mut v = slice_tbl(h, 0, n);
    proof {
        assert(v@ =~= h@);
    }
    let mut i: usize = 0;
    while i < n - 1
        invariant
            n == h@.len(),
            2 <= n,
            2 * n <= usize::MAX,
            wf_tbl(h@),
            v@.len() == n + i,
            i <= n - 1,
            wf_tbl(v@),
            forall|t: int| 0 <= t < v@.len() ==> v@[t] == acc_val(h@, t as nat),
        decreases n - i,
    {
        let a = v[2 * i];
        let b = v[2 * i + 1];
        let prod = fe_mul(a, b);
        v.push(prod);
        i = i + 1;
    }
    proof {
        lemma_small_mod(1nat, MODULUS as nat);
    }
    v.push(1);
    let mut vx0: Vec<u64> = Vec::new();
    let mut vx1: Vec<u64> = Vec::new();
    let mut v1x: Vec<u64> = Vec::new();
    let mut j: usize = 0;
    while j < n
        invariant
            n == h@.len(),
            2 * n <= usize::MAX,
            v@.len() == 2 * n,
            wf_tbl(v@),
            forall|t: int| 0 <= t < v@.len() ==> v@[t] == acc_val(h@, t as nat),
            j <= n,
            vx0@.len() == j,
            vx1@.len() == j,
            v1x@.len() == j,
            forall|t: int| 0 <= t < j ==> vx0@[t] == acc_val(h@, (2 * t) as nat),
            forall|t: int| 0 <= t < j ==> vx1@[t] == acc_val(h@, (2 * t + 1) as nat),
            forall|t: int| 0 <= t < j ==> v1x@[t] == acc_val(h@, (n + t) as nat),
            wf_tbl(vx0@),
            wf_tbl(vx1@),
            wf_tbl(v1x@),
        decreases n - j,
    {
        let e0 = v[2 * j];
        let e1 = v[2 * j + 1];
        let e2 = v[n + j];
        vx0.push(e0);
        vx1.push(e1);
        v1x.push(e2);
        j = j + 1;
    }
    proof {
        assert(vx0@ =~= acc_x0_tbl(h@));
        assert(vx1@ =~= acc_x1_tbl(h@));
        assert(v1x@ =~= acc_1x_tbl(h@));
    }
    Ok((vx0, vx1, v1x))
}

} // verus!
