//! Evaluation tables: a `k`-variable multilinear polynomial is held as the
//! sequence of its `2^k` values on the boolean hypercube, the index being the
//! big-endian bit pattern of the point.  This module provides the shared
//! table machinery: partial-variable fixing, folding one variable to a field
//! value, pointwise sums and differences, the pairwise-product hypercube sum,
//! and full multilinear evaluation at a point.
use vstd::prelude::*;
use vstd::arithmetic::power2::{
    lemma2_to64, lemma_pow2_adds, lemma_pow2_pos, lemma_pow2_strictly_increases,
    lemma_pow2_unfold, pow2,
};
use vstd::arithmetic::mul::{lemma_mul_inequality, lemma_mul_is_distributive_add_other_way};
use crate::field::{f_add, f_mul, f_sub, fe_add, fe_mul, fe_ok, fe_sub};
use crate::ProofError;

verus! {

/// Every entry of the table is a reduced field element.
pub open spec fn wf_tbl(t: Seq<u64>) -> bool {
    forall|i: int| 0 <= i < t.len() ==> fe_ok(#[trigger] t[i])
}

/// The floor of the base-two logarithm (0 for the empty and singleton cases).
pub open spec fn log2(n: nat) -> nat
    decreases n,
{
    if n <= 1 {
        0
    } else {
        1 + log2(n / 2)
    }
}

/// A length is an exact power of two exactly when it equals
/// `pow2(log2(len))`.
pub open spec fn exact_pow2(n: nat) -> bool {
    n == pow2(log2(n))
}

/// Two to any power exceeds the exponent.
pub proof fn lemma_pow2_at_least(e: nat)
    ensures
        pow2(e) > e,
    decreases e,
{
    lemma2_to64();
    if e > 0 {
        lemma_pow2_at_least((e - 1) as nat);
        lemma_pow2_unfold(e);
    }
}

/// `log2` inverts `pow2`.
pub proof fn lemma_log2_pow2(k: nat)
    ensures
        log2(pow2(k)) == k,
    decreases k,
{
    lemma2_to64();
    if k > 0 {
        lemma_log2_pow2((k - 1) as nat);
        lemma_pow2_unfold(k);
        lemma_pow2_pos((k - 1) as nat);
        assert(pow2(k) / 2 == pow2((k - 1) as nat));
    }
}

/// Computes the floor of the base-two logarithm of `n`, and whether `n` is an
/// exact power of two.
pub fn log2_floor(n: usize) -> (r: (usize, bool))
    ensures
        r.0 == log2(n as nat),
        r.1 <==> exact_pow2(n as nat),
{
    let mut cur: usize = n;
    let mut k: usize = 0;
    let mut exact: bool = true;
    proof {
        lemma2_to64();
    }
    while cur > 1
        invariant
            log2(n as nat) == k + log2(cur as nat),
            (n as nat == pow2(log2(n as nat))) <==> (exact && cur as nat == pow2(
                log2(cur as nat),
            )),
            cur as nat * pow2(k as nat) <= n as nat,
            cur <= n,
            1 <= cur || n == 0,
        decreases cur,
    {
        proof {
            let lc = log2(cur as nat);
            assert(lc == 1 + log2((cur / 2) as nat));
            lemma_pow2_unfold(lc);
            if cur % 2 == 1 {
                assert(cur as nat != pow2(lc));
            } else {
                assert(cur == 2 * (cur / 2));
            }
            lemma_pow2_at_least(k as nat);
            lemma_pow2_unfold((k + 1) as nat);
            lemma_mul_inequality(1, cur as int, pow2(k as nat) as int);
            assert(pow2(k as nat) <= n as nat);
            assert((cur / 2) as nat * (2 * pow2(k as nat)) <= cur as nat * pow2(k as nat))
                by (nonlinear_arith)
                requires
                    cur >= 1,
            ;
        }
        if cur % 2 == 1 {
            exact = false;
        }
        cur = cur / 2;
        k = k + 1;
    }
    if cur == 1 {
        (k, exact)
    } else {
        (k, false)
    }
}

/// Computes `2^k` when it fits a `usize`.
pub fn pow2_usize(k: usize) -> (r: Option<usize>)
    ensures
        r matches Some(v) ==> v as nat == pow2(k as nat),
        r is None ==> pow2(k as nat) > usize::MAX,
{
    let mut acc: usize = 1;
    let mut i: usize = 0;
    proof {
        lemma2_to64();
    }
    while i < k
        invariant
            i <= k,
            acc as nat == pow2(i as nat),
        decreases k - i,
    {
        if acc > usize::MAX / 2 {
            proof {
                lemma_pow2_unfold((i + 1) as nat);
                if i + 1 < k {
                    lemma_pow2_strictly_increases((i + 1) as nat, k as nat);
                }
            }
            return None;
        }
        proof {
            lemma_pow2_unfold((i + 1) as nat);
        }
        acc = acc * 2;
        i = i + 1;
    }
    Some(acc)
}

/// The big-endian value of a partial boolean point.
pub open spec fn bits_val(bs: Seq<bool>) -> nat
    decreases bs.len(),
{
    if bs.len() == 0 {
        0
    } else {
        2 * bits_val(bs.drop_last()) + (if bs.last() {
            1nat
        } else {
            0nat
        })
    }
}

/// The value of a partial point is below `2^(number of bits)`.
pub proof fn lemma_bits_val_bound(bs: Seq<bool>)
    ensures
        bits_val(bs) < pow2(bs.len()),
    decreases bs.len(),
{
    lemma2_to64();
    if bs.len() > 0 {
        lemma_bits_val_bound(bs.drop_last());
        lemma_pow2_unfold(bs.len());
    }
}

/// Fixes the leading `point.len()` variables of the table to the given
/// boolean pattern: the result is the contiguous block of the table selected
/// by the pattern's big-endian value.  Rejects tables whose length is not a
/// power of two at least `2^(point.len())`.
pub fn fix(m: &Vec<u64>, point: &Vec<bool>) -> (r: Result<Vec<u64>, ProofError>)
    ensures
        r is Err ==> r == Err::<Vec<u64>, ProofError>(ProofError::DimensionMismatch),
        r is Ok <==> exact_pow2(m@.len()) && pow2(point@.len()) <= m@.len(),
        r matches Ok(out) ==> {
            &&& out@.len() == m@.len() / pow2(point@.len())
            &&& out@ == m@.subrange(
                (bits_val(point@) * (m@.len() / pow2(point@.len()))) as int,
                (bits_val(point@) * (m@.len() / pow2(point@.len())) + m@.len() / pow2(
                    point@.len(),
                )) as int,
            )
            &&& forall|i: int|
                0 <= i < out@.len() ==> out@[i] == m@[bits_val(point@) * (m@.len() / pow2(
                    point@.len(),
                )) + i]
        },
{
    let (k, exact) = log2_floor(m.len());
    if !exact {
        return Err(ProofError::DimensionMismatch);
    }
    if point.len() > k {
        proof {
            lemma_pow2_strictly_increases(k as nat, point@.len());
        }
        return Err(ProofError::DimensionMismatch);
    }
    proof {
        if point@.len() < k as nat {
            lemma_pow2_strictly_increases(point@.len(), k as nat);
        }
    }
    let p2j = match pow2_usize(point.len()) {
        Some(v) => v,
        None => {
            return Err(ProofError::DimensionMismatch);
        },
    };
    proof {
        lemma_pow2_pos(point@.len());
    }
    let blk = m.len() / p2j;
    proof {
        lemma_pow2_adds(point@.len(), (k - point.len()) as nat);
        lemma_pow2_pos((k - point.len()) as nat);
        assert(pow2(point@.len()) * pow2((k - point.len()) as nat) / pow2(point@.len()) == pow2(
            (k - point.len()) as nat,
        )) by (nonlinear_arith)
            requires
                pow2(point@.len()) > 0,
        ;
        assert(blk as nat == pow2((k - point.len()) as nat));
    }
    // The offset of the selected block.
    let mut off: usize = 0;
    let mut i: usize = 0;
    proof {
        lemma_bits_val_bound(point@);
        lemma2_to64();
    }
    while i < point.len()
        invariant
            i <= point.len(),
            off as nat == bits_val(point@.take(i as int)),
            (off as nat) < pow2(i as nat),
            pow2(point@.len()) <= m@.len(),
            m@.len() <= usize::MAX,
        decreases point.len() - i,
    {
        proof {
            assert(point@.take(i + 1).drop_last() =~= point@.take(i as int));
            assert(point@.take(i + 1).last() == point@[i as int]);
            lemma_pow2_unfold((i + 1) as nat);
            if i + 1 < point.len() {
                lemma_pow2_strictly_increases((i + 1) as nat, point@.len());
            } else {
                assert((i + 1) as nat == point@.len());
            }
            assert(pow2((i + 1) as nat) <= pow2(point@.len()));
        }
        off = 2 * off + (if point[i] {
            1
        } else {
            0
        });
        i = i + 1;
    }
    proof {
        assert(point@.take(point@.len() as int) =~= point@);
        lemma_mul_inequality(off as int, off + 1, blk as int);
        lemma_mul_is_distributive_add_other_way(blk as int, off as int, 1);
        lemma_mul_inequality(off + 1, pow2(point@.len()) as int, blk as int);
        assert(pow2(point@.len()) * blk == m@.len());
        assert(off * blk + blk <= m@.len());
    }
    let start = off * blk;
    let mut out: Vec<u64> = Vec::new();
    let mut j: usize = 0;
    while j < blk
        invariant
            j <= blk,
            start + blk <= m@.len(),
            m@.len() <= usize::MAX,
            start == off * blk,
            out@.len() == j,
            forall|t: int| 0 <= t < j ==> out@[t] == m@[start + t],
        decreases blk - j,
    {
        let v = m[start + j];
        out.push(v);
        j = j + 1;
    }
    proof {
        assert(out@ =~= m@.subrange(start as int, (start + blk) as int));
    }
    Ok(out)
}

/// Copies the subrange `[start, start+len)` of a table.
pub fn slice_tbl(t: &Vec<u64>, start: usize, len: usize) -> (r: Vec<u64>)
    requires
        start + len <= t@.len(),
    ensures
        r@ == t@.subrange(start as int, (start + len) as int),
{
    let tl = t.len();
    let mut out: Vec<u64> = Vec::new();
    let mut i: usize = 0;
    while i < len
        invariant
            i <= len,
            start + len <= tl,
            tl == t@.len(),
            out@.len() == i,
            forall|j: int| 0 <= j < i ==> out@[j] == t@[start + j],
        decreases len - i,
    {
        let v = t[start + i];
        out.push(v);
        i = i + 1;
    }
    proof {
        assert(out@ =~= t@.subrange(start as int, (start + len) as int));
    }
    out
}

/// The pointwise sum of two equally long tables.
pub open spec fn tbl_add(a: Seq<u64>, b: Seq<u64>) -> Seq<u64> {
    Seq::new(a.len(), |i: int| f_add(a[i], b[i]))
}

/// The pointwise difference of two equally long tables.
pub open spec fn tbl_sub(a: Seq<u64>, b: Seq<u64>) -> Seq<u64> {
    Seq::new(a.len(), |i: int| f_sub(a[i], b[i]))
}

pub fn fe_tbl_add(a: &Vec<u64>, b: &Vec<u64>) -> (r: Vec<u64>)
    requires
        a@.len() == b@.len(),
        wf_tbl(a@),
        wf_tbl(b@),
    ensures
        r@ == tbl_add(a@, b@),
        wf_tbl(r@),
{
    let mut out: Vec<u64> = Vec::new();
    let mut i: usize = 0;
    while i < a.len()
        invariant
            i <= a@.len(),
            a@.len() == b@.len(),
            wf_tbl(a@),
            wf_tbl(b@),
            out@.len() == i,
            forall|j: int| 0 <= j < i ==> out@[j] == tbl_add(a@, b@)[j],
            wf_tbl(out@),
        decreases a@.len() - i,
    {
        let v = fe_add(a[i], b[i]);
        out.push(v);
        i = i + 1;
    }
    proof {
        assert(out@ =~= tbl_add(a@, b@));
    }
    out
}

pub fn fe_tbl_sub(a: &Vec<u64>, b: &Vec<u64>) -> (r: Vec<u64>)
    requires
        a@.len() == b@.len(),
        wf_tbl(a@),
        wf_tbl(b@),
    ensures
        r@ == tbl_sub(a@, b@),
        wf_tbl(r@),
{
    let mut out: Vec<u64> = Vec::new();
    let mut i: usize = 0;
    while i < a.len()
        invariant
            i <= a@.len(),
            a@.len() == b@.len(),
            wf_tbl(a@),
            wf_tbl(b@),
            out@.len() == i,
            forall|j: int| 0 <= j < i ==> out@[j] == tbl_sub(a@, b@)[j],
            wf_tbl(out@),
        decreases a@.len() - i,
    {
        let v = fe_sub(a[i], b[i]);
        out.push(v);
        i = i + 1;
    }
    proof {
        assert(out@ =~= tbl_sub(a@, b@));
    }
    out
}

/// Folding the leading variable of a table to the field value `r`:
/// `out[i] = t[i] + r * (t[half + i] - t[i])`, the multilinear interpolation
/// between the two halves.
pub open spec fn fold_tbl(t: Seq<u64>, r: u64) -> Seq<u64> {
    Seq::new((t.len() / 2) as nat, |i: int| f_add(t[i], f_mul(r, f_sub(t[t.len() / 2 + i], t[i]))))
}

pub fn fe_fold(t: &Vec<u64>, r: u64) -> (out: Vec<u64>)
    requires
        wf_tbl(t@),
        fe_ok(r),
    ensures
        out@ == fold_tbl(t@, r),
        wf_tbl(out@),
{
    let half = t.len() / 2;
    let mut out: Vec<u64> = Vec::new();
    let mut i: usize = 0;
    while i < half
        invariant
            i <= half,
            half == t@.len() / 2,
            t@.len() <= usize::MAX,
            wf_tbl(t@),
            fe_ok(r),
            out@.len() == i,
            forall|j: int| 0 <= j < i ==> out@[j] == fold_tbl(t@, r)[j],
            wf_tbl(out@),
        decreases half - i,
    {
        let d = fe_sub(t[half + i], t[i]);
        let v = fe_add(t[i], fe_mul(r, d));
        out.push(v);
        i = i + 1;
    }
    proof {
        assert(out@ =~= fold_tbl(t@, r));
    }
    out
}

/// The degree-two extrapolation of a table beyond its two halves:
/// `out[i] = 2 * t[half + i] - t[i]`, the value of the interpolating line at
/// the evaluation point two.
pub open spec fn extrap_tbl(t: Seq<u64>) -> Seq<u64> {
    Seq::new((t.len() / 2) as nat, |i: int| f_sub(f_mul(2, t[t.len() / 2 + i]), t[i]))
}

pub fn fe_extrap(t: &Vec<u64>) -> (out: Vec<u64>)
    requires
        wf_tbl(t@),
    ensures
        out@ == extrap_tbl(t@),
        wf_tbl(out@),
{
    let half = t.len() / 2;
    let mut out: Vec<u64> = Vec::new();
    let mut i: usize = 0;
    while i < half
        invariant
            i <= half,
            half == t@.len() / 2,
            t@.len() <= usize::MAX,
            wf_tbl(t@),
            out@.len() == i,
            forall|j: int| 0 <= j < i ==> out@[j] == extrap_tbl(t@)[j],
            wf_tbl(out@),
        decreases half - i,
    {
        let v = fe_sub(fe_mul(2, t[half + i]), t[i]);
        out.push(v);
        i = i + 1;
    }
    proof {
        assert(out@ =~= extrap_tbl(t@));
    }
    out
}

/// The difference of the upper half of a table against its lower half:
/// `out[i] = t[half + i] - t[i]`, the per-variable quotient used by openings.
pub open spec fn diff_tbl(t: Seq<u64>) -> Seq<u64> {
    Seq::new((t.len() / 2) as nat, |i: int| f_sub(t[t.len() / 2 + i], t[i]))
}

pub fn fe_diff(t: &Vec<u64>) -> (out: Vec<u64>)
    requires
        wf_tbl(t@),
    ensures
        out@ == diff_tbl(t@),
        wf_tbl(out@),
{
    let half = t.len() / 2;
    let mut out: Vec<u64> = Vec::new();
    let mut i: usize = 0;
    while i < half
        invariant
            i <= half,
            half == t@.len() / 2,
            t@.len() <= usize::MAX,
            wf_tbl(t@),
            out@.len() == i,
            forall|j: int| 0 <= j < i ==> out@[j] == diff_tbl(t@)[j],
            wf_tbl(out@),
        decreases half - i,
    {
        let v = fe_sub(t[half + i], t[i]);
        out.push(v);
        i = i + 1;
    }
    proof {
        assert(out@ =~= diff_tbl(t@));
    }
    out
}

/// The sum over the hypercube of the pointwise product of two tables.
pub open spec fn sum_prod(p: Seq<u64>, q: Seq<u64>) -> u64
    decreases p.len(),
{
    if p.len() == 0 {
        0u64
    } else {
        f_add(sum_prod(p.drop_last(), q.drop_last()), f_mul(p.last(), q.last()))
    }
}

pub fn fe_sum_prod(p: &Vec<u64>, q: &Vec<u64>) -> (r: u64)
    requires
        p@.len() == q@.len(),
        wf_tbl(p@),
        wf_tbl(q@),
    ensures
        r == sum_prod(p@, q@),
        fe_ok(r),
{
    let mut acc: u64 = 0;
    let mut i: usize = 0;
    while i < p.len()
        invariant
            i <= p@.len(),
            p@.len() == q@.len(),
            wf_tbl(p@),
            wf_tbl(q@),
            acc == sum_prod(p@.take(i as int), q@.take(i as int)),
            fe_ok(acc),
        decreases p@.len() - i,
    {
        proof {
            assert(p@.take(i + 1).drop_last() =~= p@.take(i as int));
            assert(q@.take(i + 1).drop_last() =~= q@.take(i as int));
        }
        acc = fe_add(acc, fe_mul(p[i], q[i]));
        i = i + 1;
    }
    proof {
        assert(p@.take(p@.len() as int) =~= p@);
        assert(q@.take(q@.len() as int) =~= q@);
    }
    acc
}

/// Full multilinear evaluation: fold each variable of the point in turn and
/// read the remaining single entry.
pub open spec fn eval_tbl(t: Seq<u64>, pt: Seq<u64>) -> u64
    decreases pt.len(),
{
    if pt.len() == 0 {
        if t.len() > 0 {
            t[0]
        } else {
            0u64
        }
    } else {
        eval_tbl(fold_tbl(t, pt[0]), pt.skip(1))
    }
}

pub fn fe_eval(t: &Vec<u64>, pt: &Vec<u64>) -> (r: u64)
    requires
        t@.len() == pow2(pt@.len()),
        wf_tbl(t@),
        wf_tbl(pt@),
    ensures
        r == eval_tbl(t@, pt@),
        fe_ok(r),
{
    let mut cur = slice_tbl(t, 0, t.len());
    proof {
        assert(cur@ =~= t@);
        lemma2_to64();
    }
    let mut j: usize = 0;
    proof {
        assert(pt@.skip(0) =~= pt@);
    }
    while j < pt.len()
        invariant
            j <= pt@.len(),
            cur@.len() == pow2((pt@.len() - j) as nat),
            wf_tbl(cur@),
            wf_tbl(pt@),
            eval_tbl(cur@, pt@.skip(j as int)) == eval_tbl(t@, pt@),
        decreases pt@.len() - j,
    {
        proof {
            lemma_pow2_unfold((pt@.len() - j) as nat);
            assert(pt@.skip(j as int)[0] == pt@[j as int]);
            assert(pt@.skip(j as int).skip(1) =~= pt@.skip(j + 1));
        }
        cur = fe_fold(&cur, pt[j]);
        j = j + 1;
    }
    proof {
        assert(pt@.skip(pt@.len() as int) =~= Seq::<u64>::empty());
        lemma2_to64();
    }
    cur[0]
}

} // verus!
