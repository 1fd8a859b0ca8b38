//! The argument-composition pipeline.  One parameterized run arithmetizes
//! the witness, decomposes the per-point gate relation into its six pairwise-product
//! sum-check instances, builds the blinded rational grand-product identity
//! for the wiring argument, and sequences every commitment and opening.  The
//! two protocol variants differ only in the injected linking step: the
//! baseline adds nothing, the witness-linking variant commits an extra
//! table, runs one extra sum-check against the witness, and opens the
//! witness at two distinct points.
use vstd::prelude::*;
use vstd::arithmetic::power2::{
    lemma2_to64, lemma_pow2_adds, lemma_pow2_strictly_increases, lemma_pow2_unfold, pow2,
};
use crate::accumulator::{acc_1x_tbl, acc_product, acc_x0_tbl, acc_x1_tbl};
use crate::commit::{commit, commit_val, open, open_wits, CommitKey};
use crate::field::{f_add, f_inv, f_invertible, f_mul, fe_add, fe_div, fe_mul, fe_ok, MODULUS};
use crate::sumcheck::{sc_rounds, sumcheck_product};
use crate::table::{
    eval_tbl, exact_pow2, fe_tbl_add, fe_tbl_sub, fix, lemma_log2_pow2, lemma_pow2_at_least,
    log2, pow2_usize, tbl_add, tbl_sub, wf_tbl,
};
use crate::{ProofBundle, ProofError};

verus! {

/// Extracts the value of a result that the caller has shown cannot fail.
fn expect_ok<T>(r: Result<T, ProofError>) -> (out: T)
    requires
        r is Ok,
    ensures
        out == r->Ok_0,
{
    match r {
        Ok(v) => v,
        Err(_) => vstd::pervasive::unreached(),
    }
}

/// The wire table `a`: the witness with its two leading coordinates fixed to
/// zero and zero.
pub open spec fn wire_a(m: Seq<u64>) -> Seq<u64> {
    m.subrange(0, (m.len() / 4) as int)
}

/// The wire table `b`: leading coordinates fixed to zero and one.
pub open spec fn wire_b(m: Seq<u64>) -> Seq<u64> {
    m.subrange((m.len() / 4) as int, (2 * (m.len() / 4)) as int)
}

/// The wire table `c`: leading coordinates fixed to one and zero.
pub open spec fn wire_c(m: Seq<u64>) -> Seq<u64> {
    m.subrange((2 * (m.len() / 4)) as int, (3 * (m.len() / 4)) as int)
}

/// One blinded wiring term: `w + beta * label + gamma`.
pub open spec fn blinded(w: u64, l: u64, beta: u64, gamma: u64) -> u64 {
    f_add(f_add(w, f_mul(beta, l)), gamma)
}

/// The pointwise product of the three blinded wire terms, against the given
/// per-wire label tables.
pub open spec fn blinded_tbl(
    a: Seq<u64>,
    b: Seq<u64>,
    c: Seq<u64>,
    la: Seq<u64>,
    lb: Seq<u64>,
    lc: Seq<u64>,
    beta: u64,
    gamma: u64,
) -> Seq<u64> {
    Seq::new(
        a.len(),
        |i: int|
            f_mul(
                f_mul(blinded(a[i], la[i], beta, gamma), blinded(b[i], lb[i], beta, gamma)),
                blinded(c[i], lc[i], beta, gamma),
            ),
    )
}

/// The pointwise ratio of two tables, through the candidate inverse.
pub open spec fn ratio_tbl(num: Seq<u64>, den: Seq<u64>) -> Seq<u64> {
    Seq::new(num.len(), |i: int| f_mul(num[i], f_inv(den[i])))
}

/// Derives the three wire tables from an `(n+2)`-variable table by fixing
/// its two leading coordinates to the three used boolean patterns; the
/// fourth pattern is a reserved slot and stays unused.  The input length
/// must be a power of two at least four.
pub fn arithmetize(m: &Vec<u64>) -> (r: Result<(Vec<u64>, Vec<u64>, Vec<u64>), ProofError>)
    requires
        wf_tbl(m@),
    ensures
        r is Err ==> r == Err::<(Vec<u64>, Vec<u64>, Vec<u64>), ProofError>(
            ProofError::DimensionMismatch,
        ),
        r is Ok <==> exact_pow2(m@.len()) && m@.len() >= 4,
        r matches Ok(w) ==> {
            &&& w.0@ == wire_a(m@)
            &&& w.1@ == wire_b(m@)
            &&& w.2@ == wire_c(m@)
            &&& wf_tbl(w.0@)
            &&& wf_tbl(w.1@)
            &&& wf_tbl(w.2@)
        },
{
    let pat_a: Vec<bool> = vec![false, false];
    let pat_b: Vec<bool> = vec![false, true];
    let pat_c: Vec<bool> = vec![true, false];
    proof {
        lemma2_to64();
        assert(pat_a@ =~= seq![false, false]);
        assert(pat_b@ =~= seq![false, true]);
        assert(pat_c@ =~= seq![true, false]);
        assert(pat_a@.drop_last() =~= seq![false]);
        assert(pat_b@.drop_last() =~= seq![false]);
        assert(pat_c@.drop_last() =~= seq![true]);
        assert(seq![false].drop_last() =~= Seq::<bool>::empty());
        assert(seq![true].drop_last() =~= Seq::<bool>::empty());
        assert(crate::table::bits_val(Seq::<bool>::empty()) == 0);
        assert(crate::table::bits_val(seq![false]) == 0);
        assert(crate::table::bits_val(seq![true]) == 1);
        assert(crate::table::bits_val(pat_a@) == 2 * crate::table::bits_val(seq![false]));
        assert(crate::table::bits_val(pat_b@) == 2 * crate::table::bits_val(seq![false]) + 1);
        assert(crate::table::bits_val(pat_c@) == 2 * crate::table::bits_val(seq![true]));
    }
    let a = match fix(m, &pat_a) {
        Ok(v) => v,
        Err(_) => {
            return Err(ProofError::DimensionMismatch);
        },
    };
    let b = match fix(m, &pat_b) {
        Ok(v) => v,
        Err(_) => {
            return Err(ProofError::DimensionMismatch);
        },
    };
    let c = match fix(m, &pat_c) {
        Ok(v) => v,
        Err(_) => {
            return Err(ProofError::DimensionMismatch);
        },
    };
    proof {
        assert(a@ =~= wire_a(m@));
        assert(b@ =~= wire_b(m@));
        assert(c@ =~= wire_c(m@));
    }
    Ok((a, b, c))
}

/// Builds the pointwise product of blinded wire terms against the given
/// label tables: with the permutation labels it is the wiring numerator,
/// with the identity labels (the same table for all three wires) the
/// denominator.
pub fn build_blinded(
    a: &Vec<u64>,
    b: &Vec<u64>,
    c: &Vec<u64>,
    la: &Vec<u64>,
    lb: &Vec<u64>,
    lc: &Vec<u64>,
    beta: u64,
    gamma: u64,
) -> (r: Vec<u64>)
    requires
        a@.len() == b@.len(),
        a@.len() == c@.len(),
        a@.len() == la@.len(),
        a@.len() == lb@.len(),
        a@.len() == lc@.len(),
        wf_tbl(a@),
        wf_tbl(b@),
        wf_tbl(c@),
        wf_tbl(la@),
        wf_tbl(lb@),
        wf_tbl(lc@),
        fe_ok(beta),
        fe_ok(gamma),
    ensures
        r@ == blinded_tbl(a@, b@, c@, la@, lb@, lc@, beta, gamma),
        wf_tbl(r@),
{
    let mut out: Vec<u64> = Vec::new();
    let mut i: usize = 0;
    while i < a.len()
        invariant
            i <= a@.len(),
            a@.len() == b@.len(),
            a@.len() == c@.len(),
            a@.len() == la@.len(),
            a@.len() == lb@.len(),
            a@.len() == lc@.len(),
            wf_tbl(a@),
            wf_tbl(b@),
            wf_tbl(c@),
            wf_tbl(la@),
            wf_tbl(lb@),
            wf_tbl(lc@),
            fe_ok(beta),
            fe_ok(gamma),
            out@.len() == i,
            forall|j: int|
                0 <= j < i ==> out@[j] == blinded_tbl(a@, b@, c@, la@, lb@, lc@, beta, gamma)[j],
            wf_tbl(out@),
        decreases a@.len() - i,
    {
        let ta = fe_add(fe_add(a[i], fe_mul(beta, la[i])), gamma);
        let tb = fe_add(fe_add(b[i], fe_mul(beta, lb[i])), gamma);
        let tc = fe_add(fe_add(c[i], fe_mul(beta, lc[i])), gamma);
        let v = fe_mul(fe_mul(ta, tb), tc);
        out.push(v);
        i = i + 1;
    }
    proof {
        assert(out@ =~= blinded_tbl(a@, b@, c@, la@, lb@, lc@, beta, gamma));
    }
    out
}

/// Divides the numerator table by the denominator table pointwise, failing
/// exactly when some denominator entry has no inverse.
pub fn build_ratio(num: &Vec<u64>, den: &Vec<u64>) -> (r: Result<Vec<u64>, ProofError>)
    requires
        num@.len() == den@.len(),
        wf_tbl(num@),
        wf_tbl(den@),
    ensures
        r is Err ==> r == Err::<Vec<u64>, ProofError>(ProofError::DivisionByZero),
        r is Ok <==> (forall|i: int| 0 <= i < den@.len() ==> f_invertible(#[trigger] den@[i])),
        r matches Ok(h) ==> h@ == ratio_tbl(num@, den@) && wf_tbl(h@),
{
    let mut out: Vec<u64> = Vec::new();
    let mut i: usize = 0;
    while i < num.len()
        invariant
            i <= num@.len(),
            num@.len() == den@.len(),
            wf_tbl(num@),
            wf_tbl(den@),
            out@.len() == i,
            forall|j: int| 0 <= j < i ==> f_invertible(#[trigger] den@[j]),
            forall|j: int| 0 <= j < i ==> out@[j] == ratio_tbl(num@, den@)[j],
            wf_tbl(out@),
        decreases num@.len() - i,
    {
        let v = match fe_div(num[i], den[i]) {
            Ok(v) => v,
            Err(_) => {
                return Err(ProofError::DivisionByZero);
            },
        };
        out.push(v);
        i = i + 1;
    }
    proof {
        assert(out@ =~= ratio_tbl(num@, den@));
    }
    Ok(out)
}

/// Runs a gate-identity argument: the constraint
/// `eq(x) * [q1(x) * (a(x) + b(x)) + q2(x) * a(x) * b(x) - c(x) + I(x)] = 0`
/// is decomposed into six pairwise-product sum-check instances, emitted in
/// this fixed order: `(eq, q1)`, `(q1, a + b)`, `(eq, q2)`, `(a, b)`,
/// `(q2, a)`, `(eq, I - c)`.  The order is part of the contract consumers
/// rely on.
pub fn gate_argument(
    eq: &Vec<u64>,
    q1: &Vec<u64>,
    q2: &Vec<u64>,
    a: &Vec<u64>,
    b: &Vec<u64>,
    c: &Vec<u64>,
    input: &Vec<u64>,
    challenge: &Vec<u64>,
) -> (r: Vec<Vec<(u64, u64, u64)>>)
    requires
        eq@.len() == pow2(challenge@.len()),
        q1@.len() == eq@.len(),
        q2@.len() == eq@.len(),
        a@.len() == eq@.len(),
        b@.len() == eq@.len(),
        c@.len() == eq@.len(),
        input@.len() == eq@.len(),
        wf_tbl(eq@),
        wf_tbl(q1@),
        wf_tbl(q2@),
        wf_tbl(a@),
        wf_tbl(b@),
        wf_tbl(c@),
        wf_tbl(input@),
        wf_tbl(challenge@),
    ensures
        r@.len() == 6,
        r@[0]@ == sc_rounds(eq@, q1@, challenge@),
        r@[1]@ == sc_rounds(q1@, tbl_add(a@, b@), challenge@),
        r@[2]@ == sc_rounds(eq@, q2@, challenge@),
        r@[3]@ == sc_rounds(a@, b@, challenge@),
        r@[4]@ == sc_rounds(q2@, a@, challenge@),
        r@[5]@ == sc_rounds(eq@, tbl_sub(input@, c@), challenge@),
{
    let sum_ab = fe_tbl_add(a, b);
    let diff_ic = fe_tbl_sub(input, c);
    let mut out: Vec<Vec<(u64, u64, u64)>> = Vec::new();
    out.push(expect_ok(sumcheck_product(eq, q1, challenge)));
    out.push(expect_ok(sumcheck_product(q1, &sum_ab, challenge)));
    out.push(expect_ok(sumcheck_product(eq, q2, challenge)));
    out.push(expect_ok(sumcheck_product(a, b, challenge)));
    out.push(expect_ok(sumcheck_product(q2, a, challenge)));
    out.push(expect_ok(sumcheck_product(eq, &diff_ic, challenge)));
    out
}

/// What the wiring argument's output promises: six sum-check transcripts,
/// six commitments and six openings, all over the rational grand-product
/// identity of the blinded wire and label tables, in the fixed protocol
/// order `h, num, den, vx0, vx1, v1x`.
pub open spec fn wiring_post(
    pf: Seq<Vec<(u64, u64, u64)>>,
    cm: Seq<u64>,
    op: Seq<(u64, Vec<u64>)>,
    eq: Seq<u64>,
    a: Seq<u64>,
    b: Seq<u64>,
    c: Seq<u64>,
    sa: Seq<u64>,
    sb: Seq<u64>,
    sc: Seq<u64>,
    sid: Seq<u64>,
    beta: u64,
    gamma: u64,
    ch: Seq<u64>,
    srs: Seq<u64>,
) -> bool {
    let ns = blinded_tbl(a, b, c, sa, sb, sc, beta, gamma);
    let ds = blinded_tbl(a, b, c, sid, sid, sid, beta, gamma);
    let hs = ratio_tbl(ns, ds);
    &&& pf.len() == 6
    &&& pf[0]@ == sc_rounds(eq, acc_1x_tbl(hs), ch)
    &&& pf[1]@ == sc_rounds(eq, acc_x0_tbl(hs), ch)
    &&& pf[2]@ == sc_rounds(acc_x0_tbl(hs), acc_x1_tbl(hs), ch)
    &&& pf[3]@ == sc_rounds(eq, ds, ch)
    &&& pf[4]@ == sc_rounds(eq, ns, ch)
    &&& pf[5]@ == sc_rounds(hs, ns, ch)
    &&& cm == seq![
        commit_val(hs, srs),
        commit_val(ns, srs),
        commit_val(ds, srs),
        commit_val(acc_x0_tbl(hs), srs),
        commit_val(acc_x1_tbl(hs), srs),
        commit_val(acc_1x_tbl(hs), srs),
    ]
    &&& op.len() == 6
    &&& op[0].0 == eval_tbl(hs, ch) && op[0].1@ == open_wits(hs, ch, srs)
    &&& op[1].0 == eval_tbl(ns, ch) && op[1].1@ == open_wits(ns, ch, srs)
    &&& op[2].0 == eval_tbl(ds, ch) && op[2].1@ == open_wits(ds, ch, srs)
    &&& op[3].0 == eval_tbl(acc_x0_tbl(hs), ch) && op[3].1@ == open_wits(acc_x0_tbl(hs), ch, srs)
    &&& op[4].0 == eval_tbl(acc_x1_tbl(hs), ch) && op[4].1@ == open_wits(acc_x1_tbl(hs), ch, srs)
    &&& op[5].0 == eval_tbl(acc_1x_tbl(hs), ch) && op[5].1@ == open_wits(acc_1x_tbl(hs), ch, srs)
}

/// Runs the wiring (permutation) argument: builds the blinded numerator and
/// denominator, divides pointwise, accumulates the grand product, commits
/// and opens `h, num, den, vx0, vx1, v1x` in that order at the shared
/// challenge, and emits the six sum-check instances `(eq, v1x)`, `(eq,
/// vx0)`, `(vx0, vx1)`, `(eq, den)`, `(eq, num)`, `(h, num)`.  Fails exactly
/// when a denominator entry has no inverse.
#[verifier::rlimit(100)]
pub fn wiring_argument(
    key: &CommitKey,
    eq: &Vec<u64>,
    a: &Vec<u64>,
    b: &Vec<u64>,
    c: &Vec<u64>,
    sa: &Vec<u64>,
    sb: &Vec<u64>,
    sc: &Vec<u64>,
    sid: &Vec<u64>,
    beta: u64,
    gamma: u64,
    challenge: &Vec<u64>,
) -> (r: Result<(Vec<Vec<(u64, u64, u64)>>, Vec<u64>, Vec<(u64, Vec<u64>)>), ProofError>)
    requires
        eq@.len() == pow2(challenge@.len()),
        a@.len() == eq@.len(),
        b@.len() == eq@.len(),
        c@.len() == eq@.len(),
        sa@.len() == eq@.len(),
        sb@.len() == eq@.len(),
        sc@.len() == eq@.len(),
        sid@.len() == eq@.len(),
        wf_tbl(eq@),
        wf_tbl(a@),
        wf_tbl(b@),
        wf_tbl(c@),
        wf_tbl(sa@),
        wf_tbl(sb@),
        wf_tbl(sc@),
        wf_tbl(sid@),
        wf_tbl(challenge@),
        wf_tbl(key.srs@),
        fe_ok(beta),
        fe_ok(gamma),
        1 <= challenge@.len(),
        challenge@.len() <= key.srs@.len(),
        2 * pow2(challenge@.len()) <= usize::MAX,
    ensures
        r is Err ==> r == Err::<(Vec<Vec<(u64, u64, u64)>>, Vec<u64>, Vec<(u64, Vec<u64>)>),
            ProofError,
        >(ProofError::DivisionByZero),
        r is Ok <==> (forall|i: int|
            0 <= i < eq@.len() ==> f_invertible(
                #[trigger] blinded_tbl(a@, b@, c@, sid@, sid@, sid@, beta, gamma)[i],
            )),
        r matches Ok(t) ==> wiring_post(
            t.0@,
            t.1@,
            t.2@,
            eq@,
            a@,
            b@,
            c@,
            sa@,
            sb@,
            sc@,
            sid@,
            beta,
            gamma,
            challenge@,
            key.srs@,
        ),
{
    let num = build_blinded(a, b, c, sa, sb, sc, beta, gamma);
    let den = build_blinded(a, b, c, sid, sid, sid, beta, gamma);
    let h = match build_ratio(&num, &den) {
        Ok(v) => v,
        Err(_) => {
            return Err(ProofError::DivisionByZero);
        },
    };
    proof {
        lemma_log2_pow2(challenge@.len());
        lemma2_to64();
        if challenge@.len() > 1 {
            lemma_pow2_strictly_increases(1, challenge@.len());
        }
    }
    let (vx0, vx1, v1x) = expect_ok(acc_product(&h));
    let (cm, op) = wiring_openings(key, &h, &num, &den, &vx0, &vx1, &v1x, challenge);
    let mut pf: Vec<Vec<(u64, u64, u64)>> = Vec::new();
    pf.push(expect_ok(sumcheck_product(eq, &v1x, challenge)));
    pf.push(expect_ok(sumcheck_product(eq, &vx0, challenge)));
    pf.push(expect_ok(sumcheck_product(&vx0, &vx1, challenge)));
    pf.push(expect_ok(sumcheck_product(eq, &den, challenge)));
    pf.push(expect_ok(sumcheck_product(eq, &num, challenge)));
    pf.push(expect_ok(sumcheck_product(&h, &num, challenge)));
    Ok((pf, cm, op))
}

/// Commits and opens the six wiring-scope tables at the shared challenge,
/// in the fixed order `h, num, den, vx0, vx1, v1x`.
#[verifier::rlimit(100)]
fn wiring_openings(
    key: &CommitKey,
    h: &Vec<u64>,
    num: &Vec<u64>,
    den: &Vec<u64>,
    vx0: &Vec<u64>,
    vx1: &Vec<u64>,
    v1x: &Vec<u64>,
    challenge: &Vec<u64>,
) -> (r: (Vec<u64>, Vec<(u64, Vec<u64>)>))
    requires
        h@.len() == pow2(challenge@.len()),
        num@.len() == h@.len(),
        den@.len() == h@.len(),
        vx0@.len() == h@.len(),
        vx1@.len() == h@.len(),
        v1x@.len() == h@.len(),
        wf_tbl(h@),
        wf_tbl(num@),
        wf_tbl(den@),
        wf_tbl(vx0@),
        wf_tbl(vx1@),
        wf_tbl(v1x@),
        wf_tbl(challenge@),
        wf_tbl(key.srs@),
        challenge@.len() <= key.srs@.len(),
    ensures
        r.0@ == seq![
            commit_val(h@, key.srs@),
            commit_val(num@, key.srs@),
            commit_val(den@, key.srs@),
            commit_val(vx0@, key.srs@),
            commit_val(vx1@, key.srs@),
            commit_val(v1x@, key.srs@),
        ],
        r.1@.len() == 6,
        r.1@[0].0 == eval_tbl(h@, challenge@) && r.1@[0].1@ == open_wits(h@, challenge@, key.srs@),
        r.1@[1].0 == eval_tbl(num@, challenge@) && r.1@[1].1@ == open_wits(
            num@,
            challenge@,
            key.srs@,
        ),
        r.1@[2].0 == eval_tbl(den@, challenge@) && r.1@[2].1@ == open_wits(
            den@,
            challenge@,
            key.srs@,
        ),
        r.1@[3].0 == eval_tbl(vx0@, challenge@) && r.1@[3].1@ == open_wits(
            vx0@,
            challenge@,
            key.srs@,
        ),
        r.1@[4].0 == eval_tbl(vx1@, challenge@) && r.1@[4].1@ == open_wits(
            vx1@,
            challenge@,
            key.srs@,
        ),
        r.1@[5].0 == eval_tbl(v1x@, challenge@) && r.1@[5].1@ == open_wits(
            v1x@,
            challenge@,
            key.srs@,
        ),
{
    proof {
        lemma_log2_pow2(challenge@.len());
    }
    let mut cm: Vec<u64> = Vec::new();
    let mut op: Vec<(u64, Vec<u64>)> = Vec::new();
    cm.push(expect_ok(commit(key, h)));
    op.push(expect_ok(open(key, h, challenge)));
    cm.push(expect_ok(commit(key, num)));
    op.push(expect_ok(open(key, num, challenge)));
    cm.push(expect_ok(commit(key, den)));
    op.push(expect_ok(open(key, den, challenge)));
    cm.push(expect_ok(commit(key, vx0)));
    op.push(expect_ok(open(key, vx0, challenge)));
    cm.push(expect_ok(commit(key, vx1)));
    op.push(expect_ok(open(key, vx1, challenge)));
    cm.push(expect_ok(commit(key, v1x)));
    op.push(expect_ok(open(key, v1x, challenge)));
    proof {
        assert(cm@ =~= seq![
            commit_val(h@, key.srs@),
            commit_val(num@, key.srs@),
            commit_val(den@, key.srs@),
            commit_val(vx0@, key.srs@),
            commit_val(vx1@, key.srs@),
            commit_val(v1x@, key.srs@),
        ]);
    }
    (cm, op)
}


/// What a gate-identity commit/open group promises: one commitment and
/// one opening at the shared challenge for each of the nine gate-scope
/// polynomials, in the fixed order `a, b, c, I, q1, q2, ssigma_a, ssigma_b,
/// ssigma_c`.
pub open spec fn gate_open_post(
    go: Seq<(u64, (u64, Vec<u64>))>,
    wa: Seq<u64>,
    wb: Seq<u64>,
    wc: Seq<u64>,
    input: Seq<u64>,
    q1: Seq<u64>,
    q2: Seq<u64>,
    sa: Seq<u64>,
    sb: Seq<u64>,
    sc: Seq<u64>,
    ch: Seq<u64>,
    srs: Seq<u64>,
) -> bool {
    &&& go.len() == 9
    &&& go[0].0 == commit_val(wa, srs) && go[0].1.0 == eval_tbl(wa, ch) && go[0].1.1@
        == open_wits(wa, ch, srs)
    &&& go[1].0 == commit_val(wb, srs) && go[1].1.0 == eval_tbl(wb, ch) && go[1].1.1@
        == open_wits(wb, ch, srs)
    &&& go[2].0 == commit_val(wc, srs) && go[2].1.0 == eval_tbl(wc, ch) && go[2].1.1@
        == open_wits(wc, ch, srs)
    &&& go[3].0 == commit_val(input, srs) && go[3].1.0 == eval_tbl(input, ch) && go[3].1.1@
        == open_wits(input, ch, srs)
    &&& go[4].0 == commit_val(q1, srs) && go[4].1.0 == eval_tbl(q1, ch) && go[4].1.1@
        == open_wits(q1, ch, srs)
    &&& go[5].0 == commit_val(q2, srs) && go[5].1.0 == eval_tbl(q2, ch) && go[5].1.1@
        == open_wits(q2, ch, srs)
    &&& go[6].0 == commit_val(sa, srs) && go[6].1.0 == eval_tbl(sa, ch) && go[6].1.1@
        == open_wits(sa, ch, srs)
    &&& go[7].0 == commit_val(sb, srs) && go[7].1.0 == eval_tbl(sb, ch) && go[7].1.1@
        == open_wits(sb, ch, srs)
    &&& go[8].0 == commit_val(sc, srs) && go[8].1.0 == eval_tbl(sc, ch) && go[8].1.1@
        == open_wits(sc, ch, srs)
}

/// Commits the nine gate-scope polynomials and opens each at the shared
/// challenge, pairing every commitment with its opening.  No polynomial is
/// committed twice, however many sum-check instances reference it.
#[verifier::rlimit(100)]
pub fn gate_openings(
    key: &CommitKey,
    wa: &Vec<u64>,
    wb: &Vec<u64>,
    wc: &Vec<u64>,
    input: &Vec<u64>,
    q1: &Vec<u64>,
    q2: &Vec<u64>,
    sa: &Vec<u64>,
    sb: &Vec<u64>,
    sc: &Vec<u64>,
    challenge: &Vec<u64>,
) -> (r: Vec<(u64, (u64, Vec<u64>))>)
    requires
        wa@.len() == pow2(challenge@.len()),
        wb@.len() == wa@.len(),
        wc@.len() == wa@.len(),
        input@.len() == wa@.len(),
        q1@.len() == wa@.len(),
        q2@.len() == wa@.len(),
        sa@.len() == wa@.len(),
        sb@.len() == wa@.len(),
        sc@.len() == wa@.len(),
        wf_tbl(wa@),
        wf_tbl(wb@),
        wf_tbl(wc@),
        wf_tbl(input@),
        wf_tbl(q1@),
        wf_tbl(q2@),
        wf_tbl(sa@),
        wf_tbl(sb@),
        wf_tbl(sc@),
        wf_tbl(challenge@),
        wf_tbl(key.srs@),
        challenge@.len() <= key.srs@.len(),
    ensures
        gate_open_post(
            r@,
            wa@,
            wb@,
            wc@,
            input@,
            q1@,
            q2@,
            sa@,
            sb@,
            sc@,
            challenge@,
            key.srs@,
        ),
{
    proof {
        lemma_log2_pow2(challenge@.len());
    }
    let mut go: Vec<(u64, (u64, Vec<u64>))> = Vec::new();
    let c0 = expect_ok(commit(key, wa));
    go.push((c0, expect_ok(open(key, wa, challenge))));
    let c1 = expect_ok(commit(key, wb));
    go.push((c1, expect_ok(open(key, wb, challenge))));
    let c2 = expect_ok(commit(key, wc));
    go.push((c2, expect_ok(open(key, wc, challenge))));
    let c3 = expect_ok(commit(key, input));
    go.push((c3, expect_ok(open(key, input, challenge))));
    let c4 = expect_ok(commit(key, q1));
    go.push((c4, expect_ok(open(key, q1, challenge))));
    let c5 = expect_ok(commit(key, q2));
    go.push((c5, expect_ok(open(key, q2, challenge))));
    let c6 = expect_ok(commit(key, sa));
    go.push((c6, expect_ok(open(key, sa, challenge))));
    let c7 = expect_ok(commit(key, sb));
    go.push((c7, expect_ok(open(key, sb, challenge))));
    let c8 = expect_ok(commit(key, sc));
    go.push((c8, expect_ok(open(key, sc, challenge))));
    go
}

/// Moves every element of `src` onto the end of `dst`, keeping the order.
fn append_all<T>(dst: &mut Vec<T>, src: Vec<T>)
    ensures
        final(dst)@ == old(dst)@ + src@,
{
    let mut rest = src;
    let ghost orig_dst = dst@;
    let ghost orig_rest = rest@;
    while rest.len() > 0
        invariant
            dst@ + rest@ == orig_dst + orig_rest,
        decreases rest@.len(),
    {
        let ghost d0 = dst@;
        let ghost s0 = rest@;
        let x = rest.remove(0);
        dst.push(x);
        proof {
            assert(rest@ =~= s0.skip(1));
            assert(dst@ + rest@ =~= d0 + s0);
        }
    }
    proof {
        assert(dst@ + rest@ =~= dst@);
    }
}

/// Everything one proof invocation consumes besides the commitment key: the
/// log gate count, the witness and permutation tables, the independently
/// sampled circuit tables, the blending scalars, and the shared challenge.
pub struct ProverInput {
    /// The log2 of the circuit's gate count.
    pub n: usize,
    /// The `(n+2)`-variable witness table.
    pub m: Vec<u64>,
    /// The input table `I`.
    pub input: Vec<u64>,
    /// The first selector table.
    pub q1: Vec<u64>,
    /// The second selector table.
    pub q2: Vec<u64>,
    /// The `(n+2)`-variable permutation-label table.
    pub ssigma: Vec<u64>,
    /// The identity-label table.
    pub sid: Vec<u64>,
    /// The auxiliary equality-indicator table, supplied by the caller.
    pub eq: Vec<u64>,
    /// The first blending scalar.
    pub beta: u64,
    /// The second blending scalar.
    pub gamma: u64,
    /// The shared `n`-length challenge point.
    pub challenge: Vec<u64>,
}

/// The variant-specific linking step injected into the shared pipeline: the
/// baseline adds nothing; the witness-linking variant carries the extra
/// `(n+2)`-variable table and the two `(n+2)`-length challenge points.
pub enum LinkInput {
    NoLink,
    WitnessLink { s: Vec<u64>, point_a: Vec<u64>, point_b: Vec<u64> },
}

/// Dimension discipline of a proof invocation's inputs.
pub open spec fn wf_input(inp: ProverInput) -> bool {
    &&& 1 <= inp.n
    &&& inp.m@.len() == pow2((inp.n + 2) as nat)
    &&& inp.ssigma@.len() == pow2((inp.n + 2) as nat)
    &&& inp.input@.len() == pow2(inp.n as nat)
    &&& inp.q1@.len() == pow2(inp.n as nat)
    &&& inp.q2@.len() == pow2(inp.n as nat)
    &&& inp.sid@.len() == pow2(inp.n as nat)
    &&& inp.eq@.len() == pow2(inp.n as nat)
    &&& inp.challenge@.len() == inp.n
    &&& wf_tbl(inp.m@)
    &&& wf_tbl(inp.ssigma@)
    &&& wf_tbl(inp.input@)
    &&& wf_tbl(inp.q1@)
    &&& wf_tbl(inp.q2@)
    &&& wf_tbl(inp.sid@)
    &&& wf_tbl(inp.eq@)
    &&& wf_tbl(inp.challenge@)
    &&& fe_ok(inp.beta)
    &&& fe_ok(inp.gamma)
}

/// Dimension discipline of the linking step.
pub open spec fn wf_link(link: LinkInput, n: usize) -> bool {
    match link {
        LinkInput::NoLink => true,
        LinkInput::WitnessLink { s, point_a, point_b } => {
            &&& s@.len() == pow2((n + 2) as nat)
            &&& point_a@.len() == n + 2
            &&& point_b@.len() == n + 2
            &&& wf_tbl(s@)
            &&& wf_tbl(point_a@)
            &&& wf_tbl(point_b@)
        },
    }
}

/// The largest variable count the commitment key must serve for a variant.
pub open spec fn arity_needed(link: LinkInput, n: usize) -> int {
    match link {
        LinkInput::NoLink => n as int,
        LinkInput::WitnessLink { .. } => n + 2,
    }
}

/// The wiring denominator of an invocation: the identity-blinded wire
/// products whose invertibility the whole run hinges on.
pub open spec fn pipeline_den(inp: ProverInput) -> Seq<u64> {
    blinded_tbl(
        wire_a(inp.m@),
        wire_b(inp.m@),
        wire_c(inp.m@),
        inp.sid@,
        inp.sid@,
        inp.sid@,
        inp.beta,
        inp.gamma,
    )
}

/// Whether every wiring denominator entry of an invocation has an inverse.
pub open spec fn dens_invertible(inp: ProverInput) -> bool {
    forall|i: int|
        0 <= i < pipeline_den(inp).len() ==> f_invertible(#[trigger] pipeline_den(inp)[i])
}

/// Checks that every entry of a table is a reduced field element.
pub fn check_tbl(t: &Vec<u64>) -> (r: bool)
    ensures
        r == wf_tbl(t@),
{
    let mut i: usize = 0;
    while i < t.len()
        invariant
            i <= t@.len(),
            forall|j: int| 0 <= j < i ==> fe_ok(#[trigger] t@[j]),
        decreases t@.len() - i,
    {
        if t[i] >= MODULUS {
            return false;
        }
        i = i + 1;
    }
    true
}

/// Checks the dimension discipline of the inputs.
pub fn check_input(inp: &ProverInput) -> (r: bool)
    ensures
        r == wf_input(*inp),
{
    if inp.n < 1 {
        return false;
    }
    let ml = inp.m.len();
    if inp.n > usize::MAX - 2 {
        proof {
            lemma_pow2_at_least((inp.n + 2) as nat);
        }
        return false;
    }
    let p4 = match pow2_usize(inp.n + 2) {
        Some(v) => v,
        None => {
            return false;
        },
    };
    let pn = match pow2_usize(inp.n) {
        Some(v) => v,
        None => {
            proof {
                lemma_pow2_strictly_increases(inp.n as nat, (inp.n + 2) as nat);
            }
            return vstd::pervasive::unreached();
        },
    };
    if ml != p4 || inp.ssigma.len() != p4 {
        return false;
    }
    if inp.input.len() != pn || inp.q1.len() != pn || inp.q2.len() != pn || inp.sid.len() != pn
        || inp.eq.len() != pn {
        return false;
    }
    if inp.challenge.len() != inp.n {
        return false;
    }
    if inp.beta >= MODULUS || inp.gamma >= MODULUS {
        return false;
    }
    check_tbl(&inp.m) && check_tbl(&inp.ssigma) && check_tbl(&inp.input) && check_tbl(&inp.q1)
        && check_tbl(&inp.q2) && check_tbl(&inp.sid) && check_tbl(&inp.eq) && check_tbl(
        &inp.challenge,
    )
}

/// Checks the dimension discipline of the linking step.
pub fn check_link(link: &LinkInput, n: usize) -> (r: bool)
    ensures
        r == wf_link(*link, n),
{
    match link {
        LinkInput::NoLink => true,
        LinkInput::WitnessLink { s, point_a, point_b } => {
            let sl = s.len();
            if n > usize::MAX - 2 {
                proof {
                    lemma_pow2_at_least((n + 2) as nat);
                }
                return false;
            }
            let p4 = match pow2_usize(n + 2) {
                Some(v) => v,
                None => {
                    return false;
                },
            };
            sl == p4 && point_a.len() == n + 2 && point_b.len() == n + 2 && check_tbl(s)
                && check_tbl(point_a) && check_tbl(point_b)
        },
    }
}



/// Finishes a baseline invocation: runs the wiring argument over the given
/// wire and label tables and assembles the bundle.
#[verifier::rlimit(100)]
fn finish_no_link(
    key: &CommitKey,
    inp: &ProverInput,
    wa: &Vec<u64>,
    wb: &Vec<u64>,
    wc: &Vec<u64>,
    sa: &Vec<u64>,
    sb: &Vec<u64>,
    sc: &Vec<u64>,
    gate_proofs: Vec<Vec<(u64, u64, u64)>>,
    gate_open_list: Vec<(u64, (u64, Vec<u64>))>,
) -> (r: Result<ProofBundle, ProofError>)
    requires
        wf_tbl(key.srs@),
        wf_input(*inp),
        inp.challenge@.len() <= key.srs@.len(),
        2 * pow2(inp.challenge@.len()) <= usize::MAX,
        wa@ == wire_a(inp.m@),
        wb@ == wire_b(inp.m@),
        wc@ == wire_c(inp.m@),
        sa@ == wire_a(inp.ssigma@),
        sb@ == wire_b(inp.ssigma@),
        sc@ == wire_c(inp.ssigma@),
        wa@.len() == pow2(inp.n as nat),
        sa@.len() == pow2(inp.n as nat),
        wf_tbl(wa@),
        wf_tbl(wb@),
        wf_tbl(wc@),
        wf_tbl(sa@),
        wf_tbl(sb@),
        wf_tbl(sc@),
        gate_proofs@.len() == 6,
        gate_proofs@[0]@ == sc_rounds(inp.eq@, inp.q1@, inp.challenge@),
        gate_proofs@[1]@ == sc_rounds(inp.q1@, tbl_add(wa@, wb@), inp.challenge@),
        gate_proofs@[2]@ == sc_rounds(inp.eq@, inp.q2@, inp.challenge@),
        gate_proofs@[3]@ == sc_rounds(wa@, wb@, inp.challenge@),
        gate_proofs@[4]@ == sc_rounds(inp.q2@, wa@, inp.challenge@),
        gate_proofs@[5]@ == sc_rounds(inp.eq@, tbl_sub(inp.input@, wc@), inp.challenge@),
        gate_open_post(
            gate_open_list@,
            wa@,
            wb@,
            wc@,
            inp.input@,
            inp.q1@,
            inp.q2@,
            sa@,
            sb@,
            sc@,
            inp.challenge@,
            key.srs@,
        ),
    ensures
        r is Ok <==> dens_invertible(*inp),
        r is Err ==> r == Err::<ProofBundle, ProofError>(ProofError::DivisionByZero),
        r matches Ok(b) ==> bundle_post(b, *inp, LinkInput::NoLink, key.srs@),
        r matches Ok(b) ==> b.gate_proofs@.len() == 6 && b.gate_openings@.len() == 9
            && b.wiring_proofs@.len() == 6 && b.wiring_commitments@.len() == 6
            && b.wiring_openings@.len() == 6,
{
    proof {
        assert(blinded_tbl(wa@, wb@, wc@, inp.sid@, inp.sid@, inp.sid@, inp.beta, inp.gamma)
            == pipeline_den(*inp));
    }
    let w = match wiring_argument(
        key,
        &inp.eq,
        wa,
        wb,
        wc,
        sa,
        sb,
        sc,
        &inp.sid,
        inp.beta,
        inp.gamma,
        &inp.challenge,
    ) {
        Ok(v) => v,
        Err(_) => {
            return Err(ProofError::DivisionByZero);
        },
    };
    let (wpf, wcm, wop) = w;
    Ok(
        ProofBundle {
            gate_proofs,
            gate_openings: gate_open_list,
            wiring_proofs: wpf,
            wiring_commitments: wcm,
            wiring_openings: wop,
        },
    )
}


/// The witness-link extras: commits the linking table, proves the linking
/// sum-check against the witness, and opens the linking table at the first
/// point and the witness at both points.
#[verifier::rlimit(100)]
fn link_extras(
    key: &CommitKey,
    m: &Vec<u64>,
    s: &Vec<u64>,
    point_a: &Vec<u64>,
    point_b: &Vec<u64>,
) -> (r: (u64, Vec<(u64, u64, u64)>, (u64, Vec<u64>), (u64, Vec<u64>), (u64, Vec<u64>)))
    requires
        wf_tbl(key.srs@),
        wf_tbl(m@),
        wf_tbl(s@),
        wf_tbl(point_a@),
        wf_tbl(point_b@),
        m@.len() == pow2(point_a@.len()),
        s@.len() == m@.len(),
        point_b@.len() == point_a@.len(),
        point_a@.len() <= key.srs@.len(),
    ensures
        r.0 == commit_val(s@, key.srs@),
        r.1@ == sc_rounds(m@, s@, point_a@),
        r.2.0 == eval_tbl(s@, point_a@) && r.2.1@ == open_wits(s@, point_a@, key.srs@),
        r.3.0 == eval_tbl(m@, point_a@) && r.3.1@ == open_wits(m@, point_a@, key.srs@),
        r.4.0 == eval_tbl(m@, point_b@) && r.4.1@ == open_wits(m@, point_b@, key.srs@),
{
    proof {
        lemma_log2_pow2(point_a@.len());
    }
    let s_cm = expect_ok(commit(key, s));
    let link_pf = expect_ok(sumcheck_product(m, s, point_a));
    let op_s = expect_ok(open(key, s, point_a));
    let op_m1 = expect_ok(open(key, m, point_a));
    let op_m2 = expect_ok(open(key, m, point_b));
    (s_cm, link_pf, op_s, op_m1, op_m2)
}

/// Finishes a witness-link invocation: commits the linking table, runs the
/// extra sum-check against the witness, opens the linking table once and the
/// witness at the two distinct points, then runs the wiring argument and
/// assembles the bundle with the linking entries prepended.
#[verifier::rlimit(100)]
fn finish_link(
    key: &CommitKey,
    inp: &ProverInput,
    s: &Vec<u64>,
    point_a: &Vec<u64>,
    point_b: &Vec<u64>,
    wa: &Vec<u64>,
    wb: &Vec<u64>,
    wc: &Vec<u64>,
    sa: &Vec<u64>,
    sb: &Vec<u64>,
    sc: &Vec<u64>,
    gate_proofs: Vec<Vec<(u64, u64, u64)>>,
    gate_open_list: Vec<(u64, (u64, Vec<u64>))>,
) -> (r: Result<ProofBundle, ProofError>)
    requires
        wf_tbl(key.srs@),
        wf_input(*inp),
        inp.n + 2 <= key.srs@.len(),
        2 * pow2(inp.challenge@.len()) <= usize::MAX,
        s@.len() == pow2((inp.n + 2) as nat),
        point_a@.len() == inp.n + 2,
        point_b@.len() == inp.n + 2,
        wf_tbl(s@),
        wf_tbl(point_a@),
        wf_tbl(point_b@),
        wa@ == wire_a(inp.m@),
        wb@ == wire_b(inp.m@),
        wc@ == wire_c(inp.m@),
        sa@ == wire_a(inp.ssigma@),
        sb@ == wire_b(inp.ssigma@),
        sc@ == wire_c(inp.ssigma@),
        wa@.len() == pow2(inp.n as nat),
        sa@.len() == pow2(inp.n as nat),
        wf_tbl(wa@),
        wf_tbl(wb@),
        wf_tbl(wc@),
        wf_tbl(sa@),
        wf_tbl(sb@),
        wf_tbl(sc@),
        gate_proofs@.len() == 6,
        gate_proofs@[0]@ == sc_rounds(inp.eq@, inp.q1@, inp.challenge@),
        gate_proofs@[1]@ == sc_rounds(inp.q1@, tbl_add(wa@, wb@), inp.challenge@),
        gate_proofs@[2]@ == sc_rounds(inp.eq@, inp.q2@, inp.challenge@),
        gate_proofs@[3]@ == sc_rounds(wa@, wb@, inp.challenge@),
        gate_proofs@[4]@ == sc_rounds(inp.q2@, wa@, inp.challenge@),
        gate_proofs@[5]@ == sc_rounds(inp.eq@, tbl_sub(inp.input@, wc@), inp.challenge@),
        gate_open_post(
            gate_open_list@,
            wa@,
            wb@,
            wc@,
            inp.input@,
            inp.q1@,
            inp.q2@,
            sa@,
            sb@,
            sc@,
            inp.challenge@,
            key.srs@,
        ),
    ensures
        r is Ok <==> dens_invertible(*inp),
        r is Err ==> r == Err::<ProofBundle, ProofError>(ProofError::DivisionByZero),
        r matches Ok(b) ==> bundle_post(
            b,
            *inp,
            (LinkInput::WitnessLink { s: *s, point_a: *point_a, point_b: *point_b }),
            key.srs@,
        ),
        r matches Ok(b) ==> b.gate_proofs@.len() == 6 && b.gate_openings@.len() == 9
            && b.wiring_proofs@.len() == 7 && b.wiring_commitments@.len() == 7
            && b.wiring_openings@.len() == 9,
{
    proof {
        assert(blinded_tbl(wa@, wb@, wc@, inp.sid@, inp.sid@, inp.sid@, inp.beta, inp.gamma)
            == pipeline_den(*inp));
    }
    let (s_cm, link_pf, op_s, op_m1, op_m2) = link_extras(key, &inp.m, s, point_a, point_b);
    let w = match wiring_argument(
        key,
        &inp.eq,
        wa,
        wb,
        wc,
        sa,
        sb,
        sc,
        &inp.sid,
        inp.beta,
        inp.gamma,
        &inp.challenge,
    ) {
        Ok(v) => v,
        Err(_) => {
            return Err(ProofError::DivisionByZero);
        },
    };
    let (wpf, wcm, wop) = w;
    let ghost wpf0 = wpf@;
    let ghost wcm0 = wcm@;
    let ghost wop0 = wop@;
    let mut wiring_proofs: Vec<Vec<(u64, u64, u64)>> = Vec::new();
    wiring_proofs.push(link_pf);
    append_all(&mut wiring_proofs, wpf);
    let mut wiring_commitments: Vec<u64> = Vec::new();
    wiring_commitments.push(s_cm);
    append_all(&mut wiring_commitments, wcm);
    let mut wiring_openings: Vec<(u64, Vec<u64>)> = Vec::new();
    wiring_openings.push(op_s);
    wiring_openings.push(op_m1);
    wiring_openings.push(op_m2);
    append_all(&mut wiring_openings, wop);
    proof {
        assert(wiring_proofs@.skip(1) =~= wpf0);
        assert(wiring_commitments@.skip(1) =~= wcm0);
        assert(wiring_openings@.skip(3) =~= wop0);
    }
    Ok(
        ProofBundle {
            gate_proofs,
            gate_openings: gate_open_list,
            wiring_proofs,
            wiring_commitments,
            wiring_openings,
        },
    )
}

/// Everything an assembled proof bundle promises: the six gate-identity
/// transcripts in their fixed order, the nine gate-scope commitment/opening
/// pairs, and the wiring group of the chosen variant, with the witness-link
/// variant prepending its extra commitment, sum-check and the two witness
/// openings at distinct points.
pub open spec fn bundle_post(b: ProofBundle, inp: ProverInput, link: LinkInput, srs: Seq<u64>) -> bool {
    let wa = wire_a(inp.m@);
    let wb = wire_b(inp.m@);
    let wc = wire_c(inp.m@);
    let sa = wire_a(inp.ssigma@);
    let sb = wire_b(inp.ssigma@);
    let sc = wire_c(inp.ssigma@);
    let ch = inp.challenge@;
    &&& b.gate_proofs@.len() == 6
    &&& b.gate_proofs@[0]@ == sc_rounds(inp.eq@, inp.q1@, ch)
    &&& b.gate_proofs@[1]@ == sc_rounds(inp.q1@, tbl_add(wa, wb), ch)
    &&& b.gate_proofs@[2]@ == sc_rounds(inp.eq@, inp.q2@, ch)
    &&& b.gate_proofs@[3]@ == sc_rounds(wa, wb, ch)
    &&& b.gate_proofs@[4]@ == sc_rounds(inp.q2@, wa, ch)
    &&& b.gate_proofs@[5]@ == sc_rounds(inp.eq@, tbl_sub(inp.input@, wc), ch)
    &&& gate_open_post(
        b.gate_openings@,
        wa,
        wb,
        wc,
        inp.input@,
        inp.q1@,
        inp.q2@,
        sa,
        sb,
        sc,
        ch,
        srs,
    )
    &&& match link {
        LinkInput::NoLink => wiring_post(
            b.wiring_proofs@,
            b.wiring_commitments@,
            b.wiring_openings@,
            inp.eq@,
            wa,
            wb,
            wc,
            sa,
            sb,
            sc,
            inp.sid@,
            inp.beta,
            inp.gamma,
            ch,
            srs,
        ),
        LinkInput::WitnessLink { s, point_a, point_b } => {
            &&& b.wiring_proofs@.len() == 7
            &&& b.wiring_commitments@.len() == 7
            &&& b.wiring_openings@.len() == 9
            &&& b.wiring_proofs@[0]@ == sc_rounds(inp.m@, s@, point_a@)
            &&& b.wiring_commitments@[0] == commit_val(s@, srs)
            &&& b.wiring_openings@[0].0 == eval_tbl(s@, point_a@)
            &&& b.wiring_openings@[0].1@ == open_wits(s@, point_a@, srs)
            &&& b.wiring_openings@[1].0 == eval_tbl(inp.m@, point_a@)
            &&& b.wiring_openings@[1].1@ == open_wits(inp.m@, point_a@, srs)
            &&& b.wiring_openings@[2].0 == eval_tbl(inp.m@, point_b@)
            &&& b.wiring_openings@[2].1@ == open_wits(inp.m@, point_b@, srs)
            &&& wiring_post(
                b.wiring_proofs@.skip(1),
                b.wiring_commitments@.skip(1),
                b.wiring_openings@.skip(3),
                inp.eq@,
                wa,
                wb,
                wc,
                sa,
                sb,
                sc,
                inp.sid@,
                inp.beta,
                inp.gamma,
                ch,
                srs,
            )
        },
    }
}

/// Runs one full proof invocation: checks every dimension, arithmetizes the
/// witness and the permutation table, commits the nine gate-scope
/// polynomials and opens them at the shared challenge, emits the six
/// gate-identity sum-check instances, runs the wiring argument, and, in the
/// witness-link variant, prepends the extra linking commitment, sum-check
/// and witness openings.  It fails with a dimension error exactly on
/// ill-formed inputs, with a collaborator failure exactly when the key's
/// arity cannot serve the variant, and with a division error exactly when a
/// wiring denominator entry has no inverse; otherwise it returns the
/// assembled bundle.
#[verifier::rlimit(100)]
pub fn prove(key: &CommitKey, inp: &ProverInput, link: &LinkInput) -> (r: Result<
    ProofBundle,
    ProofError,
>)
    requires
        wf_tbl(key.srs@),
    ensures
        r == Err::<ProofBundle, ProofError>(ProofError::DimensionMismatch) <==> !(wf_input(*inp)
            && wf_link(*link, inp.n)),
        r == Err::<ProofBundle, ProofError>(ProofError::CollaboratorFailure) <==> wf_input(*inp)
            && wf_link(*link, inp.n) && key.srs@.len() < arity_needed(*link, inp.n),
        wf_input(*inp) && wf_link(*link, inp.n) && key.srs@.len() >= arity_needed(*link, inp.n)
            ==> ((r is Ok <==> dens_invertible(*inp)) && (r is Err ==> r == Err::<
            ProofBundle,
            ProofError,
        >(ProofError::DivisionByZero))),
        r matches Ok(b) ==> bundle_post(b, *inp, *link, key.srs@),
        r matches Ok(b) ==> b.gate_proofs@.len() == 6 && b.gate_openings@.len() == 9,
        r matches Ok(b) ==> (link is NoLink ==> b.wiring_proofs@.len() == 6
            && b.wiring_commitments@.len() == 6 && b.wiring_openings@.len() == 6),
        r matches Ok(b) ==> (link is WitnessLink ==> b.wiring_proofs@.len() == 7
            && b.wiring_commitments@.len() == 7 && b.wiring_openings@.len() == 9),
{
    if !check_input(inp) {
        return Err(ProofError::DimensionMismatch);
    }
    if !check_link(link, inp.n) {
        return Err(ProofError::DimensionMismatch);
    }
    let n = inp.n;
    // The witness length bounds pow2(n + 2), so `n + 2` cannot overflow.
    let _ml: usize = inp.m.len();
    proof {
        lemma_pow2_at_least((n + 2) as nat);
    }
    let needed = match link {
        LinkInput::NoLink => n,
        LinkInput::WitnessLink { .. } => n + 2,
    };
    if key.srs.len() < needed {
        return Err(ProofError::CollaboratorFailure);
    }
    proof {
        lemma_log2_pow2((n + 2) as nat);
        lemma2_to64();
        lemma_pow2_adds(2, n as nat);
        lemma_pow2_strictly_increases(2, (n + 2) as nat);
        vstd::arithmetic::div_mod::lemma_div_multiples_vanish(pow2(n as nat) as int, 4);
        lemma_pow2_unfold((n + 1) as nat);
        lemma_pow2_strictly_increases((n + 1) as nat, (n + 2) as nat);
    }
    let wires = expect_ok(arithmetize(&inp.m));
    let (wa, wb, wc) = wires;
    let swires = expect_ok(arithmetize(&inp.ssigma));
    let (sa, sb, sc) = swires;
    proof {
        assert(wa@.len() == pow2(n as nat));
        assert(sa@.len() == pow2(n as nat));
    }
    let gate_proofs = gate_argument(
        &inp.eq,
        &inp.q1,
        &inp.q2,
        &wa,
        &wb,
        &wc,
        &inp.input,
        &inp.challenge,
    );
    let gate_open_list = gate_openings(
        key,
        &wa,
        &wb,
        &wc,
        &inp.input,
        &inp.q1,
        &inp.q2,
        &sa,
        &sb,
        &sc,
        &inp.challenge,
    );
    match link {
        LinkInput::NoLink => finish_no_link(
            key,
            inp,
            &wa,
            &wb,
            &wc,
            &sa,
            &sb,
            &sc,
            gate_proofs,
            gate_open_list,
        ),
        LinkInput::WitnessLink { s, point_a, point_b } => finish_link(
            key,
            inp,
            s,
            point_a,
            point_b,
            &wa,
            &wb,
            &wc,
            &sa,
            &sb,
            &sc,
            gate_proofs,
            gate_open_list,
        ),
    }
}


} // verus!
