//! The sum-check collaborator for pairwise products: given two equally long
//! tables `p`, `q` over the same hypercube and a challenge point, it reduces
//! the claimed sum of `p[i] * q[i]` to an evaluation at the challenge.  Each
//! round sends the degree-two round polynomial as its values at zero, one and
//! two, then folds the leading variable to the round's challenge coordinate.
use vstd::prelude::*;
use vstd::arithmetic::power2::{lemma2_to64, lemma_pow2_unfold, pow2};
use crate::table::{
    extrap_tbl, fe_extrap, fe_fold, fe_sum_prod, fold_tbl, pow2_usize, slice_tbl, sum_prod, wf_tbl,
};
use crate::ProofError;

verus! {

/// The message of one sum-check round: the round polynomial's values at the
/// evaluation points zero, one and two.
pub open spec fn round_msg(p: Seq<u64>, q: Seq<u64>) -> (u64, u64, u64) {
    (
        sum_prod(p.take((p.len() / 2) as int), q.take((q.len() / 2) as int)),
        sum_prod(p.skip((p.len() / 2) as int), q.skip((q.len() / 2) as int)),
        sum_prod(extrap_tbl(p), extrap_tbl(q)),
    )
}

/// The full transcript of a product sum-check: one message per challenge
/// coordinate, each round folding both tables at that coordinate.
pub open spec fn sc_rounds(p: Seq<u64>, q: Seq<u64>, ch: Seq<u64>) -> Seq<(u64, u64, u64)>
    decreases ch.len(),
{
    if ch.len() == 0 {
        Seq::empty()
    } else {
        seq![round_msg(p, q)] + sc_rounds(fold_tbl(p, ch[0]), fold_tbl(q, ch[0]), ch.skip(1))
    }
}

/// A transcript has exactly one message per challenge coordinate.
pub broadcast proof fn lemma_sc_rounds_len(p: Seq<u64>, q: Seq<u64>, ch: Seq<u64>)
    ensures
        (#[trigger] sc_rounds(p, q, ch)).len() == ch.len(),
    decreases ch.len(),
{
    if ch.len() > 0 {
        lemma_sc_rounds_len(fold_tbl(p, ch[0]), fold_tbl(q, ch[0]), ch.skip(1));
    }
}

/// Proves the sum of the pointwise product of `p` and `q` over the hypercube,
/// reduced to the point `challenge`.  The tables must be equally long, of
/// length `2^(challenge.len())`; otherwise the dimension mismatch is fatal.
pub fn sumcheck_product(p: &Vec<u64>, q: &Vec<u64>, challenge: &Vec<u64>) -> (r: Result<
    Vec<(u64, u64, u64)>,
    ProofError,
>)
    requires
        wf_tbl(p@),
        wf_tbl(q@),
        wf_tbl(challenge@),
    ensures
        r is Err ==> r == Err::<Vec<(u64, u64, u64)>, ProofError>(ProofError::DimensionMismatch),
        r is Ok <==> p@.len() == q@.len() && p@.len() == pow2(challenge@.len()),
        r matches Ok(pf) ==> pf@ == sc_rounds(p@, q@, challenge@),
{
    let pl = p.len();
    let ql = q.len();
    let sz = match pow2_usize(challenge.len()) {
        Some(v) => v,
        None => {
            return Err(ProofError::DimensionMismatch);
        },
    };
    if pl != ql || pl != sz {
        return Err(ProofError::DimensionMismatch);
    }
    let mut cur_p = slice_tbl(p, 0, p.len());
    let mut cur_q = slice_tbl(q, 0, q.len());
    let mut out: Vec<(u64, u64, u64)> = Vec::new();
    let mut j: usize = 0;
    proof {
        assert(cur_p@ =~= p@);
        assert(cur_q@ =~= q@);
        assert(challenge@.skip(0) =~= challenge@);
        lemma2_to64();
    }
    while j < challenge.len()
        invariant
            j <= challenge@.len(),
            cur_p@.len() == pow2((challenge@.len() - j) as nat),
            cur_q@.len() == cur_p@.len(),
            wf_tbl(cur_p@),
            wf_tbl(cur_q@),
            wf_tbl(challenge@),
            out@.len() == j,
            sc_rounds(p@, q@, challenge@) == out@ + sc_rounds(cur_p@, cur_q@, challenge@.skip(
                j as int,
            )),
        decreases challenge@.len() - j,
    {
        let half = cur_p.len() / 2;
        proof {
            lemma_pow2_unfold((challenge@.len() - j) as nat);
        }
        let lo_p = slice_tbl(&cur_p, 0, half);
        let hi_p = slice_tbl(&cur_p, half, half);
        let ex_p = fe_extrap(&cur_p);
        let lo_q = slice_tbl(&cur_q, 0, half);
        let hi_q = slice_tbl(&cur_q, half, half);
        let ex_q = fe_extrap(&cur_q);
        proof {
            assert(lo_p@ =~= cur_p@.take((cur_p@.len() / 2) as int));
            assert(hi_p@ =~= cur_p@.skip((cur_p@.len() / 2) as int));
            assert(lo_q@ =~= cur_q@.take((cur_q@.len() / 2) as int));
            assert(hi_q@ =~= cur_q@.skip((cur_q@.len() / 2) as int));
        }
        let m0 = fe_sum_prod(&lo_p, &lo_q);
        let m1 = fe_sum_prod(&hi_p, &hi_q);
        let m2 = fe_sum_prod(&ex_p, &ex_q);
        proof {
            assert((m0, m1, m2) == round_msg(cur_p@, cur_q@));
            assert(challenge@.skip(j as int)[0] == challenge@[j as int]);
            assert(challenge@.skip(j as int).skip(1) =~= challenge@.skip(j + 1));
        }
        let ghost prev_p = cur_p@;
        let ghost prev_q = cur_q@;
        let ghost prev_out = out@;
        out.push((m0, m1, m2));
        let c = challenge[j];
        cur_p = fe_fold(&cur_p, c);
        cur_q = fe_fold(&cur_q, c);
        proof {
            assert(sc_rounds(prev_p, prev_q, challenge@.skip(j as int)) == seq![
                round_msg(prev_p, prev_q),
            ] + sc_rounds(cur_p@, cur_q@, challenge@.skip(j + 1)));
            assert(prev_out + sc_rounds(prev_p, prev_q, challenge@.skip(j as int)) =~= out@
                + sc_rounds(cur_p@, cur_q@, challenge@.skip(j + 1)));
        }
        j = j + 1;
    }
    proof {
        assert(challenge@.skip(challenge@.len() as int) =~= Seq::<u64>::empty());
        assert(out@ + Seq::<(u64, u64, u64)>::empty() =~= out@);
    }
    Ok(out)
}

} // verus!
