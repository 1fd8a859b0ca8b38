//! A transparent stand-in for the polynomial commitment collaborator.  The
//! scheme's parameters are a structured reference point: a commitment is the
//! multilinear evaluation of the table at the leading coordinates of that
//! point, and an opening is the claimed value at the query point together
//! with one quotient-table evaluation per variable (the witnesses a verifier
//! would check the commitment against).  Commitments and openings are opaque
//! to every consumer in this crate: they are stored and forwarded, never
//! inspected.
use vstd::prelude::*;
use vstd::arithmetic::power2::pow2;
use crate::table::{
    diff_tbl, eval_tbl, exact_pow2, fe_diff, fe_eval, fe_fold, fold_tbl, log2, log2_floor,
    lemma_log2_pow2, lemma_pow2_at_least, pow2_usize, slice_tbl, wf_tbl,
};
use crate::ProofError;

verus! {

/// The commitment scheme's parameters: the reference point every commitment
/// evaluates at.  Its length is the largest variable count the scheme serves.
pub struct CommitKey {
    pub srs: Vec<u64>,
}

/// What committing to a table yields.
pub open spec fn commit_val(t: Seq<u64>, srs: Seq<u64>) -> u64 {
    eval_tbl(t, srs.take(log2(t.len()) as int))
}

/// The quotient-evaluation witnesses of an opening: one per variable of the
/// query point, each the commitment of the half-difference table of the
/// progressively folded polynomial.
pub open spec fn open_wits(t: Seq<u64>, pt: Seq<u64>, srs: Seq<u64>) -> Seq<u64>
    decreases pt.len(),
{
    if pt.len() == 0 {
        Seq::empty()
    } else {
        seq![eval_tbl(diff_tbl(t), srs.take((pt.len() - 1) as int))] + open_wits(
            fold_tbl(t, pt[0]),
            pt.skip(1),
            srs,
        )
    }
}

/// An opening carries one witness per query coordinate.
pub proof fn lemma_open_wits_len(t: Seq<u64>, pt: Seq<u64>, srs: Seq<u64>)
    ensures
        open_wits(t, pt, srs).len() == pt.len(),
    decreases pt.len(),
{
    if pt.len() > 0 {
        lemma_open_wits_len(fold_tbl(t, pt[0]), pt.skip(1), srs);
    }
}

/// Commits to a table.  The table's length must be a power of two and its
/// variable count must not exceed the scheme's arity; a commitment does not
/// depend on the query points it will later be opened at.
pub fn commit(key: &CommitKey, t: &Vec<u64>) -> (r: Result<u64, ProofError>)
    requires
        wf_tbl(key.srs@),
        wf_tbl(t@),
    ensures
        r == Err::<u64, ProofError>(ProofError::DimensionMismatch) <==> !exact_pow2(t@.len()),
        r == Err::<u64, ProofError>(ProofError::CollaboratorFailure) <==> exact_pow2(t@.len())
            && log2(t@.len()) > key.srs@.len(),
        r is Ok <==> exact_pow2(t@.len()) && log2(t@.len()) <= key.srs@.len(),
        r matches Ok(c) ==> c == commit_val(t@, key.srs@),
{
    let (k, exact) = log2_floor(t.len());
    if !exact {
        return Err(ProofError::DimensionMismatch);
    }
    if k > key.srs.len() {
        return Err(ProofError::CollaboratorFailure);
    }
    let prefix = slice_tbl(&key.srs, 0, k);
    proof {
        assert(prefix@ =~= key.srs@.take(log2(t@.len()) as int));
    }
    Ok(fe_eval(t, &prefix))
}

/// Opens a table at a query point: the table's length must be `2^(point
/// length)`, and the point's length must not exceed the scheme's arity.
/// Returns the evaluation at the point and the quotient witnesses.
pub fn open(key: &CommitKey, t: &Vec<u64>, point: &Vec<u64>) -> (r: Result<
    (u64, Vec<u64>),
    ProofError,
>)
    requires
        wf_tbl(key.srs@),
        wf_tbl(t@),
        wf_tbl(point@),
    ensures
        r == Err::<(u64, Vec<u64>), ProofError>(ProofError::DimensionMismatch) <==> t@.len()
            != pow2(point@.len()),
        r == Err::<(u64, Vec<u64>), ProofError>(ProofError::CollaboratorFailure) <==> t@.len()
            == pow2(point@.len()) && point@.len() > key.srs@.len(),
        r is Ok <==> t@.len() == pow2(point@.len()) && point@.len() <= key.srs@.len(),
        r matches Ok(o) ==> o.0 == eval_tbl(t@, point@) && o.1@ == open_wits(
            t@,
            point@,
            key.srs@,
        ),
{
    let tl = t.len();
    let sz = match pow2_usize(point.len()) {
        Some(v) => v,
        None => {
            return Err(ProofError::DimensionMismatch);
        },
    };
    if tl != sz {
        return Err(ProofError::DimensionMismatch);
    }
    if point.len() > key.srs.len() {
        return Err(ProofError::CollaboratorFailure);
    }
    let value = fe_eval(t, point);
    let mut cur = slice_tbl(t, 0, tl);
    let mut wits: Vec<u64> = Vec::new();
    let mut j: usize = 0;
    proof {
        assert(cur@ =~= t@);
        assert(point@.skip(0) =~= point@);
        vstd::arithmetic::power2::lemma2_to64();
    }
    while j < point.len()
        invariant
            j <= point@.len(),
            point@.len() <= key.srs@.len(),
            cur@.len() == pow2((point@.len() - j) as nat),
            wf_tbl(cur@),
            wf_tbl(point@),
            wf_tbl(key.srs@),
            key.srs@.len() <= usize::MAX,
            wits@.len() == j,
            open_wits(t@, point@, key.srs@) == wits@ + open_wits(cur@, point@.skip(j as int),
                key.srs@,
            ),
        decreases point@.len() - j,
    {
        proof {
            vstd::arithmetic::power2::lemma_pow2_unfold((point@.len() - j) as nat);
        }
        let d = fe_diff(&cur);
        let plen = point.len();
        let prefix = slice_tbl(&key.srs, 0, plen - 1 - j);
        proof {
            assert(prefix@ =~= key.srs@.take((point@.skip(j as int).len() - 1) as int));
            assert(d@.len() == pow2((point@.len() - j - 1) as nat));
            lemma_log2_pow2((point@.len() - j - 1) as nat);
        }
        let w = fe_eval(&d, &prefix);
        let ghost prev_cur = cur@;
        let ghost prev_wits = wits@;
        wits.push(w);
        let c = point[j];
        cur = fe_fold(&cur, c);
        proof {
            assert(point@.skip(j as int)[0] == point@[j as int]);
            assert(point@.skip(j as int).skip(1) =~= point@.skip(j + 1));
            assert(open_wits(prev_cur, point@.skip(j as int), key.srs@) == seq![w] + open_wits(
                cur@,
                point@.skip(j + 1),
                key.srs@,
            ));
            assert(prev_wits + open_wits(prev_cur, point@.skip(j as int), key.srs@) =~= wits@
                + open_wits(cur@, point@.skip(j + 1), key.srs@));
        }
        j = j + 1;
    }
    proof {
        assert(point@.skip(point@.len() as int) =~= Seq::<u64>::empty());
        assert(wits@ + Seq::<u64>::empty() =~= wits@);
    }
    Ok((value, wits))
}

} // verus!
