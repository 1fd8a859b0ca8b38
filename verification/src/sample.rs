//! Uniform random sampling of field elements and evaluation tables.  The
//! entropy comes from the process-wide generator of the `rand` crate; every
//! sampled value is reduced into the field, and nothing else is assumed of
//! which values come back.
use vstd::prelude::*;
use crate::field::{fe_ok, MODULUS};
use crate::table::wf_tbl;

verus! {

/// Relies on rand::random: draws a value of the target type from the
/// thread-local generator; nothing is assumed of the result.
pub assume_specification<T>[ rand::random::<T> ]() -> (r: T)
    where
        rand::distributions::Standard: rand::distributions::Distribution<T>,
;

/// Samples one uniform field element.
pub fn sample_field_element() -> (r: u64)
    ensures
        fe_ok(r),
{
    let raw = rand::random::<u64>();
    raw % MODULUS
}

/// Samples a table of `count` independent uniform field elements.
pub fn sample_table(count: usize) -> (r: Vec<u64>)
    ensures
        r@.len() == count,
        wf_tbl(r@),
{
    let mut out: Vec<u64> = Vec::new();
    let mut i: usize = 0;
    while i < count
        invariant
            i <= count,
            out@.len() == i,
            wf_tbl(out@),
        decreases count - i,
    {
        let v = sample_field_element();
        out.push(v);
        i = i + 1;
    }
    out
}

} // verus!
