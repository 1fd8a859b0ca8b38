//! The scalar field all evaluation tables live in, modelled as the integers
//! modulo the Mersenne prime `2^61 - 1`.  A field element is a plain `u64`
//! below the modulus; the operations are defined by spec functions over the
//! integers and implemented by verified executable code.
use vstd::prelude::*;
use vstd::arithmetic::div_mod::{
    lemma_mod_add_multiples_vanish, lemma_mod_bound, lemma_mul_mod_noop_general, lemma_small_mod,
};
use vstd::arithmetic::mul::lemma_mul_is_associative;
use crate::ProofError;

verus! {

/// The field modulus: the Mersenne prime `2^61 - 1`.
pub const MODULUS: u64 = 2305843009213693951;

/// A `u64` is a valid field element when it is reduced below the modulus.
pub open spec fn fe_ok(x: u64) -> bool {
    x < MODULUS
}

/// Field addition.
pub open spec fn f_add(a: u64, b: u64) -> u64 {
    (((a + b) as int) % (MODULUS as int)) as u64
}

/// Field subtraction.
pub open spec fn f_sub(a: u64, b: u64) -> u64 {
    (((a - b) as int) % (MODULUS as int)) as u64
}

/// Field multiplication.
pub open spec fn f_mul(a: u64, b: u64) -> u64 {
    (((a * b) as int) % (MODULUS as int)) as u64
}

/// Field exponentiation, by the square-and-multiply recursion.
pub open spec fn f_pow(b: u64, e: nat) -> u64
    decreases e,
{
    if e == 0 {
        1u64
    } else if e % 2 == 0 {
        f_mul(f_pow(b, e / 2), f_pow(b, e / 2))
    } else {
        f_mul(b, f_pow(b, (e - 1) as nat))
    }
}

/// The candidate multiplicative inverse of `b`: since the modulus is prime,
/// `b^(MODULUS-2)` inverts every nonzero reduced `b`.
pub open spec fn f_inv(b: u64) -> u64 {
    f_pow(b, (MODULUS - 2) as nat)
}

/// Whether the candidate inverse of `b` really inverts it.  For the prime
/// modulus this fails exactly on `b % MODULUS == 0`.
pub open spec fn f_invertible(b: u64) -> bool {
    f_mul(f_inv(b), b) == 1
}

/// Reduced sums stay below the modulus.
pub fn fe_add(a: u64, b: u64) -> (r: u64)
    requires
        fe_ok(a),
        fe_ok(b),
    ensures
        r == f_add(a, b),
        fe_ok(r),
{
    let s = a + b;
    if s >= MODULUS {
        proof {
            lemma_mod_add_multiples_vanish(s - MODULUS, MODULUS as int);
            lemma_small_mod((s - MODULUS) as nat, MODULUS as nat);
        }
        s - MODULUS
    } else {
        proof {
            lemma_small_mod(s as nat, MODULUS as nat);
        }
        s
    }
}

pub fn fe_sub(a: u64, b: u64) -> (r: u64)
    requires
        fe_ok(a),
        fe_ok(b),
    ensures
        r == f_sub(a, b),
        fe_ok(r),
{
    if a >= b {
        proof {
            lemma_small_mod((a - b) as nat, MODULUS as nat);
        }
        a - b
    } else {
        proof {
            lemma_mod_add_multiples_vanish(a - b, MODULUS as int);
            lemma_small_mod((a + MODULUS - b) as nat, MODULUS as nat);
        }
        a + MODULUS - b
    }
}

pub fn fe_mul(a: u64, b: u64) -> (r: u64)
    ensures
        r == f_mul(a, b),
        fe_ok(r),
{
    proof {
        assert((a as int) * (b as int) <= (u64::MAX as int) * (u64::MAX as int)) by (nonlinear_arith)
            requires
                a <= u64::MAX,
                b <= u64::MAX,
        ;
        lemma_mod_bound((a * b) as int, MODULUS as int);
    }
    (((a as u128) * (b as u128)) % (MODULUS as u128)) as u64
}

pub fn fe_pow(b: u64, e: u64) -> (r: u64)
    ensures
        r == f_pow(b, e as nat),
        fe_ok(r),
    decreases e,
{
    if e == 0 {
        1
    } else if e % 2 == 0 {
        let h = fe_pow(b, e / 2);
        fe_mul(h, h)
    } else {
        let t = fe_pow(b, e - 1);
        fe_mul(b, t)
    }
}

/// Multiplication modulo the modulus is associative.
pub proof fn lemma_f_mul_assoc(a: u64, b: u64, c: u64)
    ensures
        f_mul(f_mul(a, b), c) == f_mul(a, f_mul(b, c)),
{
    let m = MODULUS as int;
    lemma_mul_mod_noop_general((a * b) as int, c as int, m);
    lemma_mul_mod_noop_general(a as int, (b * c) as int, m);
    lemma_mul_is_associative(a as int, b as int, c as int);
}

/// Field division `a / b`, the named failure mode of the wiring argument.
/// It fails exactly when the candidate inverse of `b` does not invert it,
/// which for the prime modulus happens exactly at zero.
pub fn fe_div(a: u64, b: u64) -> (r: Result<u64, ProofError>)
    requires
        fe_ok(a),
        fe_ok(b),
    ensures
        r is Ok <==> f_invertible(b),
        r is Err ==> r == Err::<u64, ProofError>(ProofError::DivisionByZero),
        b == 0 ==> r is Err,
        r matches Ok(q) ==> q == f_mul(a, f_inv(b)) && f_mul(q, b) == a && fe_ok(q),
{
    let inv = fe_pow(b, MODULUS - 2);
    let check = fe_mul(inv, b);
    if check == 1 {
        let q = fe_mul(a, inv);
        proof {
            lemma_f_mul_assoc(a, inv, b);
            lemma_small_mod(a as nat, MODULUS as nat);
            assert(f_mul(a, 1) == a);
        }
        Ok(q)
    } else {
        proof {
            if b == 0 {
            } else {
                assert(!f_invertible(b));
            }
        }
        Err(ProofError::DivisionByZero)
    }
}

} // verus!
