//! Arithmetic in the prime field of order 2^31 - 1, carried out by the
//! Mersenne31 type and described here over integers.
use p3_field::{Field, PrimeField32};
use p3_mersenne_31::Mersenne31;
use vstd::arithmetic::div_mod::{lemma_mul_mod_noop_left, lemma_mul_mod_noop_right};
use vstd::prelude::*;

verus! {

/// The order of the field, 2^31 - 1.
pub const P: u32 = 2147483647;

/// A canonical field element: an integer in `[0, P)`.
pub open spec fn is_fe(a: int) -> bool {
    0 <= a < P as int
}

pub open spec fn fadd(a: int, b: int) -> int {
    (a + b) % (P as int)
}

pub open spec fn fsub(a: int, b: int) -> int {
    (a - b) % (P as int)
}

pub open spec fn fmul(a: int, b: int) -> int {
    (a * b) % (P as int)
}

/// `r` is a canonical multiplicative inverse of `a`.
pub open spec fn is_inverse(a: int, r: int) -> bool {
    is_fe(r) && fmul(a, r) == 1
}

/// `a` has a multiplicative inverse (in this prime field: `a` is not zero).
pub open spec fn invertible(a: int) -> bool {
    exists|r: int| is_inverse(a, r)
}

/// The multiplicative inverse of `a`; meaningful where `a` is not zero.
pub open spec fn finv(a: int) -> int {
    choose|r: int| is_inverse(a, r)
}

/// `a / b`; meaningful where `b` is not zero.
pub open spec fn fdiv(a: int, b: int) -> int {
    fmul(a, finv(b))
}

/// Relies on `Mersenne31::new` and the field's `+`: the sum modulo the order.
#[verifier::external_body]
pub(crate) fn fe_add(a: u32, b: u32) -> (r: u32)
    requires
        a < P,
        b < P,
    ensures
        r as int == fadd(a as int, b as int),
{
    (Mersenne31::new(a) + Mersenne31::new(b)).as_canonical_u32()
}

/// Relies on `Mersenne31::new` and the field's `-`: the difference modulo the order.
#[verifier::external_body]
pub(crate) fn fe_sub(a: u32, b: u32) -> (r: u32)
    requires
        a < P,
        b < P,
    ensures
        r as int == fsub(a as int, b as int),
{
    (Mersenne31::new(a) - Mersenne31::new(b)).as_canonical_u32()
}

/// Relies on `Mersenne31::new` and the field's `*`: the product modulo the order.
#[verifier::external_body]
pub(crate) fn fe_mul(a: u32, b: u32) -> (r: u32)
    requires
        a < P,
        b < P,
    ensures
        r as int == fmul(a as int, b as int),
{
    (Mersenne31::new(a) * Mersenne31::new(b)).as_canonical_u32()
}

/// Relies on `Field::try_inverse` of Mersenne31: `None` for zero, otherwise
/// the canonical inverse.
#[verifier::external_body]
pub(crate) fn fe_try_inverse(a: u32) -> (r: Option<u32>)
    requires
        a < P,
    ensures
        r.is_none() <==> a == 0,
        r matches Some(v) ==> is_inverse(a as int, v as int),
{
    match Mersenne31::new(a).try_inverse() {
        Some(v) => Some(v.as_canonical_u32()),
        None => None,
    }
}

/// Why a computation over committee data or a trace did not go through.
#[derive(Clone, Copy, Debug, PartialEq, Eq, Structural)]
pub enum ApkError {
    /// Malformed input: a flag outside {0, 1}, lengths that differ, a value
    /// that is not a canonical field element, or an empty trace.
    InvalidInput,
    /// A division whose divisor is zero.
    DivisionByZero,
    /// A constraint evaluated to a non-zero value.
    RelationViolated,
}

/// `a / b`, failing on a zero divisor.
pub fn fe_div(a: u32, b: u32) -> (r: Result<u32, ApkError>)
    requires
        a < P,
        b < P,
    ensures
        b == 0 <==> r == Err::<u32, ApkError>(ApkError::DivisionByZero),
        b == 0 <==> !invertible(b as int),
        b != 0 ==> r == Ok::<u32, ApkError>(fdiv(a as int, b as int) as u32),
{
    match fe_try_inverse(b) {
        Some(v) => {
            proof {
                lemma_inverse_unique(b as int, v as int);
            }
            Ok(fe_mul(a, v))
        },
        None => {
            assert(!invertible(b as int)) by {
                if invertible(b as int) {
                    let w = choose|w: int| is_inverse(b as int, w);
                    assert(fmul(0, w) == 0);
                }
            }
            Err(ApkError::DivisionByZero)
        },
    }
}

/// An inverse, where one exists, is the one `finv` picks.
pub proof fn lemma_inverse_unique(a: int, r: int)
    requires
        is_inverse(a, r),
    ensures
        finv(a) == r,
{
    let s = finv(a);
    assert(is_inverse(a, s));
    let p = P as int;
    // r == r * (a * s) == (r * a) * s == s, all modulo p
    lemma_mul_mod_noop_right(r, a * s, p);
    lemma_mul_mod_noop_left(r * a, s, p);
    assert(r * (a * s) == (r * a) * s) by (nonlinear_arith);
    assert(r * a == a * r) by (nonlinear_arith);
    assert((r * 1) % p == r);
    assert((1 * s) % p == s);
}

/// The value `finv` picks is an inverse wherever one exists, on either side.
pub proof fn lemma_finv(a: int)
    requires
        invertible(a),
    ensures
        is_inverse(a, finv(a)),
        fmul(finv(a), a) == 1,
{
    let r = finv(a);
    assert(r * a == a * r) by (nonlinear_arith);
}

/// Multiplying by `i` and then by an inverse of `i` gives back `n`.
pub proof fn lemma_mul_cancel(n: int, i: int, d: int)
    requires
        is_fe(n),
        fmul(i, d) == 1,
    ensures
        fmul(fmul(n, i), d) == n,
{
    let p = P as int;
    lemma_mul_mod_noop_left(n * i, d, p);
    assert((n * i) * d == n * (i * d)) by (nonlinear_arith);
    lemma_mul_mod_noop_right(n, i * d, p);
    assert((n * 1) % p == n);
}

/// A difference of canonical elements is zero exactly when they are equal.
pub proof fn lemma_sub_zero(a: int, b: int)
    requires
        is_fe(a),
        is_fe(b),
    ensures
        fsub(a, b) == 0 <==> a == b,
{
}

} // verus!
