//! 256-bit unsigned values, held as two 128-bit limbs.
//!
//! The swap derivation multiplies two 128-bit reserves, so its
//! intermediates need a 256-bit domain.  A `W256` carries such a value as
//! plain limbs that specifications can read; the arithmetic itself is
//! delegated to `cosmwasm_std::Uint256` through trusted wrappers whose
//! contracts state the exact integer result.

use vstd::prelude::*;

use cosmwasm_std::Isqrt;
use cosmwasm_std::Uint256;

verus! {

/// One more than the largest value a `u128` holds.
pub open spec fn u128_bound() -> int {
    0x100000000000000000000000000000000int
}

/// One more than the largest value a 256-bit unsigned integer holds.
pub open spec fn u256_bound() -> int {
    0x10000000000000000000000000000000000000000000000000000000000000000int
}

/// An unsigned 256-bit value: `hi * 2^128 + lo`.
#[derive(Clone, Copy, Debug, PartialEq, Eq, Structural)]
pub struct W256 {
    pub hi: u128,
    pub lo: u128,
}

impl View for W256 {
    type V = int;

    open spec fn view(&self) -> int {
        self.hi * u128_bound() + self.lo
    }
}

/// Every `W256` denotes a value in `[0, 2^256)`.
pub proof fn lemma_w256_range(a: W256)
    ensures
        0 <= a@ < u256_bound(),
{
    assert(0 <= a.hi * u128_bound() < u256_bound() - (u128_bound() - 1))
        by (nonlinear_arith)
        requires
            0 <= a.hi < u128_bound(),
    ;
}

/// Widens a `u128`.
pub fn w256_from_u128(x: u128) -> (r: W256)
    ensures
        r@ == x,
{
    W256 { hi: 0, lo: x }
}

/// Narrows back to a `u128`, refusing values that do not fit.
pub fn w256_to_u128(a: &W256) -> (r: Option<u128>)
    ensures
        r is Some <==> a@ < u128_bound(),
        r matches Some(v) ==> v == a@,
{
    if a.hi == 0 {
        Some(a.lo)
    } else {
        proof {
            assert(a@ >= u128_bound()) by (nonlinear_arith)
                requires
                    a.hi >= 1,
                    a@ == a.hi * u128_bound() + a.lo,
                    a.lo >= 0,
            ;
        }
        None
    }
}

/// Strict comparison, decided limb by limb.
pub fn w256_lt(a: &W256, b: &W256) -> (r: bool)
    ensures
        r == (a@ < b@),
{
    let ghost k: int = u128_bound();
    if a.hi < b.hi {
        proof {
            assert(a.hi * k + a.lo < b.hi * k + b.lo) by (nonlinear_arith)
                requires
                    a.hi < b.hi,
                    0 <= a.lo < k,
                    0 <= b.lo,
            ;
        }
        true
    } else if a.hi > b.hi {
        proof {
            assert(b.hi * k + b.lo < a.hi * k + a.lo) by (nonlinear_arith)
                requires
                    b.hi < a.hi,
                    0 <= b.lo < k,
                    0 <= a.lo,
            ;
        }
        false
    } else {
        a.lo < b.lo
    }
}

/// Relies on `cosmwasm_std::Uint256::checked_add`: the exact sum, or an
/// error when it does not fit 256 bits.
#[verifier::external_body]
pub(crate) fn w256_add(a: &W256, b: &W256) -> (r: Option<W256>)
    ensures
        r is Some <==> a@ + b@ < u256_bound(),
        r matches Some(s) ==> s@ == a@ + b@,
{
    let x = (Uint256::from(a.hi) << 128) + Uint256::from(a.lo);
    let y = (Uint256::from(b.hi) << 128) + Uint256::from(b.lo);
    match x.checked_add(y) {
        Ok(s) => {
            let be = s.to_be_bytes();
            let hi = u128::from_be_bytes(be[..16].try_into().unwrap());
            let lo = u128::from_be_bytes(be[16..].try_into().unwrap());
            Some(W256 { hi, lo })
        },
        Err(_) => None,
    }
}

/// Relies on `cosmwasm_std::Uint256::checked_sub`: the exact difference,
/// or an error when the subtrahend is larger.
#[verifier::external_body]
pub(crate) fn w256_sub(a: &W256, b: &W256) -> (r: Option<W256>)
    ensures
        r is Some <==> b@ <= a@,
        r matches Some(s) ==> s@ == a@ - b@,
{
    let x = (Uint256::from(a.hi) << 128) + Uint256::from(a.lo);
    let y = (Uint256::from(b.hi) << 128) + Uint256::from(b.lo);
    match x.checked_sub(y) {
        Ok(s) => {
            let be = s.to_be_bytes();
            let hi = u128::from_be_bytes(be[..16].try_into().unwrap());
            let lo = u128::from_be_bytes(be[16..].try_into().unwrap());
            Some(W256 { hi, lo })
        },
        Err(_) => None,
    }
}

/// Relies on `cosmwasm_std::Uint256::checked_mul`: the exact product, or
/// an error when it does not fit 256 bits.
#[verifier::external_body]
pub(crate) fn w256_mul(a: &W256, b: &W256) -> (r: Option<W256>)
    ensures
        r is Some <==> a@ * b@ < u256_bound(),
        r matches Some(s) ==> s@ == a@ * b@,
{
    let x = (Uint256::from(a.hi) << 128) + Uint256::from(a.lo);
    let y = (Uint256::from(b.hi) << 128) + Uint256::from(b.lo);
    match x.checked_mul(y) {
        Ok(s) => {
            let be = s.to_be_bytes();
            let hi = u128::from_be_bytes(be[..16].try_into().unwrap());
            let lo = u128::from_be_bytes(be[16..].try_into().unwrap());
            Some(W256 { hi, lo })
        },
        Err(_) => None,
    }
}

/// Relies on `cosmwasm_std::Uint256::checked_div`: the floored quotient,
/// or an error for a zero divisor.
#[verifier::external_body]
pub(crate) fn w256_div(a: &W256, b: &W256) -> (r: Option<W256>)
    ensures
        r is Some <==> b@ != 0,
        r matches Some(q) ==> q@ == a@ / b@,
{
    let x = (Uint256::from(a.hi) << 128) + Uint256::from(a.lo);
    let y = (Uint256::from(b.hi) << 128) + Uint256::from(b.lo);
    match x.checked_div(y) {
        Ok(q) => {
            let be = q.to_be_bytes();
            let hi = u128::from_be_bytes(be[..16].try_into().unwrap());
            let lo = u128::from_be_bytes(be[16..].try_into().unwrap());
            Some(W256 { hi, lo })
        },
        Err(_) => None,
    }
}

/// Relies on `cosmwasm_std::Uint256::checked_multiply_ratio`: the floored
/// `a * num / den` with a 512-bit intermediate; an error for a zero
/// divisor or a quotient beyond 256 bits.
#[verifier::external_body]
pub(crate) fn w256_mul_ratio(a: &W256, num: &W256, den: &W256) -> (r: Option<W256>)
    ensures
        r is Some <==> (den@ != 0 && (a@ * num@) / den@ < u256_bound()),
        r matches Some(q) ==> q@ == (a@ * num@) / den@,
{
    let x = (Uint256::from(a.hi) << 128) + Uint256::from(a.lo);
    let n = (Uint256::from(num.hi) << 128) + Uint256::from(num.lo);
    let d = (Uint256::from(den.hi) << 128) + Uint256::from(den.lo);
    match x.checked_multiply_ratio(n, d) {
        Ok(q) => {
            let be = q.to_be_bytes();
            let hi = u128::from_be_bytes(be[..16].try_into().unwrap());
            let lo = u128::from_be_bytes(be[16..].try_into().unwrap());
            Some(W256 { hi, lo })
        },
        Err(_) => None,
    }
}

/// Relies on `cosmwasm_std::Isqrt::isqrt` for `Uint256`: the floor of the
/// square root, here stated as the bracket that pins it down.
#[verifier::external_body]
pub(crate) fn w256_isqrt(a: &W256) -> (r: W256)
    ensures
        r@ * r@ <= a@,
        a@ < (r@ + 1) * (r@ + 1),
{
    let x = (Uint256::from(a.hi) << 128) + Uint256::from(a.lo);
    let s = x.isqrt();
    let be = s.to_be_bytes();
    let hi = u128::from_be_bytes(be[..16].try_into().unwrap());
    let lo = u128::from_be_bytes(be[16..].try_into().unwrap());
    W256 { hi, lo }
}

} // verus!
