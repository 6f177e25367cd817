//! Closed-form derivation of the optimal one-sided swap, and the
//! constant-product swap simulation.
//!
//! `get_swap_amount` reproduces, over exact integer arithmetic, the
//! positive root of the quadratic that equalises the marginal prices of
//! the two deposit sides after commission.  `simulate` reproduces the
//! standard constant-product output formula under a fixed-point
//! commission rate.  Every intermediate lives in the 256-bit domain; a
//! step that would leave it reports an overflow instead of wrapping.

use vstd::prelude::*;

use crate::dec::Dec;
use crate::dec::DEC_DENOM;
use crate::error::ContractError;
use crate::COMMISSION_DENOM;
use crate::intsqrt::int_sqrt;
use crate::intsqrt::lemma_int_sqrt;
use crate::intsqrt::lemma_int_sqrt_unique;
use crate::intsqrt::lemma_sq_le;
use crate::wide::u128_bound;
use crate::wide::u256_bound;
use crate::wide::lemma_w256_range;
use crate::wide::w256_add;
use crate::wide::w256_div;
use crate::wide::w256_from_u128;
use crate::wide::w256_isqrt;
use crate::wide::w256_mul;
use crate::wide::w256_mul_ratio;
use crate::wide::w256_sub;
use crate::wide::w256_to_u128;
use vstd::arithmetic::div_mod::lemma_div_by_multiple;
use vstd::arithmetic::div_mod::lemma_div_is_ordered;
use vstd::arithmetic::div_mod::lemma_div_pos_is_pos;

verus! {

/// Cross-area of the excess side: `(amount_a + pool_a) * pool_b`.
pub open spec fn spec_area_ax(aa: int, pa: int, pb: int) -> int {
    (aa + pa) * pb
}

/// Cross-area of the deficit side: `(amount_b + pool_b) * pool_a`.
pub open spec fn spec_area_bx(ab: int, pb: int, pa: int) -> int {
    (ab + pb) * pa
}

/// Quadratic coefficient `a`:
/// `bps^2 * area_ax + 4 * (10000 - bps) * 10000 * area_bx`.
pub open spec fn spec_quad_a(aa: int, ab: int, pa: int, pb: int, bps: int) -> int {
    bps * bps * spec_area_ax(aa, pa, pb) + 4 * (10000 - bps) * 10000 * spec_area_bx(ab, pb, pa)
}

/// Quadratic term `b`: `bps * area_ax + sqrt(area_ax) * sqrt(a)`.
pub open spec fn spec_quad_b(aa: int, ab: int, pa: int, pb: int, bps: int) -> int {
    bps * spec_area_ax(aa, pa, pb) + int_sqrt(spec_area_ax(aa, pa, pb) as nat) * int_sqrt(
        spec_quad_a(aa, ab, pa, pb, bps) as nat,
    )
}

/// The root before saturation: `b / 20000 / (amount_b + pool_b)`.
pub open spec fn spec_swap_raw(aa: int, ab: int, pa: int, pb: int, bps: int) -> int {
    spec_quad_b(aa, ab, pa, pb, bps) / 20000 / (ab + pb)
}

/// The optimal swap amount: the root less `pool_a`, saturating at zero.
pub open spec fn spec_swap_amount(aa: int, ab: int, pa: int, pb: int, bps: int) -> int {
    if spec_swap_raw(aa, ab, pa, pb, bps) - pa < 0 {
        0
    } else {
        spec_swap_raw(aa, ab, pa, pb, bps) - pa
    }
}

/// Every intermediate of the derivation stays below `2^256`, in the order
/// the computation forms them.
pub open spec fn swap_amount_in_range(aa: int, ab: int, pa: int, pb: int, bps: int) -> bool {
    let a_ax = spec_area_ax(aa, pa, pb);
    let a_bx = spec_area_bx(ab, pb, pa);
    let qa = spec_quad_a(aa, ab, pa, pb, bps);
    &&& a_ax < u256_bound()
    &&& a_bx < u256_bound()
    &&& bps * bps * a_ax < u256_bound()
    &&& 4 * (10000 - bps) * 10000 * a_bx < u256_bound()
    &&& qa < u256_bound()
    &&& bps * a_ax < u256_bound()
    &&& int_sqrt(a_ax as nat) * int_sqrt(qa as nat) < u256_bound()
    &&& spec_quad_b(aa, ab, pa, pb, bps) < u256_bound()
}

/// The derived swap amount never exceeds the provisional excess amount:
/// for any reserves and any commission in `[0, 10000]` basis points, the
/// root stays at or below `amount_a + pool_a`, so after subtracting
/// `pool_a` the swap spends at most `amount_a` and can never drive the
/// excess side's balance negative.
pub proof fn lemma_swap_amount_le_excess(aa: int, ab: int, pa: int, pb: int, bps: int)
    requires
        0 <= aa,
        0 <= ab,
        0 <= pa,
        0 <= pb,
        0 <= bps <= 10000,
        0 < ab + pb,
    ensures
        0 <= spec_swap_amount(aa, ab, pa, pb, bps) <= aa,
        spec_swap_raw(aa, ab, pa, pb, bps) <= aa + pa,
{
    let pax = aa + pa;
    let pbx = ab + pb;
    let p = pax * pbx;
    let a_ax = spec_area_ax(aa, pa, pb);
    let a_bx = spec_area_bx(ab, pb, pa);
    let qa = spec_quad_a(aa, ab, pa, pb, bps);
    let qb = spec_quad_b(aa, ab, pa, pb, bps);
    let sa = int_sqrt(a_ax as nat) as int;
    let sq = int_sqrt(qa as nat) as int;

    assert(0 <= a_ax && a_ax <= p && 0 <= a_bx && a_bx <= p && 0 <= p) by (nonlinear_arith)
        requires
            0 <= pax,
            0 <= pa,
            0 <= pb,
            pb <= pbx,
            pa <= pax,
            0 < pbx,
            a_ax == pax * pb,
            a_bx == pbx * pa,
            p == pax * pbx,
    ;

    assert(0 <= qa && qa <= (20000 - bps) * (20000 - bps) * p) by (nonlinear_arith)
        requires
            0 <= bps <= 10000,
            0 <= a_ax,
            a_ax <= p,
            0 <= a_bx,
            a_bx <= p,
            qa == bps * bps * a_ax + 4 * (10000 - bps) * 10000 * a_bx,
    ;

    lemma_int_sqrt(a_ax as nat);
    lemma_int_sqrt(qa as nat);

    assert((sa * sq) * (sa * sq) <= ((20000 - bps) * p) * ((20000 - bps) * p))
        by (nonlinear_arith)
        requires
            0 <= sa,
            0 <= sq,
            sa * sa <= a_ax,
            sq * sq <= qa,
            0 <= a_ax,
            a_ax <= p,
            0 <= qa,
            qa <= (20000 - bps) * (20000 - bps) * p,
            0 <= bps <= 10000,
            0 <= p,
    ;

    lemma_sq_le((sa * sq) as nat, ((20000 - bps) * p) as nat);
    assert(sa * sq <= (20000 - bps) * p);

    assert(qb <= 20000 * p) by (nonlinear_arith)
        requires
            qb == bps * a_ax + sa * sq,
            sa * sq <= (20000 - bps) * p,
            0 <= bps,
            0 <= a_ax,
            a_ax <= p,
            bps <= 20000,
            0 <= p,
    ;

    lemma_div_is_ordered(qb, 20000 * p, 20000);
    lemma_div_by_multiple(p, 20000);
    assert(20000 * p == p * 20000) by (nonlinear_arith);
    assert(qb / 20000 <= p);

    lemma_div_is_ordered(qb / 20000, p, pbx);
    lemma_div_by_multiple(pax, pbx);
    assert(p / pbx == pax);
    assert(spec_swap_raw(aa, ab, pa, pb, bps) <= pax);
}

/// The optimal amount of the excess asset to swap so that, after the
/// swap, the two provisional amounts match the pool's ratio.
///
/// `amount_a` and `amount_b` are the provisional deposits, oriented so
/// that side `a` is in excess; `pool_a` and `pool_b` are the current
/// reserves; the commission is in basis points.  The result is exactly
/// the closed-form root `b / 20000 / (amount_b + pool_b) - pool_a`,
/// floored and saturating at zero, or an overflow error precisely when an
/// intermediate leaves 256 bits or the result leaves 128 bits.
pub fn get_swap_amount(
    amount_a: u128,
    amount_b: u128,
    pool_a: u128,
    pool_b: u128,
    commission_bps: u64,
) -> (r: Result<u128, ContractError>)
    requires
        commission_bps <= COMMISSION_DENOM,
        amount_b + pool_b > 0,
    ensures
        r is Ok <==> (swap_amount_in_range(
            amount_a as int,
            amount_b as int,
            pool_a as int,
            pool_b as int,
            commission_bps as int,
        ) && spec_swap_amount(
            amount_a as int,
            amount_b as int,
            pool_a as int,
            pool_b as int,
            commission_bps as int,
        ) < u128_bound()),
        r matches Ok(s) ==> s == spec_swap_amount(
            amount_a as int,
            amount_b as int,
            pool_a as int,
            pool_b as int,
            commission_bps as int,
        ),
        r matches Ok(s) ==> s <= amount_a,
        r matches Err(e) ==> e is Overflow,
{
    proof {
        lemma_swap_amount_le_excess(
            amount_a as int,
            amount_b as int,
            pool_a as int,
            pool_b as int,
            commission_bps as int,
        );
    }
    let w_aa = w256_from_u128(amount_a);
    let w_ab = w256_from_u128(amount_b);
    let w_pa = w256_from_u128(pool_a);
    let w_pb = w256_from_u128(pool_b);

    let pool_ax = match w256_add(&w_aa, &w_pa) {
        Some(v) => v,
        None => {
            return Err(ContractError::Overflow);
        },
    };
    let pool_bx = match w256_add(&w_ab, &w_pb) {
        Some(v) => v,
        None => {
            return Err(ContractError::Overflow);
        },
    };
    let area_ax = match w256_mul(&pool_ax, &w_pb) {
        Some(v) => v,
        None => {
            return Err(ContractError::Overflow);
        },
    };
    let area_bx = match w256_mul(&pool_bx, &w_pa) {
        Some(v) => v,
        None => {
            return Err(ContractError::Overflow);
        },
    };

    proof {
        assert(commission_bps * commission_bps <= 10000 * 10000) by (nonlinear_arith)
            requires
                commission_bps <= 10000,
        ;
    }
    let c1: u64 = commission_bps * commission_bps;
    let c2: u64 = 4 * (COMMISSION_DENOM - commission_bps) * COMMISSION_DENOM;
    let w_c1 = w256_from_u128(c1 as u128);
    let w_c2 = w256_from_u128(c2 as u128);

    let t1 = match w256_mul(&w_c1, &area_ax) {
        Some(v) => v,
        None => {
            return Err(ContractError::Overflow);
        },
    };
    let t2 = match w256_mul(&w_c2, &area_bx) {
        Some(v) => v,
        None => {
            return Err(ContractError::Overflow);
        },
    };
    let quad_a = match w256_add(&t1, &t2) {
        Some(v) => v,
        None => {
            return Err(ContractError::Overflow);
        },
    };

    let w_bps = w256_from_u128(commission_bps as u128);
    let t3 = match w256_mul(&w_bps, &area_ax) {
        Some(v) => v,
        None => {
            return Err(ContractError::Overflow);
        },
    };

    let s_ax = w256_isqrt(&area_ax);
    let s_qa = w256_isqrt(&quad_a);
    proof {
        lemma_w256_range(s_ax);
        lemma_w256_range(s_qa);
        lemma_w256_range(area_ax);
        lemma_w256_range(quad_a);
        lemma_int_sqrt_unique(area_ax@ as nat, s_ax@ as nat);
        lemma_int_sqrt_unique(quad_a@ as nat, s_qa@ as nat);
    }
    let t4 = match w256_mul(&s_ax, &s_qa) {
        Some(v) => v,
        None => {
            return Err(ContractError::Overflow);
        },
    };
    let quad_b = match w256_add(&t3, &t4) {
        Some(v) => v,
        None => {
            return Err(ContractError::Overflow);
        },
    };

    let w_two_denom = w256_from_u128((2 * COMMISSION_DENOM) as u128);
    let d1 = match w256_div(&quad_b, &w_two_denom) {
        Some(v) => v,
        None => {
            return Err(ContractError::Overflow);
        },
    };
    let d2 = match w256_div(&d1, &pool_bx) {
        Some(v) => v,
        None => {
            return Err(ContractError::Overflow);
        },
    };

    let result = match w256_sub(&d2, &w_pa) {
        Some(v) => v,
        None => w256_from_u128(0),
    };

    match w256_to_u128(&result) {
        Some(v) => Ok(v),
        None => Err(ContractError::Overflow),
    }
}

/// Output of the pool before commission, in atomic decimal units then
/// floored back to whole units:
/// `(ask_pool - offer_pool * ask_pool / (offer_pool + offer_amount))`.
pub open spec fn spec_sim_gross(op: int, ap: int, oa: int) -> int {
    (ap * (DEC_DENOM as int) - (op * ap * (DEC_DENOM as int)) / (op + oa)) / (DEC_DENOM as int)
}

/// Output of the pool after the commission `rate / 10^18` is removed.
pub open spec fn spec_sim_return(op: int, ap: int, oa: int, rate: int) -> int {
    spec_sim_gross(op, ap, oa) - (spec_sim_gross(op, ap, oa) * rate) / (DEC_DENOM as int)
}

/// Simulates a constant-product swap: offering `offer_amount` against
/// reserves `(offer_pool, ask_pool)` returns the gross constant-product
/// output less the fixed-point commission.  The result never exceeds
/// `ask_pool`, so it always fits the output width and the call always
/// succeeds.
pub fn simulate(
    offer_pool: u128,
    ask_pool: u128,
    offer_amount: u128,
    commission_rate: Dec,
) -> (r: Result<u128, ContractError>)
    requires
        offer_pool + offer_amount > 0,
        commission_rate.atomics <= DEC_DENOM,
    ensures
        r is Ok,
        r matches Ok(v) ==> v == spec_sim_return(
            offer_pool as int,
            ask_pool as int,
            offer_amount as int,
            commission_rate.atomics as int,
        ),
        r matches Ok(v) ==> v <= ask_pool,
{
    let ghost op = offer_pool as int;
    let ghost ap = ask_pool as int;
    let ghost oa = offer_amount as int;
    let ghost e = DEC_DENOM as int;

    let w_op = w256_from_u128(offer_pool);
    let w_ap = w256_from_u128(ask_pool);
    let w_oa = w256_from_u128(offer_amount);
    let w_e = w256_from_u128(DEC_DENOM);

    proof {
        assert(u128_bound() * u128_bound() == u256_bound()) by (nonlinear_arith);
        assert(op * ap < u256_bound()) by (nonlinear_arith)
            requires
                0 <= op < u128_bound(),
                0 <= ap < u128_bound(),
                u128_bound() * u128_bound() == u256_bound(),
        ;
    }
    let cp = match w256_mul(&w_op, &w_ap) {
        Some(v) => v,
        None => {
            return Err(ContractError::Overflow);
        },
    };
    let sum = match w256_add(&w_op, &w_oa) {
        Some(v) => v,
        None => {
            return Err(ContractError::Overflow);
        },
    };

    proof {
        // cp * e / sum <= ap * e < 2^256
        assert(cp@ * w_e@ <= (ap * w_e@) * sum@) by (nonlinear_arith)
            requires
                cp@ == op * ap,
                sum@ == op + oa,
                0 <= op,
                0 <= oa,
                0 <= ap,
                0 <= w_e@,
                0 < sum@,
        ;
        lemma_div_is_ordered(cp@ * w_e@, (ap * w_e@) * sum@, sum@);
        lemma_div_by_multiple(ap * w_e@, sum@);
        assert(ap * w_e@ < u256_bound()) by (nonlinear_arith)
            requires
                0 <= ap < u128_bound(),
                w_e@ == DEC_DENOM,
                u128_bound() * u128_bound() == u256_bound(),
        ;
        lemma_div_pos_is_pos(cp@ * w_e@, sum@);
        assert(cp@ * w_e@ >= 0) by (nonlinear_arith)
            requires
                cp@ >= 0,
                w_e@ >= 0,
        ;
    }
    let d2 = match w256_mul_ratio(&cp, &w_e, &sum) {
        Some(v) => v,
        None => {
            return Err(ContractError::Overflow);
        },
    };
    let d1 = match w256_mul(&w_ap, &w_e) {
        Some(v) => v,
        None => {
            return Err(ContractError::Overflow);
        },
    };
    let diff = match w256_sub(&d1, &d2) {
        Some(v) => v,
        None => {
            return Err(ContractError::Overflow);
        },
    };
    let gross = match w256_div(&diff, &w_e) {
        Some(v) => v,
        None => {
            return Err(ContractError::Overflow);
        },
    };

    proof {
        // gross <= ap
        lemma_div_is_ordered(diff@, ap * e, e);
        lemma_div_by_multiple(ap, e);
        assert(ap * e == e * ap) by (nonlinear_arith);
        assert((ap * e) / e == ap);
        assert(gross@ <= ap);
        // commission fits and stays below gross
        assert(gross@ * commission_rate.atomics <= gross@ * e) by (nonlinear_arith)
            requires
                0 <= gross@,
                commission_rate.atomics <= e,
                0 <= commission_rate.atomics,
        ;
        lemma_div_is_ordered(gross@ * commission_rate.atomics, gross@ * e, e);
        lemma_div_by_multiple(gross@, e);
        assert(gross@ * e == e * gross@) by (nonlinear_arith);
        assert((gross@ * e) / e == gross@);
        lemma_div_pos_is_pos(gross@ * commission_rate.atomics, e);
        assert(gross@ * commission_rate.atomics >= 0) by (nonlinear_arith)
            requires
                gross@ >= 0,
                commission_rate.atomics >= 0,
        ;
    }
    let w_rate = w256_from_u128(commission_rate.atomics);
    let commission = match w256_mul_ratio(&gross, &w_rate, &w_e) {
        Some(v) => v,
        None => {
            return Err(ContractError::Overflow);
        },
    };
    let ret = match w256_sub(&gross, &commission) {
        Some(v) => v,
        None => {
            return Err(ContractError::Overflow);
        },
    };

    match w256_to_u128(&ret) {
        Some(v) => Ok(v),
        None => Err(ContractError::Overflow),
    }
}

} // verus!
