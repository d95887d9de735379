//! The ratio solver: the single swap that brings two balances into a target ratio.
use vstd::prelude::*;
use vstd::arithmetic::div_mod::{
    lemma_div_multiples_vanish_quotient, lemma_fundamental_div_mod, lemma_mod_bound,
};
use crate::decimal::{
    amount_max, checked_multiply_ratio, div_price, full_mul, mul_price, over_price, times_price,
    wide_add, wide_base, wide_value, Price, FRACTIONAL,
};

verus! {

/// Which of the two pool assets a swap offers.
#[derive(Clone, Copy, Debug, PartialEq, Eq)]
pub enum Side {
    Asset0,
    Asset1,
}

/// What the solver decides: offer `amount` of `offer`, and deposit `result0`/`result1`.
#[derive(Clone, Copy, Debug, PartialEq, Eq)]
pub struct SwapPlan {
    pub offer: Side,
    pub amount: u128,
    pub result0: u128,
    pub result1: u128,
}

/// Why the solver could not compute a plan.
#[derive(Clone, Copy, Debug, PartialEq, Eq)]
pub enum ArithmeticError {
    /// A step of the computation left the 128-bit range.
    Overflow,
    /// The divisor of the swap amount is zero.
    DivideByZero,
}

/// asset0 is scarce relative to the target ratio: `x0 · t1 < x1 · t0`.
pub open spec fn asset0_scarce(x0: int, x1: int, t0: int, t1: int) -> bool {
    x0 * t1 < x1 * t0
}

/// The side that the swap offers: asset1 when asset0 is scarce, asset0 otherwise
/// (also when the ratio already matches).
pub open spec fn offered_side(x0: int, x1: int, t0: int, t1: int) -> Side {
    if asset0_scarce(x0, x1, t0, t1) {
        Side::Asset1
    } else {
        Side::Asset0
    }
}

/// The divisor of the swap amount, scaled so that it is an integer: `(t0 + p·t1)·10^18`,
/// that is `t0·10^18 + P·t1` with `P` the price's atomics, when offering asset1; and
/// `(t1 + t0/p)·P`, that is `t1·P + t0·10^18`, when offering asset0.
pub open spec fn swap_divisor(x0: int, x1: int, t0: int, t1: int, price: Price) -> int {
    let p = price.atomics as int;
    if asset0_scarce(x0, x1, t0, t1) {
        t0 * FRACTIONAL as int + p * t1
    } else {
        t1 * p + t0 * FRACTIONAL as int
    }
}

/// The amount offered: `⌊(x1·t0 − x0·t1) / (t0 + p·t1)⌋` when offering asset1 and
/// `⌊(x0·t1 − x1·t0) / (t1 + t0/p)⌋` when offering asset0, the price kept in full
/// fixed-point precision.
pub open spec fn swap_amount(x0: int, x1: int, t0: int, t1: int, price: Price) -> int {
    if asset0_scarce(x0, x1, t0, t1) {
        (x1 * t0 - x0 * t1) * FRACTIONAL as int / swap_divisor(x0, x1, t0, t1, price)
    } else {
        (x0 * t1 - x1 * t0) * price.atomics as int / swap_divisor(x0, x1, t0, t1, price)
    }
}

/// The balance of asset0 after the swap.
pub open spec fn result_balance0(x0: int, x1: int, t0: int, t1: int, price: Price) -> int {
    let y = swap_amount(x0, x1, t0, t1, price);
    if asset0_scarce(x0, x1, t0, t1) {
        x0 + times_price(y, price)
    } else {
        x0 - y
    }
}

/// The balance of asset1 after the swap.
pub open spec fn result_balance1(x0: int, x1: int, t0: int, t1: int, price: Price) -> int {
    let y = swap_amount(x0, x1, t0, t1, price);
    if asset0_scarce(x0, x1, t0, t1) {
        x1 - y
    } else {
        x1 + over_price(y, price)
    }
}

/// The cross products fit in `u128` and the scaled divisor in 256 bits.
pub open spec fn divisor_fits(x0: int, x1: int, t0: int, t1: int, price: Price) -> bool {
    &&& x0 * t1 <= amount_max()
    &&& x1 * t0 <= amount_max()
    &&& swap_divisor(x0, x1, t0, t1, price) < wide_base()
}

/// The solver can compute a plan: the cross products fit, the divisor is not zero (both
/// targets zero), and the balance that gains fits in `u128`.
pub open spec fn solvable(x0: int, x1: int, t0: int, t1: int, price: Price) -> bool {
    &&& divisor_fits(x0, x1, t0, t1, price)
    &&& swap_divisor(x0, x1, t0, t1, price) != 0
    &&& if asset0_scarce(x0, x1, t0, t1) {
        result_balance0(x0, x1, t0, t1, price) <= amount_max()
    } else {
        result_balance1(x0, x1, t0, t1, price) <= amount_max()
    }
}

/// The divisor of the swap amount is computed and is zero.
pub open spec fn zero_denominator(x0: int, x1: int, t0: int, t1: int, price: Price) -> bool {
    divisor_fits(x0, x1, t0, t1, price) && swap_divisor(x0, x1, t0, t1, price) == 0
}

/// The error that the solver reports where it cannot compute a plan.
pub open spec fn solve_error(x0: int, x1: int, t0: int, t1: int, price: Price) -> ArithmeticError {
    if zero_denominator(x0, x1, t0, t1, price) {
        ArithmeticError::DivideByZero
    } else {
        ArithmeticError::Overflow
    }
}

/// The plan that the solver returns on these inputs.
pub open spec fn plan_matches(plan: SwapPlan, x0: int, x1: int, t0: int, t1: int, price: Price) -> bool {
    &&& plan.offer == offered_side(x0, x1, t0, t1)
    &&& plan.amount == swap_amount(x0, x1, t0, t1, price)
    &&& plan.result0 == result_balance0(x0, x1, t0, t1, price)
    &&& plan.result1 == result_balance1(x0, x1, t0, t1, price)
}

/// `y = ⌊n·m / d⌋` with `d ≥ t·m` and `n ≤ x·t` gives `y ≤ x`.
proof fn lemma_quotient_bound(n: int, m: int, d: int, x: int, t: int)
    requires
        0 <= n <= x * t,
        m > 0,
        t > 0,
        x >= 0,
        d >= t * m,
    ensures
        0 <= n * m / d <= x,
{
    let y = n * m / d;
    assert(d > 0) by (nonlinear_arith)
        requires
            d >= t * m,
            t > 0,
            m > 0,
    ;
    assert(n * m >= 0) by (nonlinear_arith)
        requires
            n >= 0,
            m > 0,
    ;
    lemma_fundamental_div_mod(n * m, d);
    lemma_mod_bound(n * m, d);
    assert(0 <= y <= x) by (nonlinear_arith)
        requires
            n * m == d * y + (n * m) % d,
            0 <= (n * m) % d < d,
            n <= x * t,
            d >= t * m,
            t > 0,
            m > 0,
            n >= 0,
    ;
}

/// Computes the swap that brings held balances `x0`, `x1` into the ratio `t0 : t1`, at
/// `price` units of asset0 per unit of asset1.
///
/// When `x0 · t1 < x1 · t0` it offers `⌊(x1·t0 − x0·t1) / (t0 + p·t1)⌋` of asset1 and
/// asset0 gains that amount times the price; otherwise it offers
/// `⌊(x0·t1 − x1·t0) / (t1 + t0/p)⌋` of asset0 and asset1 gains that amount over the
/// price. The divisors keep the price's full precision (they are computed in 256 bits);
/// only the results are rounded down. The offered side loses exactly the amount offered.
pub fn solve(x0: u128, x1: u128, t0: u128, t1: u128, price: Price) -> (r: Result<
    SwapPlan,
    ArithmeticError,
>)
    requires
        price.atomics > 0,
    ensures
        r.is_ok() <==> solvable(x0 as int, x1 as int, t0 as int, t1 as int, price),
        r matches Ok(plan) ==> plan_matches(plan, x0 as int, x1 as int, t0 as int, t1 as int, price),
        r matches Err(e) ==> e == solve_error(x0 as int, x1 as int, t0 as int, t1 as int, price),
{
    let ghost (gx0, gx1, gt0, gt1) = (x0 as int, x1 as int, t0 as int, t1 as int);
    let ghost s = FRACTIONAL as int;
    let ghost p = price.atomics as int;
    let l = match x0.checked_mul(t1) {
        Some(v) => v,
        None => {
            return Err(ArithmeticError::Overflow);
        },
    };
    let rr = match x1.checked_mul(t0) {
        Some(v) => v,
        None => {
            return Err(ArithmeticError::Overflow);
        },
    };
    let scarce = l < rr;
    let divisor = if scarce {
        wide_add(full_mul(t0, FRACTIONAL), full_mul(price.atomics, t1))
    } else {
        wide_add(full_mul(t1, price.atomics), full_mul(t0, FRACTIONAL))
    };
    let divisor = match divisor {
        Some(d) => d,
        None => {
            return Err(ArithmeticError::Overflow);
        },
    };
    let (gap, scale) = if scarce {
        (rr - l, FRACTIONAL)
    } else {
        (l - rr, price.atomics)
    };
    let q = match checked_multiply_ratio(gap, scale, divisor) {
        Some(q) => q,
        None => {
            return Err(ArithmeticError::DivideByZero);
        },
    };
    let ghost y = wide_value(q);
    proof {
        if scarce {
            assert(gt0 > 0) by (nonlinear_arith)
                requires
                    gx0 * gt1 < gx1 * gt0,
                    gx0 >= 0,
                    gt1 >= 0,
                    gx1 >= 0,
                    gt0 >= 0,
            ;
            assert(p * gt1 >= 0) by (nonlinear_arith)
                requires
                    p > 0,
                    gt1 >= 0,
            ;
            assert(gx1 * gt0 == gt0 * gx1) by (nonlinear_arith);
            lemma_quotient_bound(gap as int, s, wide_value(divisor), gx1, gt0);
        } else if gt1 > 0 {
            assert(gt0 * s >= 0) by (nonlinear_arith)
                requires
                    gt0 >= 0,
                    s > 0,
            ;
            assert(gx0 * gt1 == gt1 * gx0) by (nonlinear_arith);
            assert(gt1 * p == p * gt1) by (nonlinear_arith);
            lemma_quotient_bound(gap as int, p, wide_value(divisor), gx0, gt1);
        } else {
            assert(gx0 * gt1 == 0 && gap == 0) by (nonlinear_arith)
                requires
                    gt1 == 0,
                    gap as int == gx0 * gt1 - gx1 * gt0,
                    gx1 * gt0 >= 0,
            ;
            assert(0 * p / wide_value(divisor) == 0);
        }
        assert(q.hi == 0) by (nonlinear_arith)
            requires
                wide_value(q) == q.hi as int * (u128::MAX as int + 1) + q.lo as int,
                wide_value(q) <= u128::MAX as int,
                q.lo >= 0,
                q.hi >= 0,
        ;
    }
    let y = q.lo;
    if scarce {
        let gained = match mul_price(y, price) {
            Some(v) => v,
            None => {
                return Err(ArithmeticError::Overflow);
            },
        };
        let result0 = match x0.checked_add(gained) {
            Some(v) => v,
            None => {
                return Err(ArithmeticError::Overflow);
            },
        };
        Ok(SwapPlan { offer: Side::Asset1, amount: y, result0, result1: x1 - y })
    } else {
        let gained = match div_price(y, price) {
            Some(v) => v,
            None => {
                return Err(ArithmeticError::Overflow);
            },
        };
        let result1 = match x1.checked_add(gained) {
            Some(v) => v,
            None => {
                return Err(ArithmeticError::Overflow);
            },
        };
        Ok(SwapPlan { offer: Side::Asset0, amount: y, result0: x0 - y, result1 })
    }
}

/// The gap left after a swap of `y`, scaled by `m`: with `n·m = d·y + r1`,
/// `d = c·m + k·e` and `y·k = m·g + r2`, `((u − y)·c − (v + g)·e)·m == r1 + e·r2`.
proof fn lemma_gap_identity(
    u: int,
    v: int,
    c: int,
    e: int,
    m: int,
    k: int,
    d: int,
    y: int,
    g: int,
    r1: int,
    r2: int,
)
    requires
        (u * c - v * e) * m == d * y + r1,
        d == c * m + k * e,
        y * k == m * g + r2,
    ensures
        ((u - y) * c - (v + g) * e) * m == r1 + e * r2,
{
    let n = u * c - v * e;
    let gap = (u - y) * c - (v + g) * e;
    assert(gap * m == n * m - y * c * m - g * m * e) by (nonlinear_arith)
        requires
            gap == (u - y) * c - (v + g) * e,
            n == u * c - v * e,
    ;
    assert(n * m == c * m * y + k * e * y + r1) by (nonlinear_arith)
        requires
            n * m == d * y + r1,
            d == c * m + k * e,
    ;
    assert(g * m * e == y * k * e - r2 * e) by (nonlinear_arith)
        requires
            y * k == m * g + r2,
    ;
    assert(gap * m == r1 + e * r2) by (nonlinear_arith)
        requires
            gap * m == n * m - y * c * m - g * m * e,
            n * m == c * m * y + k * e * y + r1,
            g * m * e == y * k * e - r2 * e,
    ;
}

/// Rounding bound: after a successful solve nothing of the cross-product gap is
/// overshot, and what remains is less than the divisor (`t0 + p·t1` when asset0 was
/// scarce, `t1 + t0/p` otherwise), which one more unit of swap would close, plus the
/// offered asset's target. With `d` the integer-scaled divisor of `swap_divisor`:
/// `0 ≤ (result1·t0 − result0·t1)·10^18 < d + t1·10^18` when asset0 was scarce, and
/// `0 ≤ (result0·t1 − result1·t0)·P < d + t0·P` otherwise, `P` the price's atomics.
pub proof fn lemma_rounding_bound(x0: u128, x1: u128, t0: u128, t1: u128, price: Price)
    requires
        price.atomics > 0,
        solvable(x0 as int, x1 as int, t0 as int, t1 as int, price),
    ensures
        ({
            let (a0, a1, b0, b1) = (x0 as int, x1 as int, t0 as int, t1 as int);
            let r0 = result_balance0(a0, a1, b0, b1, price);
            let r1 = result_balance1(a0, a1, b0, b1, price);
            let d = swap_divisor(a0, a1, b0, b1, price);
            let s = FRACTIONAL as int;
            let p = price.atomics as int;
            &&& asset0_scarce(a0, a1, b0, b1) ==> 0 <= r1 * b0 - r0 * b1 && (r1 * b0 - r0 * b1)
                * s < d + b1 * s
            &&& !asset0_scarce(a0, a1, b0, b1) ==> 0 <= r0 * b1 - r1 * b0 && (r0 * b1 - r1 * b0)
                * p < d + b0 * p
        }),
{
    let (a0, a1, b0, b1) = (x0 as int, x1 as int, t0 as int, t1 as int);
    let s = FRACTIONAL as int;
    let p = price.atomics as int;
    let y = swap_amount(a0, a1, b0, b1, price);
    let d = swap_divisor(a0, a1, b0, b1, price);
    assert(d > 0) by (nonlinear_arith)
        requires
            d != 0,
            d == if asset0_scarce(a0, a1, b0, b1) { b0 * s + p * b1 } else { b1 * p + b0 * s },
            b0 >= 0,
            b1 >= 0,
            p > 0,
            s > 0,
    ;
    if asset0_scarce(a0, a1, b0, b1) {
        let n = a1 * b0 - a0 * b1;
        assert(n * s >= 0) by (nonlinear_arith)
            requires
                n > 0,
                s > 0,
        ;
        lemma_fundamental_div_mod(n * s, d);
        lemma_mod_bound(n * s, d);
        assert(y >= 0) by (nonlinear_arith)
            requires
                y == n * s / d,
                n * s >= 0,
                d > 0,
        ;
        assert(y * p >= 0) by (nonlinear_arith)
            requires
                y >= 0,
                p > 0,
        ;
        lemma_fundamental_div_mod(y * p, s);
        lemma_mod_bound(y * p, s);
        let g = y * p / s;
        let gap = (a1 - y) * b0 - (a0 + g) * b1;
        lemma_gap_identity(a1, a0, b0, b1, s, p, d, y, g, (n * s) % d, (y * p) % s);
        assert(0 <= gap && gap * s < d + b1 * s) by (nonlinear_arith)
            requires
                gap * s == (n * s) % d + b1 * ((y * p) % s),
                0 <= (n * s) % d < d,
                0 <= (y * p) % s < s,
                b1 >= 0,
                s > 0,
        ;
    } else {
        let n = a0 * b1 - a1 * b0;
        assert(n * p >= 0) by (nonlinear_arith)
            requires
                n >= 0,
                p > 0,
        ;
        lemma_fundamental_div_mod(n * p, d);
        lemma_mod_bound(n * p, d);
        assert(y >= 0) by (nonlinear_arith)
            requires
                y == n * p / d,
                n * p >= 0,
                d > 0,
        ;
        assert(y * s >= 0) by (nonlinear_arith)
            requires
                y >= 0,
                s > 0,
        ;
        lemma_fundamental_div_mod(y * s, p);
        lemma_mod_bound(y * s, p);
        let g = y * s / p;
        let gap = (a0 - y) * b1 - (a1 + g) * b0;
        lemma_gap_identity(a0, a1, b1, b0, p, s, d, y, g, (n * p) % d, (y * s) % p);
        assert(0 <= gap && gap * p < d + b0 * p) by (nonlinear_arith)
            requires
                gap * p == (n * p) % d + b0 * ((y * s) % p),
                0 <= (n * p) % d < d,
                0 <= (y * s) % p < p,
                b0 >= 0,
                p > 0,
        ;
    }
}

/// A balanced input is left alone: when `x0 · t1 == x1 · t0` (also when no funds are
/// held) the solve succeeds wherever its divisor fits, the swap amount is zero and the
/// resulting balances are the held balances.
pub proof fn lemma_balanced_is_noop(x0: u128, x1: u128, t0: u128, t1: u128, price: Price)
    requires
        price.atomics > 0,
        t0 > 0,
        t1 > 0,
        x0 as int * t1 as int == x1 as int * t0 as int,
        divisor_fits(x0 as int, x1 as int, t0 as int, t1 as int, price),
    ensures
        solvable(x0 as int, x1 as int, t0 as int, t1 as int, price),
        swap_amount(x0 as int, x1 as int, t0 as int, t1 as int, price) == 0,
        result_balance0(x0 as int, x1 as int, t0 as int, t1 as int, price) == x0,
        result_balance1(x0 as int, x1 as int, t0 as int, t1 as int, price) == x1,
{
    let d = swap_divisor(x0 as int, x1 as int, t0 as int, t1 as int, price);
    assert(d > 0) by (nonlinear_arith)
        requires
            d == t1 as int * price.atomics as int + t0 as int * FRACTIONAL as int,
            t1 > 0,
            t0 > 0,
            price.atomics > 0,
    ;
    assert(0int * price.atomics as int == 0);
    assert(0int / d == 0);
    assert(0int * FRACTIONAL as int / price.atomics as int == 0);
}

/// `⌊t·S/p'⌋ == ⌊t·p/S⌋` when `p · p' == S²`: dividing by a price is multiplying by
/// its inverse.
proof fn lemma_inverse_price(t: int, p: int, p_inv: int)
    requires
        t >= 0,
        p > 0,
        p_inv > 0,
        p * p_inv == FRACTIONAL as int * FRACTIONAL as int,
    ensures
        t * FRACTIONAL as int / p_inv == t * p / FRACTIONAL as int,
{
    let s = FRACTIONAL as int;
    assert(t * s >= 0 && t * p >= 0) by (nonlinear_arith)
        requires
            t >= 0,
            p > 0,
            s > 0,
    ;
    lemma_div_multiples_vanish_quotient(p, t * s, p_inv);
    assert(p * (t * s) == s * (t * p)) by (nonlinear_arith);
    lemma_div_multiples_vanish_quotient(s, t * p, s);
}

/// `⌊n·S / (c·S + x·e)⌋ == ⌊n·y / (c·y + e·S)⌋` when `x · y == S²`: the two scalings of
/// the divisor give the same quotient.
proof fn lemma_inverse_divisor(n: int, c: int, e: int, x: int, y: int)
    requires
        n >= 0,
        c >= 0,
        e >= 0,
        x > 0,
        y > 0,
        x * y == FRACTIONAL as int * FRACTIONAL as int,
        c * FRACTIONAL as int + x * e > 0,
    ensures
        n * FRACTIONAL as int / (c * FRACTIONAL as int + x * e) == n * y / (c * y + e
            * FRACTIONAL as int),
{
    let s = FRACTIONAL as int;
    assert(n * s >= 0 && n * y >= 0 && c * y + e * s > 0) by (nonlinear_arith)
        requires
            n >= 0,
            s > 0,
            y > 0,
            c >= 0,
            e >= 0,
            c * s + x * e > 0,
            x > 0,
    ;
    lemma_div_multiples_vanish_quotient(s, n * s, c * s + x * e);
    lemma_div_multiples_vanish_quotient(x, n * y, c * y + e * s);
    assert(s * (n * s) == x * (n * y) && s * (c * s + x * e) == x * (c * y + e * s))
        by (nonlinear_arith)
        requires
            x * y == s * s,
    ;
}

/// Mirror symmetry: exchanging the two assets' balances and targets and inverting the
/// price gives the same swap amount with the resulting balances exchanged, and the
/// other side offered unless the input was already balanced (both solves succeeding).
pub proof fn lemma_mirror(x0: u128, x1: u128, t0: u128, t1: u128, price: Price, inverse: Price)
    requires
        price.atomics > 0,
        inverse.atomics > 0,
        price.atomics as int * inverse.atomics as int == FRACTIONAL as int * FRACTIONAL as int,
        solvable(x0 as int, x1 as int, t0 as int, t1 as int, price),
        solvable(x1 as int, x0 as int, t1 as int, t0 as int, inverse),
    ensures
        ({
            let (a0, a1, b0, b1) = (x0 as int, x1 as int, t0 as int, t1 as int);
            &&& swap_amount(a1, a0, b1, b0, inverse) == swap_amount(a0, a1, b0, b1, price)
            &&& result_balance0(a1, a0, b1, b0, inverse) == result_balance1(a0, a1, b0, b1, price)
            &&& result_balance1(a1, a0, b1, b0, inverse) == result_balance0(a0, a1, b0, b1, price)
            &&& a0 * b1 != a1 * b0 ==> offered_side(a1, a0, b1, b0) != offered_side(a0, a1, b0, b1)
        }),
{
    let (a0, a1, b0, b1) = (x0 as int, x1 as int, t0 as int, t1 as int);
    let p = price.atomics as int;
    let pi = inverse.atomics as int;
    let s = FRACTIONAL as int;
    assert(pi * p == s * s) by (nonlinear_arith)
        requires
            p * pi == s * s,
    ;
    assert(a0 * b1 == b1 * a0 && a1 * b0 == b0 * a1) by (nonlinear_arith);
    let y = swap_amount(a0, a1, b0, b1, price);
    let d = swap_divisor(a0, a1, b0, b1, price);
    let d_inv = swap_divisor(a1, a0, b1, b0, inverse);
    if asset0_scarce(a0, a1, b0, b1) {
        let n = a1 * b0 - a0 * b1;
        assert(!asset0_scarce(a1, a0, b1, b0));
        assert(d_inv == b0 * pi + b1 * s);
        lemma_inverse_divisor(n, b0, b1, p, pi);
        assert(swap_amount(a1, a0, b1, b0, inverse) == y);
        assert(y >= 0) by (nonlinear_arith)
            requires
                y == n * s / d,
                n > 0,
                s > 0,
                d > 0,
        ;
        lemma_inverse_price(y, p, pi);
    } else if a0 * b1 > a1 * b0 {
        let n = a0 * b1 - a1 * b0;
        assert(asset0_scarce(a1, a0, b1, b0));
        assert(d == b1 * p + b0 * s);
        assert(d_inv == b1 * s + pi * b0);
        assert(d_inv > 0) by (nonlinear_arith)
            requires
                d_inv != 0,
                d_inv == b1 * s + pi * b0,
                b1 >= 0,
                b0 >= 0,
                pi > 0,
                s > 0,
        ;
        lemma_inverse_divisor(n, b1, b0, pi, p);
        assert(swap_amount(a1, a0, b1, b0, inverse) == y);
        assert(y >= 0) by (nonlinear_arith)
            requires
                y == n * s / d_inv,
                n > 0,
                s > 0,
                d_inv > 0,
        ;
        lemma_inverse_price(y, pi, p);
    } else {
        assert(d == b1 * p + b0 * s);
        assert(d_inv == b0 * pi + b1 * s);
        assert(0int * p == 0 && 0int * pi == 0);
        assert(0int / d == 0 && 0int / d_inv == 0);
        assert(0int * s / p == 0 && 0int * s / pi == 0);
    }
}

} // verus!
