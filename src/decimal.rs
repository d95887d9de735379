//! Fixed-point prices with 18 decimal places, and the integer arithmetic that the
//! solver performs on them through cosmwasm-std's `Decimal`.
use vstd::prelude::*;

verus! {

/// Number of atomic units in one whole unit of a price.
pub const FRACTIONAL: u128 = 1_000_000_000_000_000_000;

/// Largest value an amount may take.
pub open spec fn amount_max() -> int {
    u128::MAX as int
}

/// A relative price with 18 decimal places: `atomics / 10^18` units of asset0 per unit
/// of asset1.
#[derive(Clone, Copy, Debug, PartialEq, Eq)]
pub struct Price {
    pub atomics: u128,
}

impl Price {
    /// The price `x / 100`.
    pub fn percent(x: u64) -> (r: Price)
        ensures
            r.atomics == x as int * 10_000_000_000_000_000,
    {
        Price { atomics: x as u128 * 10_000_000_000_000_000 }
    }

    /// The price `1`.
    pub fn one() -> (r: Price)
        ensures
            r.atomics == FRACTIONAL,
    {
        Price { atomics: FRACTIONAL }
    }

    /// The price with the given number of atomic units.
    pub fn from_atomics(atomics: u128) -> (r: Price)
        ensures
            r.atomics == atomics,
    {
        Price { atomics }
    }
}

/// `⌊a · n / 10^18⌋`: an amount times a fixed-point number, rounded down.
pub open spec fn mul_fraction(a: int, n: int) -> int {
    a * n / FRACTIONAL as int
}

/// `⌊n · 10^18 / d⌋`: the atomics of the fixed-point ratio `n / d`, rounded down.
pub open spec fn ratio_atomics(n: int, d: int) -> int {
    n * FRACTIONAL as int / d
}

/// Relies on `Uint128::checked_mul_floor` with a `Decimal`: the full 256-bit product
/// `a · atomics`, divided by 10^18, and an error when that does not fit in 128 bits.
/// This is the value of `Decimal * Uint128` where that does not panic.
#[verifier::external_body]
fn checked_mul_floor(a: u128, atomics: u128) -> (r: Option<u128>)
    ensures
        mul_fraction(a as int, atomics as int) <= amount_max() ==> r == Some(
            mul_fraction(a as int, atomics as int) as u128,
        ),
        mul_fraction(a as int, atomics as int) > amount_max() ==> r.is_none(),
{
    cosmwasm_std::Uint128::new(a).checked_mul_floor(cosmwasm_std::Decimal::raw(atomics)).ok().map(
        |v| v.u128(),
    )
}

/// Relies on `Decimal::checked_from_ratio`: the atomics `⌊n · 10^18 / d⌋` of the ratio,
/// and an error when `d` is zero or the result does not fit in 128 bits.
#[verifier::external_body]
fn checked_from_ratio(n: u128, d: u128) -> (r: Option<u128>)
    ensures
        d != 0 && ratio_atomics(n as int, d as int) <= amount_max() ==> r == Some(
            ratio_atomics(n as int, d as int) as u128,
        ),
        d == 0 || ratio_atomics(n as int, d as int) > amount_max() ==> r.is_none(),
{
    cosmwasm_std::Decimal::checked_from_ratio(n, d).ok().map(|v| v.atomics().u128())
}

/// `⌊a · p⌋` for the price `p`: the amount times the price, rounded down.
pub open spec fn times_price(a: int, price: Price) -> int {
    mul_fraction(a, price.atomics as int)
}

/// `⌊a / p⌋` for the price `p`: the amount divided by the price, rounded down.
pub open spec fn over_price(a: int, price: Price) -> int {
    ratio_atomics(a, price.atomics as int)
}

/// When `a / p` can be computed: the price is positive and the quotient fits in `u128`.
pub open spec fn over_price_fits(a: int, price: Price) -> bool {
    price.atomics > 0 && over_price(a, price) <= amount_max()
}

/// The amount times the price, rounded down; `None` when the result exceeds `u128`.
pub fn mul_price(a: u128, price: Price) -> (r: Option<u128>)
    ensures
        times_price(a as int, price) <= amount_max() ==> r == Some(
            times_price(a as int, price) as u128,
        ),
        times_price(a as int, price) > amount_max() ==> r.is_none(),
{
    checked_mul_floor(a, price.atomics)
}

/// The amount divided by the price, rounded down; `None` when the price is zero or the
/// quotient exceeds `u128`. As `⌊a / (P / 10^18)⌋ == ⌊a · 10^18 / P⌋`, this is the
/// atomics of the decimal ratio `a / P`.
pub fn div_price(a: u128, price: Price) -> (r: Option<u128>)
    ensures
        over_price_fits(a as int, price) ==> r == Some(over_price(a as int, price) as u128),
        !over_price_fits(a as int, price) ==> r.is_none(),
{
    checked_from_ratio(a, price.atomics)
}

/// `2^128`.
pub open spec fn half_base() -> int {
    u128::MAX as int + 1
}

/// `2^256`, the bound of a [`Wide`] number.
pub open spec fn wide_base() -> int {
    half_base() * half_base()
}

/// An unsigned 256-bit number, `hi · 2^128 + lo`.
#[derive(Clone, Copy, Debug, PartialEq, Eq)]
pub struct Wide {
    pub hi: u128,
    pub lo: u128,
}

/// The value of a 256-bit number.
pub open spec fn wide_value(w: Wide) -> int {
    w.hi as int * half_base() + w.lo as int
}

/// Relies on `Uint128::full_mul`: the exact 256-bit product of two 128-bit numbers.
#[verifier::external_body]
pub(crate) fn full_mul(a: u128, b: u128) -> (r: Wide)
    ensures
        wide_value(r) == a as int * b as int,
{
    let bytes = cosmwasm_std::Uint128::new(a).full_mul(b).to_be_bytes();
    let (mut hi, mut lo) = ([0u8; 16], [0u8; 16]);
    hi.copy_from_slice(&bytes[..16]);
    lo.copy_from_slice(&bytes[16..]);
    Wide { hi: u128::from_be_bytes(hi), lo: u128::from_be_bytes(lo) }
}

/// Relies on `Uint256::checked_multiply_ratio`: `⌊x · n / d⌋` from a 512-bit product,
/// and an error when `d` is zero (the quotient of two 128-bit factors always fits).
#[verifier::external_body]
pub(crate) fn checked_multiply_ratio(x: u128, n: u128, d: Wide) -> (r: Option<Wide>)
    ensures
        wide_value(d) == 0 ==> r.is_none(),
        wide_value(d) != 0 ==> r.is_some(),
        r.is_some() ==> wide_value(r.unwrap()) == x as int * n as int / wide_value(d),
{
    let mut bytes = [0u8; 32];
    bytes[..16].copy_from_slice(&d.hi.to_be_bytes());
    bytes[16..].copy_from_slice(&d.lo.to_be_bytes());
    let divisor = cosmwasm_std::Uint256::from_be_bytes(bytes);
    let q = cosmwasm_std::Uint256::from(x).checked_multiply_ratio(n, divisor).ok()?.to_be_bytes();
    let (mut hi, mut lo) = ([0u8; 16], [0u8; 16]);
    hi.copy_from_slice(&q[..16]);
    lo.copy_from_slice(&q[16..]);
    Some(Wide { hi: u128::from_be_bytes(hi), lo: u128::from_be_bytes(lo) })
}

/// The sum of two 256-bit numbers; `None` when it reaches `2^256`.
pub fn wide_add(a: Wide, b: Wide) -> (r: Option<Wide>)
    ensures
        wide_value(a) + wide_value(b) < wide_base() ==> r.is_some() && wide_value(r.unwrap())
            == wide_value(a) + wide_value(b),
        wide_value(a) + wide_value(b) >= wide_base() ==> r.is_none(),
{
    let (lo, carry) = if a.lo <= u128::MAX - b.lo {
        (a.lo + b.lo, 0u128)
    } else {
        (a.lo - (u128::MAX - b.lo) - 1, 1u128)
    };
    assert(a.lo as int + b.lo as int == lo as int + carry as int * half_base());
    let hi = match a.hi.checked_add(b.hi) {
        Some(h) => match h.checked_add(carry) {
            Some(h) => h,
            None => {
                assert(wide_value(a) + wide_value(b) >= wide_base()) by (nonlinear_arith)
                    requires
                        a.hi as int + b.hi as int + carry as int >= half_base(),
                        wide_value(a) == a.hi as int * half_base() + a.lo as int,
                        wide_value(b) == b.hi as int * half_base() + b.lo as int,
                        a.lo as int + b.lo as int == lo as int + carry as int * half_base(),
                        lo >= 0,
                        wide_base() == half_base() * half_base(),
                ;
                return None;
            },
        },
        None => {
            assert(wide_value(a) + wide_value(b) >= wide_base()) by (nonlinear_arith)
                requires
                    a.hi as int + b.hi as int >= half_base(),
                    wide_value(a) == a.hi as int * half_base() + a.lo as int,
                    wide_value(b) == b.hi as int * half_base() + b.lo as int,
                    a.lo >= 0,
                    b.lo >= 0,
                    wide_base() == half_base() * half_base(),
            ;
            return None;
        },
    };
    let r = Wide { hi, lo };
    assert(wide_value(r) == wide_value(a) + wide_value(b)) by (nonlinear_arith)
        requires
            hi as int == a.hi as int + b.hi as int + carry as int,
            a.lo as int + b.lo as int == lo as int + carry as int * half_base(),
            wide_value(r) == hi as int * half_base() + lo as int,
            wide_value(a) == a.hi as int * half_base() + a.lo as int,
            wide_value(b) == b.hi as int * half_base() + b.lo as int,
    ;
    assert(wide_value(r) < wide_base()) by (nonlinear_arith)
        requires
            wide_value(r) == hi as int * half_base() + lo as int,
            hi < half_base(),
            lo < half_base(),
            wide_base() == half_base() * half_base(),
    ;
    Some(r)
}

} // verus!
