//! Coins, asset names and the pool's configuration, and the split of a fund set into
//! the swap that rebalances it.
use vstd::prelude::*;
use crate::decimal::Price;
use crate::solver::{
    offered_side, result_balance0, result_balance1, solvable, solve, solve_error, swap_amount,
    ArithmeticError, Side,
};

verus! {

/// An amount of a native denomination.
#[derive(Clone, Debug, PartialEq, Eq)]
pub struct Coin {
    pub denom: String,
    pub amount: u128,
}

impl Coin {
    /// A coin of `amount` units of `denom`.
    pub fn new(amount: u128, denom: &str) -> (r: Coin)
        ensures
            r.amount == amount,
            r.denom@ == denom@,
    {
        Coin { denom: denom.to_owned(), amount }
    }

    /// A field-by-field copy.
    pub fn copied(&self) -> (r: Coin)
        ensures
            r == *self,
    {
        Coin { denom: self.denom.clone(), amount: self.amount }
    }
}

/// `c` with ASCII upper-case letters mapped to lower case.
pub open spec fn ascii_lower_char(c: char) -> char {
    if 'A' <= c && c <= 'Z' {
        ((c as u32) + 32) as char
    } else {
        c
    }
}

/// `s` with ASCII upper-case letters mapped to lower case, other characters kept.
pub open spec fn ascii_lower(s: Seq<char>) -> Seq<char> {
    s.map_values(|c: char| ascii_lower_char(c))
}

/// Relies on `str::to_ascii_lowercase`: each ASCII upper-case letter becomes its
/// lower-case letter; every other character is kept.
#[verifier::external_body]
fn to_ascii_lowercase(s: &str) -> (r: String)
    ensures
        r@ == ascii_lower(s@),
{
    s.to_ascii_lowercase()
}

/// The name of an asset in the name service, kept in lower case.
#[derive(Clone, Debug, PartialEq, Eq)]
pub struct AssetEntry {
    pub name: String,
}

impl AssetEntry {
    /// The entry for `name`, lower-cased.
    pub fn new(name: &str) -> (r: AssetEntry)
        ensures
            r.name@ == ascii_lower(name@),
    {
        AssetEntry { name: to_ascii_lowercase(name) }
    }

    /// A field-by-field copy.
    pub fn copied(&self) -> (r: AssetEntry)
        ensures
            r == *self,
    {
        AssetEntry { name: self.name.clone() }
    }
}

/// An amount of a named asset.
#[derive(Clone, Debug, PartialEq, Eq)]
pub struct AnsAsset {
    pub name: AssetEntry,
    pub amount: u128,
}

/// The pool that the vault provides liquidity to.
#[derive(Clone, Debug, PartialEq, Eq)]
pub struct PoolConfig {
    pub pool_id: u64,
    /// Native denomination of asset0.
    pub token0: String,
    /// Native denomination of asset1.
    pub token1: String,
    pub asset0: AssetEntry,
    pub asset1: AssetEntry,
}

/// The amount of the first coin of `funds` in `denom`, zero when there is none.
pub open spec fn held_amount(funds: Seq<Coin>, denom: Seq<char>) -> int
    decreases funds.len(),
{
    if funds.len() == 0 {
        0
    } else if funds[0].denom@ == denom {
        funds[0].amount as int
    } else {
        held_amount(funds.drop_first(), denom)
    }
}

/// The amount of the first coin of `funds` in `denom`, zero when there is none.
pub fn find_amount(funds: &Vec<Coin>, denom: &String) -> (r: u128)
    ensures
        r == held_amount(funds@, denom@),
{
    let mut i: usize = 0;
    assert(funds@.subrange(0, funds@.len() as int) =~= funds@);
    while i < funds.len()
        invariant
            i <= funds@.len(),
            held_amount(funds@, denom@) == held_amount(funds@.subrange(i as int, funds@.len() as int), denom@),
        decreases funds.len() - i,
    {
        let ghost rest = funds@.subrange(i as int, funds@.len() as int);
        if funds[i].denom == *denom {
            return funds[i].amount;
        }
        assert(rest.drop_first() =~= funds@.subrange(i as int + 1, funds@.len() as int));
        i = i + 1;
    }
    0
}

/// The name of the pool asset on `side`.
pub open spec fn entry_of(pool: PoolConfig, side: Side) -> AssetEntry {
    match side {
        Side::Asset0 => pool.asset0,
        Side::Asset1 => pool.asset1,
    }
}

/// The name of the other pool asset than the one on `side`.
pub open spec fn other_entry_of(pool: PoolConfig, side: Side) -> AssetEntry {
    match side {
        Side::Asset0 => pool.asset1,
        Side::Asset1 => pool.asset0,
    }
}

/// Splits `funds` for a deposit in the ratio `asset0.amount : asset1.amount`.
///
/// The held amounts are those of the first coin of `funds` in each asset's denomination
/// (zero when absent); coins of other denominations are not counted. Returns the asset
/// and amount to offer, the asset asked for, and the balances to deposit afterwards,
/// asset0's first, each in its asset's denomination.
pub fn tokens_to_swap(
    pool: &PoolConfig,
    funds: &Vec<Coin>,
    asset0: &Coin,
    asset1: &Coin,
    price: Price,
) -> (r: Result<(AnsAsset, AssetEntry, Vec<Coin>), ArithmeticError>)
    requires
        price.atomics > 0,
    ensures
        ({
            let x0 = held_amount(funds@, asset0.denom@);
            let x1 = held_amount(funds@, asset1.denom@);
            let (t0, t1) = (asset0.amount as int, asset1.amount as int);
            &&& r.is_ok() <==> solvable(x0, x1, t0, t1, price)
            &&& r matches Err(e) ==> e == solve_error(x0, x1, t0, t1, price)
            &&& r matches Ok((offer, ask, balances)) ==> {
                &&& offer.name == entry_of(*pool, offered_side(x0, x1, t0, t1))
                &&& offer.amount == swap_amount(x0, x1, t0, t1, price)
                &&& ask == other_entry_of(*pool, offered_side(x0, x1, t0, t1))
                &&& balances@.len() == 2
                &&& balances@[0].denom == asset0.denom
                &&& balances@[0].amount == result_balance0(x0, x1, t0, t1, price)
                &&& balances@[1].denom == asset1.denom
                &&& balances@[1].amount == result_balance1(x0, x1, t0, t1, price)
            }
        }),
{
    let x0 = find_amount(funds, &asset0.denom);
    let x1 = find_amount(funds, &asset1.denom);
    let plan = match solve(x0, x1, asset0.amount, asset1.amount, price) {
        Ok(plan) => plan,
        Err(e) => {
            return Err(e);
        },
    };
    let (offer, ask) = match plan.offer {
        Side::Asset0 => (pool.asset0.copied(), pool.asset1.copied()),
        Side::Asset1 => (pool.asset1.copied(), pool.asset0.copied()),
    };
    let balances = vec![
        Coin { denom: asset0.denom.clone(), amount: plan.result0 },
        Coin { denom: asset1.denom.clone(), amount: plan.result1 },
    ];
    Ok((AnsAsset { name: offer, amount: plan.amount }, ask, balances))
}

} // verus!
