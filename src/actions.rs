//! The outbound actions of each lifecycle operation, in the order they are sent.
use vstd::prelude::*;
use crate::assets::{
    entry_of, held_amount, other_entry_of, tokens_to_swap, AnsAsset, AssetEntry, Coin,
    PoolConfig,
};
use crate::decimal::Price;
use crate::solver::{
    offered_side, result_balance0, result_balance1, solvable, solve_error, swap_amount,
};
use crate::error::VaultError;

verus! {

/// The slippage, in percent, that a rebalancing swap accepts.
pub const MAX_SPREAD_PERCENT: u64 = 20;

/// The correlation id under which a position creation awaits its confirmation.
pub const CREATE_POSITION_ID: u64 = 1;

/// A concentrated-liquidity position as the venue reports it.
#[derive(Clone, Debug, PartialEq, Eq)]
pub struct Position {
    pub position_id: u64,
    /// The address that owns the position.
    pub address: String,
    pub lower_tick: i64,
    pub upper_tick: i64,
    /// The position's liquidity, a decimal number as the venue writes it.
    pub liquidity: String,
}

/// The venue's snapshot of the vault's position: the position, its current balances of
/// the two pool assets, and what it can claim.
#[derive(Clone, Debug, PartialEq, Eq)]
pub struct PositionSnapshot {
    pub position: Option<Position>,
    pub asset0: Coin,
    pub asset1: Coin,
    pub claimable_incentives: Vec<Coin>,
    pub claimable_spread_rewards: Vec<Coin>,
}

/// One abstract outbound action.
#[derive(Clone, Debug, PartialEq, Eq)]
pub enum Action {
    /// Ask the swap venue for the messages of this swap.
    Swap { offer_asset: AnsAsset, ask_asset: AssetEntry, max_spread_percent: u64 },
    CreatePosition {
        pool_id: u64,
        sender: String,
        lower_tick: i64,
        upper_tick: i64,
        tokens_provided: Vec<Coin>,
        token_min_amount0: u128,
        token_min_amount1: u128,
    },
    AddToPosition {
        position_id: u64,
        sender: String,
        amount0: u128,
        amount1: u128,
        token_min_amount0: u128,
        token_min_amount1: u128,
    },
    WithdrawPosition { position_id: u64, sender: String, liquidity_amount: String },
    CollectIncentives { position_ids: Vec<u64>, sender: String },
    CollectSpreadRewards { position_ids: Vec<u64>, sender: String },
    Send { from_address: String, to_address: String, amount: Vec<Coin> },
    /// A deposit request that the vault sends to itself.
    DepositToSelf { contract_addr: String, funds: Vec<Coin> },
}

/// An action as it leaves the vault: `granter` is the address on whose behalf it runs
/// under delegated authorization (none: the vault sends it itself), and `reply_id` the
/// correlation id of a confirmation it awaits.
#[derive(Clone, Debug, PartialEq, Eq)]
pub struct Outbound {
    pub action: Action,
    pub granter: Option<String>,
    pub reply_id: Option<u64>,
}

/// A copy of `v`, element by element.
pub fn copy_coins(v: &Vec<Coin>) -> (r: Vec<Coin>)
    ensures
        r@ == v@,
{
    let mut r: Vec<Coin> = Vec::new();
    let mut i: usize = 0;
    while i < v.len()
        invariant
            i <= v@.len(),
            r@ == v@.subrange(0, i as int),
        decreases v.len() - i,
    {
        r.push(v[i].copied());
        i = i + 1;
        assert(r@ =~= v@.subrange(0, i as int));
    }
    assert(v@.subrange(0, v@.len() as int) =~= v@);
    r
}

/// `a` followed by `b`.
pub fn concat_coins(a: &Vec<Coin>, b: &Vec<Coin>) -> (r: Vec<Coin>)
    ensures
        r@ == a@ + b@,
{
    let mut r = copy_coins(a);
    let mut i: usize = 0;
    while i < b.len()
        invariant
            i <= b@.len(),
            r@ == a@ + b@.subrange(0, i as int),
        decreases b.len() - i,
    {
        r.push(b[i].copied());
        i = i + 1;
        assert(r@ =~= a@ + b@.subrange(0, i as int));
    }
    assert(b@.subrange(0, b@.len() as int) =~= b@);
    r
}

/// The decimal digits of `n`, most significant first, without leading zeros.
pub open spec fn decimal_digits(n: nat) -> Seq<char>
    decreases n,
{
    if n < 10 {
        seq![digit_char(n)]
    } else {
        decimal_digits(n / 10).push(digit_char(n % 10))
    }
}

/// The character of the decimal digit `d`.
pub open spec fn digit_char(d: nat) -> char {
    (('0' as u32) + d) as char
}

/// Relies on `u128`'s `to_string`: its decimal representation, without sign or leading
/// zeros.
#[verifier::external_body]
fn amount_to_string(n: u128) -> (r: String)
    ensures
        r@ == decimal_digits(n as nat),
{
    n.to_string()
}

/// The swap request of a rebalancing plan: what it offers and asks for, at the fixed
/// slippage bound, on behalf of `user`.
pub open spec fn is_swap_request(o: Outbound, offer: AnsAsset, ask: AssetEntry, user: String) -> bool {
    &&& o.action == (Action::Swap { offer_asset: offer, ask_asset: ask, max_spread_percent: MAX_SPREAD_PERCENT })
    &&& o.granter == Some(user)
    &&& o.reply_id.is_none()
}

/// `out` opens with the swap request of the plan when its amount is positive (a zero
/// swap is left out) and holds one more action after it.
pub open spec fn swap_first(out: Seq<Outbound>, offer: AnsAsset, ask: AssetEntry, user: String) -> bool {
    if offer.amount > 0 {
        &&& out.len() == 2
        &&& is_swap_request(out[0], offer, ask, user)
    } else {
        out.len() == 1
    }
}

fn with_swap(offer: AnsAsset, ask: AssetEntry, user: &String, last: Outbound) -> (r: Vec<Outbound>)
    ensures
        swap_first(r@, offer, ask, *user),
        r@.last() == last,
{
    let mut out: Vec<Outbound> = Vec::new();
    if offer.amount > 0 {
        let ghost (o, a) = (offer, ask);
        out.push(
            Outbound {
                action: Action::Swap {
                    offer_asset: offer,
                    ask_asset: ask,
                    max_spread_percent: MAX_SPREAD_PERCENT,
                },
                granter: Some(user.clone()),
                reply_id: None,
            },
        );
        out.push(last);
        assert(is_swap_request(out@[0], o, a, *user));
    } else {
        out.push(last);
    }
    out
}

/// The rebalancing that `tokens_to_swap` computes for `funds` against the targets `a0`,
/// `a1`: (offered asset, asked asset, balances to deposit).
pub open spec fn rebalanced(pool: PoolConfig, funds: Seq<Coin>, a0: Coin, a1: Coin, price: Price) -> (AnsAsset, AssetEntry, Seq<Coin>) {
    let x0 = held_amount(funds, a0.denom@);
    let x1 = held_amount(funds, a1.denom@);
    let (t0, t1) = (a0.amount as int, a1.amount as int);
    let side = offered_side(x0, x1, t0, t1);
    (
        AnsAsset { name: entry_of(pool, side), amount: swap_amount(x0, x1, t0, t1, price) as u128 },
        other_entry_of(pool, side),
        seq![
            Coin { denom: a0.denom, amount: result_balance0(x0, x1, t0, t1, price) as u128 },
            Coin { denom: a1.denom, amount: result_balance1(x0, x1, t0, t1, price) as u128 },
        ],
    )
}

/// Why the rebalancing of `funds` against `a0`, `a1` fails, where it does.
pub open spec fn rebalance_error(funds: Seq<Coin>, a0: Coin, a1: Coin, price: Price) -> VaultError {
    VaultError::Arithmetic(
        solve_error(
            held_amount(funds, a0.denom@),
            held_amount(funds, a1.denom@),
            a0.amount as int,
            a1.amount as int,
            price,
        ),
    )
}

/// The rebalancing of `funds` against `a0`, `a1` stays in range.
pub open spec fn rebalancable(funds: Seq<Coin>, a0: Coin, a1: Coin, price: Price) -> bool {
    solvable(
        held_amount(funds, a0.denom@),
        held_amount(funds, a1.denom@),
        a0.amount as int,
        a1.amount as int,
        price,
    )
}

fn rebalance(pool: &PoolConfig, funds: &Vec<Coin>, a0: &Coin, a1: &Coin, price: Price) -> (r: Result<
    (AnsAsset, AssetEntry, Vec<Coin>),
    VaultError,
>)
    requires
        price.atomics > 0,
    ensures
        r.is_ok() <==> rebalancable(funds@, *a0, *a1, price),
        r matches Ok((offer, ask, balances)) ==> (offer, ask, balances@) == rebalanced(
            *pool,
            funds@,
            *a0,
            *a1,
            price,
        ),
        r matches Err(e) ==> e == rebalance_error(funds@, *a0, *a1, price),
{
    match tokens_to_swap(pool, funds, a0, a1, price) {
        Ok((offer, ask, balances)) => {
            let ghost expected = rebalanced(*pool, funds@, *a0, *a1, price);
            assert(balances@ =~= expected.2);
            Ok((offer, ask, balances))
        },
        Err(e) => Err(VaultError::Arithmetic(e)),
    }
}

/// `o` creates a position in `pool` between the ticks with `balances`, owned by `user`,
/// with no minimum amounts, awaiting confirmation under `CREATE_POSITION_ID`.
pub open spec fn is_create(o: Outbound, pool: PoolConfig, user: String, lower: i64, upper: i64, balances: Seq<Coin>) -> bool {
    &&& o.action matches Action::CreatePosition {
        pool_id,
        sender,
        lower_tick,
        upper_tick,
        tokens_provided,
        token_min_amount0,
        token_min_amount1,
    }
    &&& pool_id == pool.pool_id
    &&& sender == user
    &&& lower_tick == lower
    &&& upper_tick == upper
    &&& tokens_provided@ == balances
    &&& token_min_amount0 == 0
    &&& token_min_amount1 == 0
    &&& o.granter == Some(user)
    &&& o.reply_id == Some(CREATE_POSITION_ID)
}

/// Creation of a position: the rebalancing swap of `funds` toward the reference amounts
/// `asset0`, `asset1` (left out when zero), then the creation of the position with the
/// balances that the swap leaves, on behalf of `user`.
pub fn prepare_create(
    pool: &PoolConfig,
    user: &String,
    funds: &Vec<Coin>,
    lower_tick: i64,
    upper_tick: i64,
    asset0: &Coin,
    asset1: &Coin,
    price: Price,
) -> (r: Result<Vec<Outbound>, VaultError>)
    requires
        price.atomics > 0,
    ensures
        r.is_ok() <==> rebalancable(funds@, *asset0, *asset1, price),
        r matches Err(e) ==> e == rebalance_error(funds@, *asset0, *asset1, price),
        r matches Ok(out) ==> ({
            let (offer, ask, balances) = rebalanced(*pool, funds@, *asset0, *asset1, price);
            &&& swap_first(out@, offer, ask, *user)
            &&& is_create(out@.last(), *pool, *user, lower_tick, upper_tick, balances)
        }),
{
    let (offer, ask, balances) = match rebalance(pool, funds, asset0, asset1, price) {
        Ok(v) => v,
        Err(e) => {
            return Err(e);
        },
    };
    let create = Outbound {
        action: Action::CreatePosition {
            pool_id: pool.pool_id,
            sender: user.clone(),
            lower_tick,
            upper_tick,
            tokens_provided: balances,
            token_min_amount0: 0,
            token_min_amount1: 0,
        },
        granter: Some(user.clone()),
        reply_id: Some(CREATE_POSITION_ID),
    };
    Ok(with_swap(offer, ask, user, create))
}

/// `o` adds `balances` to the position, on behalf of its owner, with no minimum amounts.
pub open spec fn is_add(o: Outbound, p: Position, balances: Seq<Coin>) -> bool {
    &&& o.action matches Action::AddToPosition {
        position_id,
        sender,
        amount0,
        amount1,
        token_min_amount0,
        token_min_amount1,
    }
    &&& position_id == p.position_id
    &&& sender == p.address
    &&& amount0 == balances[0].amount
    &&& amount1 == balances[1].amount
    &&& token_min_amount0 == 0
    &&& token_min_amount1 == 0
    &&& o.granter == Some(p.address)
    &&& o.reply_id.is_none()
}

/// A deposit into the existing position: the rebalancing swap of `funds` toward the
/// position's current balances (left out when zero), then the addition of the balances
/// that the swap leaves.
pub fn prepare_deposit(
    pool: &PoolConfig,
    user: &String,
    snapshot: &PositionSnapshot,
    funds: &Vec<Coin>,
    price: Price,
) -> (r: Result<Vec<Outbound>, VaultError>)
    requires
        price.atomics > 0,
    ensures
        snapshot.position.is_none() ==> r == Err::<Vec<Outbound>, VaultError>(VaultError::NoPosition),
        snapshot.position.is_some() ==> (r.is_ok() <==> rebalancable(
            funds@,
            snapshot.asset0,
            snapshot.asset1,
            price,
        )),
        snapshot.position.is_some() && r is Err ==> r->Err_0 == rebalance_error(
            funds@,
            snapshot.asset0,
            snapshot.asset1,
            price,
        ),
        r matches Ok(out) ==> (snapshot.position matches Some(p) && {
            let (offer, ask, balances) = rebalanced(
                *pool,
                funds@,
                snapshot.asset0,
                snapshot.asset1,
                price,
            );
            &&& swap_first(out@, offer, ask, *user)
            &&& is_add(out@.last(), p, balances)
        }),
{
    let position = match &snapshot.position {
        Some(p) => p,
        None => {
            return Err(VaultError::NoPosition);
        },
    };
    let (offer, ask, balances) = match rebalance(
        pool,
        funds,
        &snapshot.asset0,
        &snapshot.asset1,
        price,
    ) {
        Ok(v) => v,
        Err(e) => {
            return Err(e);
        },
    };
    let add = Outbound {
        action: Action::AddToPosition {
            position_id: position.position_id,
            sender: position.address.clone(),
            amount0: balances[0].amount,
            amount1: balances[1].amount,
            token_min_amount0: 0,
            token_min_amount1: 0,
        },
        granter: Some(position.address.clone()),
        reply_id: None,
    };
    Ok(with_swap(offer, ask, user, add))
}

/// The liquidity that a withdrawal of `amount` takes: all of the position's recorded
/// liquidity when absent, else exactly `amount`, written in decimal.
pub open spec fn withdrawn_liquidity(p: Position, amount: Option<u128>) -> Seq<char> {
    match amount {
        Some(k) => decimal_digits(k as nat),
        None => p.liquidity@,
    }
}

/// A withdrawal from the position, on behalf of its owner: the one withdraw action and
/// the liquidity it takes.
pub fn prepare_withdraw(snapshot: &PositionSnapshot, amount: Option<u128>) -> (r: Result<
    (Outbound, String),
    VaultError,
>)
    ensures
        snapshot.position.is_none() ==> r == Err::<(Outbound, String), VaultError>(VaultError::NoPosition),
        snapshot.position matches Some(p) ==> (r matches Ok((o, taken)) && {
            &&& taken@ == withdrawn_liquidity(p, amount)
            &&& o.action matches Action::WithdrawPosition { position_id, sender, liquidity_amount }
            &&& position_id == p.position_id
            &&& sender == p.address
            &&& liquidity_amount == taken
            &&& o.granter == Some(p.address)
            &&& o.reply_id.is_none()
        }),
{
    let position = match &snapshot.position {
        Some(p) => p,
        None => {
            return Err(VaultError::NoPosition);
        },
    };
    let liquidity_amount = match amount {
        Some(k) => amount_to_string(k),
        None => position.liquidity.clone(),
    };
    let o = Outbound {
        action: Action::WithdrawPosition {
            position_id: position.position_id,
            sender: position.address.clone(),
            liquidity_amount: liquidity_amount.clone(),
        },
        granter: Some(position.address.clone()),
        reply_id: None,
    };
    Ok((o, liquidity_amount))
}

/// `out` harvests the rewards of `p` and reinvests them: collect the incentives, collect
/// the spread rewards, send `rewards` from the owner to `custody`, and ask the vault at
/// `contract_addr` to deposit exactly `rewards`, in this order. The first three run on
/// behalf of the owner; the deposit request is sent by the vault itself.
pub open spec fn is_harvest(out: Seq<Outbound>, p: Position, rewards: Seq<Coin>, custody: String, contract_addr: String) -> bool {
    &&& out.len() == 4
    &&& out[0].action matches Action::CollectIncentives { position_ids, sender }
    &&& position_ids@ == seq![p.position_id]
    &&& sender == p.address
    &&& out[1].action matches Action::CollectSpreadRewards { position_ids: ids, sender: s }
    &&& ids@ == seq![p.position_id]
    &&& s == p.address
    &&& out[2].action matches Action::Send { from_address, to_address, amount }
    &&& from_address == p.address
    &&& to_address == custody
    &&& amount@ == rewards
    &&& out[3].action matches Action::DepositToSelf { contract_addr: to_self, funds }
    &&& to_self == contract_addr
    &&& funds@ == rewards
    &&& out[0].granter == Some(p.address)
    &&& out[1].granter == Some(p.address)
    &&& out[2].granter == Some(p.address)
    &&& out[3].granter.is_none()
    &&& forall|i: int| 0 <= i < 4 ==> (#[trigger] out[i]).reply_id.is_none()
}

/// What a position can claim: its incentives followed by its spread rewards.
pub open spec fn claimable(snapshot: PositionSnapshot) -> Seq<Coin> {
    snapshot.claimable_incentives@ + snapshot.claimable_spread_rewards@
}

/// Reward harvesting of the position, whatever it can claim (also nothing): the four
/// actions of `is_harvest`.
pub fn prepare_autocompound(snapshot: &PositionSnapshot, custody: &String, contract_addr: &String) -> (r: Result<
    Vec<Outbound>,
    VaultError,
>)
    ensures
        snapshot.position.is_none() ==> r == Err::<Vec<Outbound>, VaultError>(VaultError::NoPosition),
        snapshot.position matches Some(p) ==> (r matches Ok(out) && is_harvest(
            out@,
            p,
            claimable(*snapshot),
            *custody,
            *contract_addr,
        )),
{
    let position = match &snapshot.position {
        Some(p) => p,
        None => {
            return Err(VaultError::NoPosition);
        },
    };
    let rewards = concat_coins(&snapshot.claimable_incentives, &snapshot.claimable_spread_rewards);
    let mut out: Vec<Outbound> = Vec::new();
    out.push(
        Outbound {
            action: Action::CollectIncentives {
                position_ids: vec![position.position_id],
                sender: position.address.clone(),
            },
            granter: Some(position.address.clone()),
            reply_id: None,
        },
    );
    out.push(
        Outbound {
            action: Action::CollectSpreadRewards {
                position_ids: vec![position.position_id],
                sender: position.address.clone(),
            },
            granter: Some(position.address.clone()),
            reply_id: None,
        },
    );
    out.push(
        Outbound {
            action: Action::Send {
                from_address: position.address.clone(),
                to_address: custody.clone(),
                amount: copy_coins(&rewards),
            },
            granter: Some(position.address.clone()),
            reply_id: None,
        },
    );
    out.push(
        Outbound {
            action: Action::DepositToSelf { contract_addr: contract_addr.clone(), funds: rewards },
            granter: None,
            reply_id: None,
        },
    );
    assert(rewards@ == claimable(*snapshot));
    assert(out@[0].action matches Action::CollectIncentives { position_ids, sender }
        && position_ids@ == seq![position.position_id]);
    assert(is_harvest(out@, *position, rewards@, *custody, *contract_addr));
    Ok(out)
}

} // verus!
