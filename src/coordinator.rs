//! The vault's entry points: authorization, dispatch to the action builder, and the
//! lifecycle of its position.
use vstd::prelude::*;
use crate::actions::{
    claimable, is_add, is_create, is_harvest, prepare_autocompound, prepare_create, prepare_deposit,
    prepare_withdraw, rebalance_error, rebalancable, rebalanced, swap_first, withdrawn_liquidity, Action,
    Outbound, PositionSnapshot, CREATE_POSITION_ID,
};
use crate::assets::{Coin, PoolConfig};
use crate::decimal::Price;
use crate::error::VaultError;
use crate::reply::{Continuation, ReplyRouter};

verus! {

/// Where the vault's position stands.
#[derive(Clone, Copy, Debug, PartialEq, Eq)]
pub enum Lifecycle {
    Uninitialized,
    /// A creation was sent and its confirmation has not arrived.
    CreationRequested,
    Active { position_id: u64 },
}

/// What the vault is set up with for the length of an operation.
#[derive(Clone, Debug, PartialEq, Eq)]
pub struct VaultConfig {
    pub pool: PoolConfig,
    pub exchange: String,
    /// The address with administrative authority over the vault.
    pub admin: String,
    /// The vault's own address.
    pub contract_addr: String,
    /// The address that holds the vault's funds.
    pub custody: String,
    /// The address on whose behalf swaps and creations run.
    pub user: String,
}

/// An operation request.
#[derive(Clone, Debug, PartialEq, Eq)]
pub enum AppExecuteMsg {
    CreatePosition { lower_tick: i64, upper_tick: i64, funds: Vec<Coin>, asset0: Coin, asset1: Coin },
    Deposit { funds: Vec<Coin> },
    Withdraw { amount: u128 },
    WithdrawAll,
    Autocompound,
}

/// The operation that a response answers.
#[derive(Clone, Copy, Debug, PartialEq, Eq)]
pub enum Operation {
    CreatePosition,
    Deposit,
    Withdraw,
    Autocompound,
}

/// The answer to an operation: the withdrawn liquidity where it withdrew, and the
/// actions to send, in order.
#[derive(Clone, Debug, PartialEq, Eq)]
pub struct Response {
    pub operation: Operation,
    pub withdraw_amount: Option<String>,
    pub messages: Vec<Outbound>,
}

/// The vault: its configuration, its position's lifecycle and the confirmations it
/// awaits.
#[derive(Clone, Debug, PartialEq, Eq)]
pub struct Vault {
    pub config: VaultConfig,
    pub lifecycle: Lifecycle,
    pub replies: ReplyRouter,
}

/// `sender` is the vault's administrator.
pub open spec fn is_admin(config: VaultConfig, sender: String) -> bool {
    sender@ == config.admin@
}

/// `sender` may deposit: the administrator, or the vault itself.
pub open spec fn may_deposit(config: VaultConfig, sender: String) -> bool {
    is_admin(config, sender) || sender@ == config.contract_addr@
}

/// A quoted price that the solver can use: present and positive.
pub open spec fn usable_price(price: Option<Price>) -> bool {
    price matches Some(p) && p.atomics > 0
}

/// The outcome of a creation request.
pub open spec fn create_outcome(
    pre: Vault,
    post: Vault,
    sender: String,
    lower_tick: i64,
    upper_tick: i64,
    funds: Seq<Coin>,
    asset0: Coin,
    asset1: Coin,
    price: Option<Price>,
    r: Result<Response, VaultError>,
) -> bool {
    if !is_admin(pre.config, sender) {
        r == Err::<Response, VaultError>(VaultError::Unauthorized) && post == pre
    } else if pre.lifecycle is CreationRequested {
        r == Err::<Response, VaultError>(VaultError::CreationInProgress) && post == pre
    } else if !usable_price(price) {
        r == Err::<Response, VaultError>(VaultError::InvalidPrice) && post == pre
    } else if !rebalancable(funds, asset0, asset1, price->Some_0) {
        r == Err::<Response, VaultError>(rebalance_error(funds, asset0, asset1, price->Some_0))
            && post == pre
    } else {
        let (offer, ask, balances) = rebalanced(pre.config.pool, funds, asset0, asset1, price->Some_0);
        &&& r matches Ok(resp)
        &&& resp.operation == Operation::CreatePosition
        &&& resp.withdraw_amount.is_none()
        &&& swap_first(resp.messages@, offer, ask, pre.config.user)
        &&& is_create(resp.messages@.last(), pre.config.pool, pre.config.user, lower_tick, upper_tick, balances)
        &&& post.config == pre.config
        &&& post.lifecycle == Lifecycle::CreationRequested
        &&& post.replies@ == pre.replies@.insert(CREATE_POSITION_ID, Continuation::AttachCreatedPosition)
    }
}

/// The outcome of a deposit request; the vault's state is left as it was.
pub open spec fn deposit_outcome(
    pre: Vault,
    post: Vault,
    sender: String,
    snapshot: PositionSnapshot,
    funds: Seq<Coin>,
    price: Option<Price>,
    r: Result<Response, VaultError>,
) -> bool {
    &&& post == pre
    &&& if !may_deposit(pre.config, sender) {
        r == Err::<Response, VaultError>(VaultError::Unauthorized)
    } else if !usable_price(price) {
        r == Err::<Response, VaultError>(VaultError::InvalidPrice)
    } else if snapshot.position.is_none() {
        r == Err::<Response, VaultError>(VaultError::NoPosition)
    } else if !rebalancable(funds, snapshot.asset0, snapshot.asset1, price->Some_0) {
        r == Err::<Response, VaultError>(
            rebalance_error(funds, snapshot.asset0, snapshot.asset1, price->Some_0),
        )
    } else {
        let (offer, ask, balances) = rebalanced(
            pre.config.pool,
            funds,
            snapshot.asset0,
            snapshot.asset1,
            price->Some_0,
        );
        &&& r matches Ok(resp)
        &&& resp.operation == Operation::Deposit
        &&& resp.withdraw_amount.is_none()
        &&& swap_first(resp.messages@, offer, ask, pre.config.user)
        &&& is_add(resp.messages@.last(), snapshot.position->Some_0, balances)
    }
}

/// The outcome of a withdrawal of `amount` (all of the liquidity when absent); the
/// vault's state is left as it was.
pub open spec fn withdraw_outcome(
    pre: Vault,
    post: Vault,
    sender: String,
    snapshot: PositionSnapshot,
    amount: Option<u128>,
    r: Result<Response, VaultError>,
) -> bool {
    &&& post == pre
    &&& if !is_admin(pre.config, sender) {
        r == Err::<Response, VaultError>(VaultError::Unauthorized)
    } else if snapshot.position.is_none() {
        r == Err::<Response, VaultError>(VaultError::NoPosition)
    } else {
        let p = snapshot.position->Some_0;
        &&& r matches Ok(resp)
        &&& resp.operation == Operation::Withdraw
        &&& resp.withdraw_amount matches Some(taken)
        &&& taken@ == withdrawn_liquidity(p, amount)
        &&& resp.messages@.len() == 1
        &&& resp.messages@[0].action matches Action::WithdrawPosition {
            position_id,
            sender: owner,
            liquidity_amount,
        }
        &&& position_id == p.position_id
        &&& owner == p.address
        &&& liquidity_amount@ == taken@
        &&& resp.messages@[0].granter == Some(p.address)
    }
}

/// The outcome of a harvesting request, which anyone may make; the vault's state is
/// left as it was.
pub open spec fn autocompound_outcome(
    pre: Vault,
    post: Vault,
    snapshot: PositionSnapshot,
    r: Result<Response, VaultError>,
) -> bool {
    &&& post == pre
    &&& if snapshot.position.is_none() {
        r == Err::<Response, VaultError>(VaultError::NoPosition)
    } else {
        &&& r matches Ok(resp)
        &&& resp.operation == Operation::Autocompound
        &&& resp.withdraw_amount.is_none()
        &&& is_harvest(
            resp.messages@,
            snapshot.position->Some_0,
            claimable(snapshot),
            pre.config.custody,
            pre.config.contract_addr,
        )
    }
}

impl Vault {
    /// Whether the lifecycle and the pending confirmations agree: a creation is
    /// requested exactly when its confirmation is awaited, and nothing else is awaited.
    pub open spec fn wf(&self) -> bool {
        &&& self.replies.wf()
        &&& forall|k: u64| #[trigger] self.replies@.contains_key(k) ==> k == CREATE_POSITION_ID
        &&& (self.lifecycle is CreationRequested <==> self.replies@.contains_key(CREATE_POSITION_ID))
        &&& self.replies@.contains_key(CREATE_POSITION_ID) ==> self.replies@[CREATE_POSITION_ID]
            == Continuation::AttachCreatedPosition
    }

    /// A vault with no position and nothing pending.
    pub fn new(config: VaultConfig) -> (r: Vault)
        ensures
            r.wf(),
            r.config == config,
            r.lifecycle == Lifecycle::Uninitialized,
            r.replies@ == Map::<u64, Continuation>::empty(),
    {
        Vault { config, lifecycle: Lifecycle::Uninitialized, replies: ReplyRouter::new() }
    }

    fn quoted(price: Option<Price>) -> (r: Result<Price, VaultError>)
        ensures
            usable_price(price) ==> r == Ok::<Price, VaultError>(price->Some_0),
            !usable_price(price) ==> r == Err::<Price, VaultError>(VaultError::InvalidPrice),
    {
        match price {
            Some(p) => {
                if p.atomics > 0 {
                    Ok(p)
                } else {
                    Err(VaultError::InvalidPrice)
                }
            },
            None => Err(VaultError::InvalidPrice),
        }
    }

    /// Creates the position: the administrator only, and not while another creation
    /// awaits its confirmation; the creation then awaits one.
    pub fn create_position(
        &mut self,
        sender: &String,
        lower_tick: i64,
        upper_tick: i64,
        funds: &Vec<Coin>,
        asset0: &Coin,
        asset1: &Coin,
        price: Option<Price>,
    ) -> (r: Result<Response, VaultError>)
        requires
            old(self).wf(),
        ensures
            final(self).wf(),
            create_outcome(
                *old(self),
                *final(self),
                *sender,
                lower_tick,
                upper_tick,
                funds@,
                *asset0,
                *asset1,
                price,
                r,
            ),
    {
        if *sender != self.config.admin {
            return Err(VaultError::Unauthorized);
        }
        if let Lifecycle::CreationRequested = self.lifecycle {
            return Err(VaultError::CreationInProgress);
        }
        let p = match Self::quoted(price) {
            Ok(p) => p,
            Err(e) => {
                return Err(e);
            },
        };
        let messages = match prepare_create(
            &self.config.pool,
            &self.config.user,
            funds,
            lower_tick,
            upper_tick,
            asset0,
            asset1,
            p,
        ) {
            Ok(m) => m,
            Err(e) => {
                return Err(e);
            },
        };
        let registered = self.replies.register(
            CREATE_POSITION_ID,
            Continuation::AttachCreatedPosition,
        );
        assert(registered is Ok);
        self.lifecycle = Lifecycle::CreationRequested;
        Ok(Response { operation: Operation::CreatePosition, withdraw_amount: None, messages })
    }

    /// Deposits `funds` into the position: the administrator, or the vault itself when
    /// it reinvests harvested rewards.
    pub fn deposit(
        &self,
        sender: &String,
        snapshot: &PositionSnapshot,
        funds: &Vec<Coin>,
        price: Option<Price>,
    ) -> (r: Result<Response, VaultError>)
        ensures
            deposit_outcome(*self, *self, *sender, *snapshot, funds@, price, r),
    {
        if *sender != self.config.admin && *sender != self.config.contract_addr {
            return Err(VaultError::Unauthorized);
        }
        let p = match Self::quoted(price) {
            Ok(p) => p,
            Err(e) => {
                return Err(e);
            },
        };
        match prepare_deposit(&self.config.pool, &self.config.user, snapshot, funds, p) {
            Ok(messages) => Ok(
                Response { operation: Operation::Deposit, withdraw_amount: None, messages },
            ),
            Err(e) => Err(e),
        }
    }

    /// Withdraws `amount` of liquidity, or all of it when absent: the administrator only.
    pub fn withdraw(&self, sender: &String, snapshot: &PositionSnapshot, amount: Option<u128>) -> (r:
        Result<Response, VaultError>)
        ensures
            withdraw_outcome(*self, *self, *sender, *snapshot, amount, r),
    {
        if *sender != self.config.admin {
            return Err(VaultError::Unauthorized);
        }
        match prepare_withdraw(snapshot, amount) {
            Ok((o, taken)) => {
                let mut messages: Vec<Outbound> = Vec::new();
                messages.push(o);
                Ok(
                    Response {
                        operation: Operation::Withdraw,
                        withdraw_amount: Some(taken),
                        messages,
                    },
                )
            },
            Err(e) => Err(e),
        }
    }

    /// Harvests the position's rewards and reinvests them; anyone may ask for it.
    pub fn autocompound(&self, snapshot: &PositionSnapshot) -> (r: Result<Response, VaultError>)
        ensures
            autocompound_outcome(*self, *self, *snapshot, r),
    {
        match prepare_autocompound(snapshot, &self.config.custody, &self.config.contract_addr) {
            Ok(messages) => Ok(
                Response { operation: Operation::Autocompound, withdraw_amount: None, messages },
            ),
            Err(e) => Err(e),
        }
    }

    /// Takes the confirmation of the action awaited under `id`: a confirmed creation
    /// makes the position with `position_id` active.
    pub fn handle_reply(&mut self, id: u64, position_id: u64) -> (r: Result<(), VaultError>)
        requires
            old(self).wf(),
        ensures
            final(self).wf(),
            old(self).replies@.contains_key(id) ==> r is Ok && final(self).lifecycle
                == (Lifecycle::Active { position_id }) && final(self).config == old(self).config
                && final(self).replies@ == old(self).replies@.remove(id),
            !old(self).replies@.contains_key(id) ==> r == Err::<(), VaultError>(
                VaultError::UnknownReply,
            ) && *final(self) == *old(self),
    {
        match self.replies.resolve(id) {
            Ok(Continuation::AttachCreatedPosition) => {
                self.lifecycle = Lifecycle::Active { position_id };
                proof {
                    assert(self.replies@ =~= Map::<u64, Continuation>::empty());
                }
                Ok(())
            },
            Err(e) => Err(e),
        }
    }
}

/// Dispatches an operation request from `sender`, given the venue's snapshot of the
/// position and the price that the oracle quoted for the request's funds (creation
/// and deposit need one).
pub fn execute_handler(
    vault: &mut Vault,
    sender: &String,
    msg: AppExecuteMsg,
    snapshot: &PositionSnapshot,
    price: Option<Price>,
) -> (r: Result<Response, VaultError>)
    requires
        old(vault).wf(),
    ensures
        final(vault).wf(),
        match msg {
            AppExecuteMsg::CreatePosition { lower_tick, upper_tick, funds, asset0, asset1 } =>
                create_outcome(
                *old(vault),
                *final(vault),
                *sender,
                lower_tick,
                upper_tick,
                funds@,
                asset0,
                asset1,
                price,
                r,
            ),
            AppExecuteMsg::Deposit { funds } => deposit_outcome(
                *old(vault),
                *final(vault),
                *sender,
                *snapshot,
                funds@,
                price,
                r,
            ),
            AppExecuteMsg::Withdraw { amount } => withdraw_outcome(
                *old(vault),
                *final(vault),
                *sender,
                *snapshot,
                Some(amount),
                r,
            ),
            AppExecuteMsg::WithdrawAll => withdraw_outcome(
                *old(vault),
                *final(vault),
                *sender,
                *snapshot,
                None,
                r,
            ),
            AppExecuteMsg::Autocompound => autocompound_outcome(
                *old(vault),
                *final(vault),
                *snapshot,
                r,
            ),
        },
{
    match msg {
        AppExecuteMsg::CreatePosition { lower_tick, upper_tick, funds, asset0, asset1 } => {
            vault.create_position(sender, lower_tick, upper_tick, &funds, &asset0, &asset1, price)
        },
        AppExecuteMsg::Deposit { funds } => vault.deposit(sender, snapshot, &funds, price),
        AppExecuteMsg::Withdraw { amount } => vault.withdraw(sender, snapshot, Some(amount)),
        AppExecuteMsg::WithdrawAll => vault.withdraw(sender, snapshot, None),
        AppExecuteMsg::Autocompound => vault.autocompound(snapshot),
    }
}

} // verus!
