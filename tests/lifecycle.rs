use savings_vault::actions::{
    prepare_autocompound, prepare_withdraw, Action, Position, PositionSnapshot,
    CREATE_POSITION_ID, MAX_SPREAD_PERCENT,
};
use savings_vault::assets::{AnsAsset, AssetEntry, Coin, PoolConfig};
use savings_vault::coordinator::{execute_handler, AppExecuteMsg, Lifecycle, Operation, Vault, VaultConfig};
use savings_vault::decimal::Price;
use savings_vault::error::VaultError;
use savings_vault::reply::{Continuation, ReplyRouter};
use savings_vault::solver::ArithmeticError;

fn config() -> VaultConfig {
    VaultConfig {
        pool: PoolConfig {
            pool_id: 45,
            token0: "usdt".to_string(),
            token1: "usdc".to_string(),
            asset0: AssetEntry::new("USDT"),
            asset1: AssetEntry::new("USDC"),
        },
        exchange: "osmosis".to_string(),
        admin: "admin".to_string(),
        contract_addr: "vault".to_string(),
        custody: "proxy".to_string(),
        user: "owner".to_string(),
    }
}

fn snapshot(with_position: bool) -> PositionSnapshot {
    PositionSnapshot {
        position: if with_position {
            Some(Position {
                position_id: 7,
                address: "owner".to_string(),
                lower_tick: -100,
                upper_tick: 100,
                liquidity: "123456.789".to_string(),
            })
        } else {
            None
        },
        asset0: Coin::new(100_000_000, "usdt"),
        asset1: Coin::new(100_000_000, "usdc"),
        claimable_incentives: vec![Coin::new(10, "osmo")],
        claimable_spread_rewards: vec![Coin::new(3, "usdc"), Coin::new(4, "usdt")],
    }
}

fn create_msg() -> AppExecuteMsg {
    AppExecuteMsg::CreatePosition {
        lower_tick: -100,
        upper_tick: 100,
        funds: vec![Coin::new(5_000, "usdc")],
        asset0: Coin::new(100_000_000, "usdt"),
        asset1: Coin::new(100_000_000, "usdc"),
    }
}

#[test]
fn create_swaps_then_creates_and_awaits_reply() {
    let mut vault = Vault::new(config());
    let resp = execute_handler(&mut vault, &"admin".to_string(), create_msg(), &snapshot(false), Some(Price::one()))
        .unwrap();
    assert_eq!(resp.operation, Operation::CreatePosition);
    assert_eq!(resp.messages.len(), 2);
    assert_eq!(
        resp.messages[0].action,
        Action::Swap {
            offer_asset: AnsAsset { name: AssetEntry::new("usdc"), amount: 2_500 },
            ask_asset: AssetEntry::new("usdt"),
            max_spread_percent: MAX_SPREAD_PERCENT,
        }
    );
    assert_eq!(resp.messages[0].granter, Some("owner".to_string()));
    assert_eq!(
        resp.messages[1].action,
        Action::CreatePosition {
            pool_id: 45,
            sender: "owner".to_string(),
            lower_tick: -100,
            upper_tick: 100,
            tokens_provided: vec![Coin::new(2_500, "usdt"), Coin::new(2_500, "usdc")],
            token_min_amount0: 0,
            token_min_amount1: 0,
        }
    );
    assert_eq!(resp.messages[1].reply_id, Some(CREATE_POSITION_ID));
    assert_eq!(vault.lifecycle, Lifecycle::CreationRequested);
}

#[test]
fn second_create_while_pending_is_refused() {
    let mut vault = Vault::new(config());
    execute_handler(&mut vault, &"admin".to_string(), create_msg(), &snapshot(false), Some(Price::one()))
        .unwrap();
    let again =
        execute_handler(&mut vault, &"admin".to_string(), create_msg(), &snapshot(false), Some(Price::one()));
    assert_eq!(again, Err(VaultError::CreationInProgress));
}

#[test]
fn reply_activates_position_once() {
    let mut vault = Vault::new(config());
    execute_handler(&mut vault, &"admin".to_string(), create_msg(), &snapshot(false), Some(Price::one()))
        .unwrap();
    assert_eq!(vault.handle_reply(CREATE_POSITION_ID, 7), Ok(()));
    assert_eq!(vault.lifecycle, Lifecycle::Active { position_id: 7 });
    assert_eq!(vault.handle_reply(CREATE_POSITION_ID, 7), Err(VaultError::UnknownReply));
}

#[test]
fn create_by_stranger_is_unauthorized() {
    let mut vault = Vault::new(config());
    let r = execute_handler(&mut vault, &"eve".to_string(), create_msg(), &snapshot(false), Some(Price::one()));
    assert_eq!(r, Err(VaultError::Unauthorized));
    assert_eq!(vault.lifecycle, Lifecycle::Uninitialized);
}

#[test]
fn create_without_price_is_refused() {
    let mut vault = Vault::new(config());
    let r = execute_handler(&mut vault, &"admin".to_string(), create_msg(), &snapshot(false), None);
    assert_eq!(r, Err(VaultError::InvalidPrice));
    let r = execute_handler(&mut vault, 
        &"admin".to_string(),
        create_msg(),
        &snapshot(false),
        Some(Price::from_atomics(0)),
    );
    assert_eq!(r, Err(VaultError::InvalidPrice));
}

#[test]
fn create_with_overflowing_amounts_is_an_arithmetic_error() {
    let mut vault = Vault::new(config());
    let msg = AppExecuteMsg::CreatePosition {
        lower_tick: -1,
        upper_tick: 1,
        funds: vec![Coin::new(u128::MAX, "usdc")],
        asset0: Coin::new(2, "usdt"),
        asset1: Coin::new(2, "usdc"),
    };
    let r = execute_handler(&mut vault, &"admin".to_string(), msg, &snapshot(false), Some(Price::one()));
    assert_eq!(r, Err(VaultError::Arithmetic(ArithmeticError::Overflow)));
    assert_eq!(vault.lifecycle, Lifecycle::Uninitialized);
}

#[test]
fn deposit_by_vault_itself_rebalances_and_adds() {
    let mut vault = Vault::new(config());
    let msg = AppExecuteMsg::Deposit { funds: vec![Coin::new(5_000, "usdc")] };
    let resp = execute_handler(&mut vault, &"vault".to_string(), msg, &snapshot(true), Some(Price::one()))
        .unwrap();
    assert_eq!(resp.operation, Operation::Deposit);
    assert_eq!(resp.messages.len(), 2);
    assert_eq!(
        resp.messages[1].action,
        Action::AddToPosition {
            position_id: 7,
            sender: "owner".to_string(),
            amount0: 2_500,
            amount1: 2_500,
            token_min_amount0: 0,
            token_min_amount1: 0,
        }
    );
    assert_eq!(resp.messages[1].granter, Some("owner".to_string()));
}

#[test]
fn balanced_deposit_has_no_swap() {
    let mut vault = Vault::new(config());
    let msg = AppExecuteMsg::Deposit {
        funds: vec![Coin::new(300, "usdt"), Coin::new(300, "usdc")],
    };
    let resp = execute_handler(&mut vault, &"admin".to_string(), msg, &snapshot(true), Some(Price::one()))
        .unwrap();
    assert_eq!(resp.messages.len(), 1);
    assert!(matches!(
        resp.messages[0].action,
        Action::AddToPosition { amount0: 300, amount1: 300, .. }
    ));
}

#[test]
fn deposit_without_pool_coins_is_inert() {
    let mut vault = Vault::new(config());
    let mut snap = snapshot(true);
    snap.asset0 = Coin::new(1_000_000_000_000_000_000_000, "usdt");
    let msg = AppExecuteMsg::Deposit { funds: vec![] };
    let resp = execute_handler(&mut vault, &"admin".to_string(), msg, &snap, Some(Price::one()))
        .unwrap();
    assert_eq!(resp.messages.len(), 1);
    assert!(matches!(
        resp.messages[0].action,
        Action::AddToPosition { amount0: 0, amount1: 0, .. }
    ));
}

#[test]
fn deposit_by_stranger_or_without_position_fails() {
    let mut vault = Vault::new(config());
    let msg = AppExecuteMsg::Deposit { funds: vec![Coin::new(5_000, "usdc")] };
    assert_eq!(
        execute_handler(&mut vault, &"eve".to_string(), msg.clone(), &snapshot(true), Some(Price::one())),
        Err(VaultError::Unauthorized)
    );
    assert_eq!(
        execute_handler(&mut vault, &"admin".to_string(), msg, &snapshot(false), Some(Price::one())),
        Err(VaultError::NoPosition)
    );
}

#[test]
fn withdraw_all_takes_recorded_liquidity() {
    let (o, taken) = prepare_withdraw(&snapshot(true), None).unwrap();
    assert_eq!(taken, "123456.789");
    assert_eq!(
        o.action,
        Action::WithdrawPosition {
            position_id: 7,
            sender: "owner".to_string(),
            liquidity_amount: "123456.789".to_string(),
        }
    );
}

#[test]
fn withdraw_amount_is_not_clamped() {
    let mut vault = Vault::new(config());
    let resp = execute_handler(&mut vault, 
            &"admin".to_string(),
            AppExecuteMsg::Withdraw { amount: 99_000_000_000_000 },
            &snapshot(true),
            None,
        )
        .unwrap();
    assert_eq!(resp.operation, Operation::Withdraw);
    assert_eq!(resp.withdraw_amount, Some("99000000000000".to_string()));
    assert_eq!(resp.messages.len(), 1);
    assert!(matches!(
        &resp.messages[0].action,
        Action::WithdrawPosition { liquidity_amount, .. } if liquidity_amount == "99000000000000"
    ));
}

#[test]
fn withdraw_by_stranger_is_unauthorized() {
    let mut vault = Vault::new(config());
    let r = execute_handler(&mut vault, &"vault".to_string(), AppExecuteMsg::WithdrawAll, &snapshot(true), None);
    assert_eq!(r, Err(VaultError::Unauthorized));
}

#[test]
fn autocompound_emits_four_actions_in_order() {
    let mut vault = Vault::new(config());
    let resp = execute_handler(&mut vault, &"anyone".to_string(), AppExecuteMsg::Autocompound, &snapshot(true), None)
        .unwrap();
    let rewards = vec![Coin::new(10, "osmo"), Coin::new(3, "usdc"), Coin::new(4, "usdt")];
    assert_eq!(resp.messages.len(), 4);
    assert_eq!(
        resp.messages[0].action,
        Action::CollectIncentives { position_ids: vec![7], sender: "owner".to_string() }
    );
    assert_eq!(
        resp.messages[1].action,
        Action::CollectSpreadRewards { position_ids: vec![7], sender: "owner".to_string() }
    );
    assert_eq!(
        resp.messages[2].action,
        Action::Send {
            from_address: "owner".to_string(),
            to_address: "proxy".to_string(),
            amount: rewards.clone(),
        }
    );
    assert_eq!(
        resp.messages[3].action,
        Action::DepositToSelf { contract_addr: "vault".to_string(), funds: rewards }
    );
    assert_eq!(resp.messages[3].granter, None);
}

#[test]
fn autocompound_with_nothing_claimable_still_emits_four() {
    let mut snap = snapshot(true);
    snap.claimable_incentives = vec![];
    snap.claimable_spread_rewards = vec![];
    let out = prepare_autocompound(&snap, &"proxy".to_string(), &"vault".to_string()).unwrap();
    assert_eq!(out.len(), 4);
    assert!(matches!(out[0].action, Action::CollectIncentives { .. }));
    assert!(matches!(out[1].action, Action::CollectSpreadRewards { .. }));
    assert!(matches!(&out[2].action, Action::Send { amount, .. } if amount.is_empty()));
    assert!(matches!(&out[3].action, Action::DepositToSelf { funds, .. } if funds.is_empty()));
}

#[test]
fn autocompound_without_position_fails() {
    let out = prepare_autocompound(&snapshot(false), &"proxy".to_string(), &"vault".to_string());
    assert_eq!(out, Err(VaultError::NoPosition));
}

#[test]
fn router_resolves_each_id_once() {
    let mut router = ReplyRouter::new();
    assert_eq!(router.register(4, Continuation::AttachCreatedPosition), Ok(()));
    assert!(router.is_pending(4));
    assert_eq!(
        router.register(4, Continuation::AttachCreatedPosition),
        Err(VaultError::CreationInProgress)
    );
    assert_eq!(router.resolve(4), Ok(Continuation::AttachCreatedPosition));
    assert!(!router.is_pending(4));
    assert_eq!(router.resolve(4), Err(VaultError::UnknownReply));
}
