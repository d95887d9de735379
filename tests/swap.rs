use cosmwasm_std::{Decimal, Uint128};
use savings_vault::assets::{tokens_to_swap, AnsAsset, AssetEntry, Coin, PoolConfig};
use savings_vault::decimal::{div_price, mul_price, Price};
use savings_vault::solver::{solve, ArithmeticError, Side};

const DEPOSIT_TOKEN: &str = "USDC";
const TOKEN0: &str = "USDT";
const TOKEN1: &str = DEPOSIT_TOKEN;

fn assert_is_around(result: u128, expected: u128) {
    if expected < result - 1 || expected > result + 1 {
        panic!("Results are not close enough")
    }
}

fn setup_config() -> PoolConfig {
    PoolConfig {
        pool_id: 45,
        token0: TOKEN0.to_string(),
        token1: TOKEN1.to_string(),
        asset0: AssetEntry::new(TOKEN0),
        asset1: AssetEntry::new(TOKEN1),
    }
}

fn coins(amount: u128, denom: &str) -> Vec<Coin> {
    vec![Coin::new(amount, denom)]
}

fn decimal_price(price: Price) -> Decimal {
    Decimal::raw(price.atomics)
}

#[test]
fn swap_for_ratio_one_to_one() {
    let config = setup_config();
    let (swap, ask_asset, _final_asset) = tokens_to_swap(
        &config,
        &coins(5_000, DEPOSIT_TOKEN),
        &Coin::new(100_000_000, TOKEN0),
        &Coin::new(100_000_000, TOKEN1),
        Price::one(),
    )
    .unwrap();

    assert_eq!(
        swap,
        AnsAsset {
            name: AssetEntry::new("usdc"),
            amount: 2500
        }
    );
    assert_eq!(ask_asset, AssetEntry::new("usdt"));
}

#[test]
fn swap_for_ratio_close_to_one() {
    let config = setup_config();
    let amount0 = 110_000_000;
    let amount1 = 100_000_000;

    let (swap, ask_asset, _final_asset) = tokens_to_swap(
        &config,
        &coins(5_000, DEPOSIT_TOKEN),
        &Coin::new(amount0, TOKEN0),
        &Coin::new(amount1, TOKEN1),
        Price::one(),
    )
    .unwrap();

    assert_is_around(swap.amount, 5_000 - 5_000 * amount1 / (amount1 + amount0));
    assert_eq!(swap.name, AssetEntry::new(TOKEN1));
    assert_eq!(ask_asset, AssetEntry::new(TOKEN0));
}

#[test]
fn swap_for_ratio_far_from_one() {
    let config = setup_config();
    let amount0 = 90_000_000;
    let amount1 = 10_000_000;
    let (swap, ask_asset, _final_asset) = tokens_to_swap(
        &config,
        &coins(5_000, DEPOSIT_TOKEN),
        &Coin::new(amount0, TOKEN0),
        &Coin::new(amount1, TOKEN1),
        Price::one(),
    )
    .unwrap();

    assert_eq!(
        swap,
        AnsAsset {
            name: AssetEntry::new(DEPOSIT_TOKEN),
            amount: 5_000 - 5_000 * amount1 / (amount1 + amount0)
        }
    );
    assert_eq!(ask_asset, AssetEntry::new(TOKEN0));
}

#[test]
fn swap_for_ratio_far_from_one_inverse() {
    let config = setup_config();
    let amount0 = 10_000_000;
    let amount1 = 90_000_000;
    let (swap, ask_asset, _final_asset) = tokens_to_swap(
        &config,
        &coins(5_000, DEPOSIT_TOKEN),
        &Coin::new(amount0, TOKEN0),
        &Coin::new(amount1, TOKEN1),
        Price::one(),
    )
    .unwrap();

    assert_is_around(swap.amount, 5_000 - 5_000 * amount1 / (amount1 + amount0));
    assert_eq!(swap.name, AssetEntry::new(TOKEN1));
    assert_eq!(ask_asset, AssetEntry::new(TOKEN0));
}

#[test]
fn swap_for_non_unit_price() {
    let config = setup_config();
    let amount0 = 10_000_000;
    let amount1 = 90_000_000;
    let price = Price::percent(150);
    let (swap, ask_asset, _final_asset) = tokens_to_swap(
        &config,
        &coins(5_000, DEPOSIT_TOKEN),
        &Coin::new(amount0, TOKEN0),
        &Coin::new(amount1, TOKEN1),
        price,
    )
    .unwrap();

    assert_is_around(
        swap.amount,
        5_000
            - 5_000 * amount1
                / (amount1
                    + (Decimal::from_ratio(amount0, 1u128) / decimal_price(price)
                        * Uint128::one())
                    .u128()),
    );
    assert_eq!(swap.name, AssetEntry::new(TOKEN1));
    assert_eq!(ask_asset, AssetEntry::new(TOKEN0));
}

#[test]
fn swap_multiple_tokens_for_non_unit_price() {
    let config = setup_config();
    let amount0 = 10_000_000;
    let amount1 = 10_000_000;
    let price = Price::percent(150);
    let (swap, ask_asset, _final_asset) = tokens_to_swap(
        &config,
        &vec![Coin::new(10_000, TOKEN0), Coin::new(4_000, TOKEN1)],
        &Coin::new(amount0, TOKEN0),
        &Coin::new(amount1, TOKEN1),
        price,
    )
    .unwrap();

    assert_eq!(swap.name, AssetEntry::new(TOKEN0));
    assert_eq!(ask_asset, AssetEntry::new(TOKEN1));
    assert_eq!(
        10_000 - swap.amount,
        4_000
            + (Decimal::from_ratio(swap.amount, 1u128) / decimal_price(price) * Uint128::one())
                .u128()
    );
}

#[test]
fn one_to_one_scenario_results() {
    // Funds only in asset1 at a 1:1 target: half of them is swapped into asset0.
    let config = setup_config();
    let (swap, _, balances) = tokens_to_swap(
        &config,
        &coins(5_000, DEPOSIT_TOKEN),
        &Coin::new(100_000_000, TOKEN0),
        &Coin::new(100_000_000, TOKEN1),
        Price::one(),
    )
    .unwrap();
    assert_eq!(swap.amount, 2_500);
    assert_eq!(balances, vec![Coin::new(2_500, TOKEN0), Coin::new(2_500, TOKEN1)]);
}

#[test]
fn ninety_ten_equal_funds_within_rounding() {
    let config = setup_config();
    let (t0, t1) = (90_000_000u128, 10_000_000u128);
    let (swap, ask, balances) = tokens_to_swap(
        &config,
        &vec![Coin::new(5_000, TOKEN0), Coin::new(5_000, TOKEN1)],
        &Coin::new(t0, TOKEN0),
        &Coin::new(t1, TOKEN1),
        Price::percent(150),
    )
    .unwrap();
    // asset0 is scarce (5000·1e7 < 5000·9e7): asset1 is offered for asset0.
    assert_eq!(swap.name, AssetEntry::new(TOKEN1));
    assert_eq!(ask, AssetEntry::new(TOKEN0));
    // y = ⌊(5000·9e7 − 5000·1e7) / (9e7 + ⌊1.5·1e7⌋)⌋ = ⌊4e11 / 1.05e8⌋ = 3809
    assert_eq!(swap.amount, 3_809);
    assert_eq!(balances[0].amount, 5_000 + 5_713);
    assert_eq!(balances[1].amount, 5_000 - 3_809);
    // No overshoot, and less than the divisor (t0 + 1.5·t1)·10^18 plus t1·10^18 remains.
    let s: i128 = 1_000_000_000_000_000_000;
    let gap = balances[1].amount as i128 * t0 as i128 - balances[0].amount as i128 * t1 as i128;
    assert!(gap >= 0);
    assert!(gap * s < (t0 as i128 * s + 15 * s / 10 * t1 as i128) + t1 as i128 * s);
}

#[test]
fn balanced_input_is_noop() {
    let plan = solve(300, 100, 3_000, 1_000, Price::percent(250)).unwrap();
    assert_eq!(plan.offer, Side::Asset0);
    assert_eq!(plan.amount, 0);
    assert_eq!((plan.result0, plan.result1), (300, 100));
}

#[test]
fn no_funds_gives_zero_swap() {
    let plan = solve(0, 0, 3_000, 1_000, Price::one()).unwrap();
    assert_eq!(plan.offer, Side::Asset0);
    assert_eq!(plan.amount, 0);
    assert_eq!((plan.result0, plan.result1), (0, 0));
}

#[test]
fn mirrored_inputs_mirror_the_result() {
    let a = solve(1_000, 7_000, 4_000, 9_000, Price::percent(200)).unwrap();
    let b = solve(7_000, 1_000, 9_000, 4_000, Price::percent(50)).unwrap();
    assert_eq!(a.amount, b.amount);
    assert_eq!((a.result0, a.result1), (b.result1, b.result0));
    assert_eq!(a.offer, Side::Asset1);
    assert_eq!(b.offer, Side::Asset0);
    // y1 = ⌊(7000·4000 − 1000·9000) / (4000 + 2·9000)⌋ = ⌊19e6 / 22000⌋ = 863
    assert_eq!(a.amount, 863);
    assert_eq!((a.result0, a.result1), (1_000 + 1_726, 7_000 - 863));
}

#[test]
fn overflowing_input_is_an_error() {
    assert_eq!(
        solve(u128::MAX, 0, 1, 2, Price::one()),
        Err(ArithmeticError::Overflow)
    );
}

#[test]
fn zero_denominator_is_an_error() {
    // With both targets zero the divisor t1 + t0 / p is zero.
    assert_eq!(
        solve(0, 0, 0, 0, Price::percent(200)),
        Err(ArithmeticError::DivideByZero)
    );
}

#[test]
fn divisor_keeps_the_price_fraction() {
    // Targets 1:1 at price 1.5 with 1000 of asset1: the divisor is 2.5, not 2.
    let plan = solve(0, 1_000, 1, 1, Price::percent(150)).unwrap();
    assert_eq!(plan.offer, Side::Asset1);
    assert_eq!(plan.amount, 400);
    assert_eq!((plan.result0, plan.result1), (600, 600));
}

#[test]
fn large_targets_without_funds_are_a_noop() {
    let t0 = 1_000_000_000_000_000_000_000u128;
    let plan = solve(0, 0, t0, 1, Price::one()).unwrap();
    assert_eq!((plan.offer, plan.amount, plan.result0, plan.result1), (Side::Asset0, 0, 0, 0));
    let plan = solve(0, 0, t0, 1, Price::percent(1_000)).unwrap();
    assert_eq!((plan.amount, plan.result0, plan.result1), (0, 0, 0));
}

#[test]
fn large_amounts_rebalance() {
    let target = 10_000_000_000_000_000_000_000u128;
    let held = 10_000_000_000_000_000u128;
    let plan = solve(0, held, target, target, Price::one()).unwrap();
    assert_eq!(plan.offer, Side::Asset1);
    assert_eq!(plan.amount, held / 2);
    assert_eq!((plan.result0, plan.result1), (held / 2, held / 2));
    let plan = solve(held, 0, target, target, Price::percent(200)).unwrap();
    // y0 = ⌊held·2 / (2 + 1)⌋, and asset1 gains y0 / 2.
    assert_eq!(plan.offer, Side::Asset0);
    assert_eq!(plan.amount, 2 * held / 3);
    assert_eq!((plan.result0, plan.result1), (held - 2 * held / 3, 2 * held / 3 / 2));
}

#[test]
fn price_arithmetic_rounds_down() {
    assert_eq!(mul_price(10, Price::percent(150)), Some(15));
    assert_eq!(mul_price(3, Price::percent(150)), Some(4));
    assert_eq!(div_price(10, Price::percent(150)), Some(6));
    assert_eq!(div_price(10, Price::from_atomics(0)), None);
    assert_eq!(mul_price(u128::MAX, Price::percent(200)), None);
}

#[test]
fn asset_names_are_lower_cased() {
    assert_eq!(AssetEntry::new("UsDc-1").name, "usdc-1");
}

#[test]
fn only_the_first_coin_of_a_denomination_counts() {
    let config = setup_config();
    let (swap, _, _) = tokens_to_swap(
        &config,
        &vec![Coin::new(5_000, TOKEN1), Coin::new(9_000, TOKEN1), Coin::new(1, "other")],
        &Coin::new(100, TOKEN0),
        &Coin::new(100, TOKEN1),
        Price::one(),
    )
    .unwrap();
    assert_eq!(swap.amount, 2_500);
}
