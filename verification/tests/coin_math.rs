use pump_fun_like::coin_math::{buy, sell};
use pump_fun_like::constants::{FEE_RATE_BASIS_POINT, MAX_COIN_SUPPLY, REVERSE_COINS};
use pump_fun_like::fee_math;

#[test]
fn coin_math_test_buy_already_sold_is_0_and_buy_all() {
    let sol = buy(MAX_COIN_SUPPLY, MAX_COIN_SUPPLY - REVERSE_COINS);
    assert_eq!(sol, 85005359057);
    let sol_with_fee = sol + fee_math::buy(sol, FEE_RATE_BASIS_POINT * 1 / 100);
    assert_eq!(sol_with_fee, 85855412647);
}

#[test]
fn test_buy_already_sold_is_0_and_buy_half() {
    let sol = buy(MAX_COIN_SUPPLY, (MAX_COIN_SUPPLY - REVERSE_COINS) / 2);
    assert_eq!(sol, 17586665681 + 1);
    let sol_with_fee = sol + fee_math::buy(sol, FEE_RATE_BASIS_POINT * 1 / 100);
    assert_eq!(sol_with_fee, 17762532338);
}

#[test]
fn test_buy_already_sold_is_0_and_buy_1() {
    let sol = buy(MAX_COIN_SUPPLY, 1);
    assert_eq!(sol, 0 + 1);
}

#[test]
fn test_buy_already_sold_is_2329803488261_and_buy_17514483287344() {
    let already_sold = 2329803488261;
    let sol = buy(MAX_COIN_SUPPLY - already_sold, 17514483287344);
    assert_eq!(sol, 500000001);
}

#[test]
fn coin_math_test_pump_fun() {
    let real_token_reserves: u64 = 589359216751050;
    let sol = buy(
        real_token_reserves + REVERSE_COINS,
        1100e4 as u64 * 1e6 as u64,
    );
    assert_eq!(sol, 474619833);
    let sol_with_fee = sol + fee_math::buy(sol, FEE_RATE_BASIS_POINT * 1 / 100);
    assert_eq!(sol_with_fee, 479366031);

    let sol = sell(
        real_token_reserves + REVERSE_COINS,
        1100e4 as u64 * 1e6 as u64,
    );
    assert_eq!(sol, 462757832);
    let sol_with_fee = sol - fee_math::sell(sol, FEE_RATE_BASIS_POINT * 1 / 100);
    assert_eq!(sol_with_fee, 458130254);
}
