use pump_fun_like::coin_math;
use pump_fun_like::constants::{MAX_COIN_SUPPLY, REVERSE_COINS};
use pump_fun_like::sol_math::{buy, sell};

// One whole sol in its smallest unit.
const LAMPORTS_PER_SOL: u64 = 1_000_000_000;

#[test]
fn sol_math_test_buy_already_sold_is_0_and_buy_all() {
    let coin = buy(MAX_COIN_SUPPLY, 85005359057);
    assert_eq!(coin, 793100000000000);
}

#[test]
fn test_buy_already_sold_is_0_and_buy_all_and_pay_amount_is_too_high() {
    let coin = buy(MAX_COIN_SUPPLY, 85005359057 + LAMPORTS_PER_SOL);
    assert_eq!(coin, 793100000000000);
}

#[test]
fn test_buy_already_sold_is_0_and_pay_1() {
    let coin = buy(MAX_COIN_SUPPLY, 1);
    assert_eq!(coin, (0.035766 * 1e6) as u64);
}

#[test]
fn test_buy_already_sold_is_0_and_pay_1e8() {
    let coin = buy(MAX_COIN_SUPPLY, 1e8 as u64);
    assert_eq!(coin, (3564784.053156 * 1e6) as u64);
}

#[test]
fn test_buy_already_sold_is_0_and_pay_1e9() {
    let coin = buy(MAX_COIN_SUPPLY, 1e9 as u64);
    assert_eq!(coin, 34612903225806);
}

#[test]
fn test_buy_already_sold_is_0_and_pay_3333333333() {
    let coin = buy(MAX_COIN_SUPPLY, 3333333333);
    assert_eq!(coin, 107299999990342);
}

#[test]
fn test_buy_already_sold_is_2692001940000_and_pay_10e9() {
    let already_sold = 2692001940000;
    let coin = buy(MAX_COIN_SUPPLY - already_sold, 10e9 as u64);

    let buy_sol = coin_math::buy(MAX_COIN_SUPPLY, already_sold + coin);
    let sell_sol = coin_math::sell(MAX_COIN_SUPPLY - already_sold - coin, already_sold + coin);
    let buy_sol_already_sold = coin_math::buy(MAX_COIN_SUPPLY, already_sold);
    assert!(buy_sol >= sell_sol);
    assert!(buy_sol_already_sold + 10e9 as u64 >= sell_sol);
    println!(
        "raw_buy_sol: {}, raw_sell_sol: {}, mixed_buy_sol: {}",
        buy_sol,
        sell_sol,
        buy_sol_already_sold + 10e9 as u64
    );
    assert_eq!(coin, 267073199500706);
}

#[test]
fn test_sell_already_sold_is_all() {
    let sol = coin_math::buy(MAX_COIN_SUPPLY, MAX_COIN_SUPPLY - REVERSE_COINS);
    println!("sol: {}", sol);
    let coin = buy(MAX_COIN_SUPPLY, sol);
    assert_eq!(coin, MAX_COIN_SUPPLY - REVERSE_COINS);

    let coin_recover_buy_sell = sell(REVERSE_COINS, sol - 1).unwrap();
    println!("coin_recover_buy_sell: {}", coin_recover_buy_sell);
    assert_eq!(coin_recover_buy_sell, coin);
}

#[test]
fn sol_math_test_pump_fun() {
    let real_token_reserves: u64 = 589359216751050;
    let coin = buy(real_token_reserves + REVERSE_COINS, (0.5 * 1e9) as u64);
    assert_eq!(coin, 11580385658285);
    let coin_recover = sell(
        real_token_reserves + REVERSE_COINS - coin,
        (0.5 * 1e9) as u64,
    )
    .unwrap();
    assert!(coin_recover >= coin);
    println!("diff: {}", coin_recover - coin);

    let coin = buy(real_token_reserves + REVERSE_COINS, (1.0 * 1e9) as u64);
    assert_eq!(coin, 22856276991103);
    let coin_recover = sell(
        real_token_reserves + REVERSE_COINS - coin,
        (1.0 * 1e9) as u64,
    )
    .unwrap();
    assert!(coin_recover >= coin);
    println!("diff: {}", coin_recover - coin);

    let coin = buy(real_token_reserves + REVERSE_COINS, (23.33333 * 1e9) as u64);
    assert_eq!(coin, 336001966735479);
    let coin_recover = sell(
        real_token_reserves + REVERSE_COINS - coin,
        (23.33333 * 1e9) as u64,
    )
    .unwrap();
    assert!(coin_recover >= coin);
    println!("diff: {}", coin_recover - coin);
}
