use pump_fun_like::coin::Coin;
use pump_fun_like::coin_math;
use pump_fun_like::config::Config;
use pump_fun_like::constants::{
    FEE_RATE_BASIS_POINT, MAX_COIN_SUPPLY, REVERSE_COINS, SELLABLE_COINS,
};
use pump_fun_like::errors::Error;
use pump_fun_like::fee_math;
use pump_fun_like::sol_math;

fn new_config() -> Config {
    Config {
        authority: [1; 32],
        fee_recipient: [2; 32],
        migration_authority: [3; 32],
        create_coin_fee: 0,
        // one percent on each side
        taker_fee_rate: FEE_RATE_BASIS_POINT / 100,
        maker_fee_rate: FEE_RATE_BASIS_POINT / 100,
    }
}

fn new_coin(remaining: u64, accumulated: u64) -> Coin {
    Coin {
        config: [0; 32],
        coin_mint: [0; 32],
        coin_vault: [0; 32],
        sol_vault: [0; 32],
        remaining_coin_supply: remaining,
        accumulate_sol: accumulated,
        symbol: String::new(),
        coin_bump: [0],
        sol_vault_bump: [0],
    }
}

#[test]
fn test_initialize_and_mint() {
    let mut coin = new_coin(0, 0);
    coin.initialize([4; 32], [5; 32], [6; 32], String::from("DOGE"), 7);
    assert_eq!(coin.coin_mint, [5; 32]);
    assert_eq!(coin.symbol, "DOGE");
    assert_eq!(coin.coin_bump, [7]);
    assert_eq!(coin.remaining_coin_supply, 0);

    let minted = coin.initialize_mint();
    assert_eq!(minted, MAX_COIN_SUPPLY);
    assert_eq!(coin.remaining_coin_supply, MAX_COIN_SUPPLY);
    assert_eq!(coin.available_supply(), SELLABLE_COINS);
}

#[test]
fn test_create_sol_vault_mismatch() {
    let mut coin = new_coin(0, 0);
    let r = coin.create_sol_vault([8; 32], 255, [9; 32]);
    assert_eq!(r, Err(Error::SolVaultAccountMismatch));
    assert_eq!(coin.sol_vault, [0; 32]);

    let r = coin.create_sol_vault([8; 32], 255, [8; 32]);
    assert_eq!(r, Ok(()));
    assert_eq!(coin.sol_vault, [8; 32]);
    assert_eq!(coin.sol_vault_bump, [255]);
}

#[test]
fn test_check_symbol_bounds() {
    assert!(!Coin::check_symbol(""));
    assert!(!Coin::check_symbol("a"));
    assert!(Coin::check_symbol("ab"));
    assert!(Coin::check_symbol("abcdefghij"));
    assert!(!Coin::check_symbol("abcdefghijk"));
}

#[test]
fn test_update_fee_validates_rates() {
    let mut config = new_config();
    let r = config.update_fee(5, FEE_RATE_BASIS_POINT + 1, 0);
    assert_eq!(r, Err(Error::InvalidTakerFeeRate));
    assert_eq!(config.taker_fee_rate, FEE_RATE_BASIS_POINT / 100);

    let r = config.update_fee(5, 0, FEE_RATE_BASIS_POINT + 1);
    assert_eq!(r, Err(Error::InvalidMakerFeeRate));
    assert_eq!(config.maker_fee_rate, FEE_RATE_BASIS_POINT / 100);
    assert_eq!(config.create_coin_fee, 0);

    let r = config.update_fee(5, 2_000_000, 3_000_000);
    assert_eq!(r, Ok(()));
    assert_eq!(config.create_coin_fee, 5);
    assert_eq!(config.taker_fee_rate, 2_000_000);
    assert_eq!(config.maker_fee_rate, 3_000_000);
}

#[test]
fn test_buy_all_sellable_with_fee() {
    let config = new_config();
    let mut coin = new_coin(MAX_COIN_SUPPLY, 0);
    let (pay, fee) = coin.buy(&config, SELLABLE_COINS, u64::MAX).unwrap();
    assert_eq!(pay, 85005359057);
    assert_eq!(pay + fee, 85855412647);
    assert_eq!(coin.remaining_coin_supply, REVERSE_COINS);
    assert_eq!(coin.accumulate_sol, 85005359057);

    // the market is now exhausted for good
    let r = coin.buy(&config, 1, u64::MAX);
    assert_eq!(r, Err(Error::AlreadyLaunched));
}

#[test]
fn test_exhausted_market_refuses_all_trades() {
    let config = new_config();
    for remaining in [0, REVERSE_COINS / 2, REVERSE_COINS] {
        for amount in [0, 1, SELLABLE_COINS] {
            let mut coin = new_coin(remaining, 1_000_000_000);
            assert_eq!(
                coin.buy(&config, amount, u64::MAX),
                Err(Error::AlreadyLaunched)
            );
            assert_eq!(
                coin.buy_exact_in(&config, amount, 0),
                Err(Error::AlreadyLaunched)
            );
            assert_eq!(
                coin.sell(&config, amount, 0),
                Err(Error::AlreadyLaunched)
            );
            assert_eq!(
                coin.sell_exact_out(&config, amount, u64::MAX),
                Err(Error::AlreadyLaunched)
            );
            assert_eq!(coin.remaining_coin_supply, remaining);
            assert_eq!(coin.accumulate_sol, 1_000_000_000);
        }
    }
}

#[test]
fn test_sell_exact_out_zero_receive() {
    let config = new_config();
    let mut coin = new_coin(MAX_COIN_SUPPLY - 1_000_000_000, 30);
    let r = coin.sell_exact_out(&config, 0, u64::MAX);
    assert_eq!(r, Err(Error::InvalidReceive));
    assert_eq!(coin.remaining_coin_supply, MAX_COIN_SUPPLY - 1_000_000_000);
}

#[test]
fn test_buy_insufficient_supply() {
    let config = new_config();
    let mut coin = new_coin(MAX_COIN_SUPPLY, 0);
    let r = coin.buy(&config, SELLABLE_COINS + 1, u64::MAX);
    assert_eq!(r, Err(Error::InsufficientSupply));
    assert_eq!(coin.remaining_coin_supply, MAX_COIN_SUPPLY);
}

#[test]
fn test_buy_max_pay_exceeded() {
    let config = new_config();
    let mut coin = new_coin(MAX_COIN_SUPPLY, 0);
    let r = coin.buy(&config, 1_000_000_000, 0);
    assert_eq!(r, Err(Error::MaxPayExceeded));
    assert_eq!(coin.remaining_coin_supply, MAX_COIN_SUPPLY);
}

#[test]
fn test_buy_exact_in_insufficient_receive() {
    let config = new_config();
    let mut coin = new_coin(MAX_COIN_SUPPLY, 0);
    let r = coin.buy_exact_in(&config, 1_000_000_000, u64::MAX);
    assert_eq!(r, Err(Error::InsufficientReceive));
    assert_eq!(coin.remaining_coin_supply, MAX_COIN_SUPPLY);
}

#[test]
fn test_buy_exact_in_pays_curve_and_fee() {
    let config = new_config();
    let mut coin = new_coin(MAX_COIN_SUPPLY, 0);
    let (tokens, fee) = coin.buy_exact_in(&config, 1_000_000_000, 0).unwrap();
    assert_eq!(tokens, 34612903225806);
    assert_eq!(fee, 10_000_000);
    assert_eq!(coin.remaining_coin_supply, MAX_COIN_SUPPLY - tokens);
    assert_eq!(coin.accumulate_sol, 1_000_000_000);
}

#[test]
fn test_sell_insufficient_receive() {
    let config = new_config();
    let mut coin = new_coin(MAX_COIN_SUPPLY - 34612903225806, 1_000_000_000);
    let r = coin.sell(&config, 34612903225806, u64::MAX);
    assert_eq!(r, Err(Error::InsufficientReceive));
    assert_eq!(coin.remaining_coin_supply, MAX_COIN_SUPPLY - 34612903225806);
}

#[test]
fn test_sell_exact_out_too_large() {
    let config = new_config();
    // nothing sold yet: the curve has raised nothing it could pay out,
    // whatever sol happens to sit in escrow
    let mut coin = new_coin(MAX_COIN_SUPPLY, 1000);
    let r = coin.sell_exact_out(&config, 5, u64::MAX);
    assert_eq!(r, Err(Error::ExactOutTooLarge));
    assert_eq!(coin.accumulate_sol, 1000);
}

#[test]
fn test_sell_exact_out_insufficient_escrow() {
    let config = new_config();
    let mut coin = new_coin(MAX_COIN_SUPPLY - 34612903225806, 999_999_999);
    // netting 1 sol needs more gross than the escrow holds
    let r = coin.sell_exact_out(&config, 999_999_999, u64::MAX);
    assert_eq!(r, Err(Error::InsufficientReceive));
    assert_eq!(coin.accumulate_sol, 999_999_999);
}

#[test]
fn test_sell_exact_out_round_numbers() {
    let config = new_config();
    let mut coin = new_coin(MAX_COIN_SUPPLY - 34612903225806, 1_000_000_000);
    let receive = 198_000_000;
    // gross = receive / (1 - 1%) = 200_000_000
    let (tokens_in, fee) = coin.sell_exact_out(&config, receive, u64::MAX).unwrap();
    assert_eq!(fee, 2_000_000);
    assert_eq!(coin.accumulate_sol, 1_000_000_000 - 200_000_000);
    assert_eq!(
        coin.remaining_coin_supply,
        MAX_COIN_SUPPLY - 34612903225806 + tokens_in
    );
    // the coins taken cover the gross amount at the curve's own price
    let quoted = coin_math::sell(MAX_COIN_SUPPLY - 34612903225806, tokens_in);
    assert!(quoted >= 200_000_000);
}

#[test]
fn test_sell_exact_out_max_pay_exceeded() {
    let config = new_config();
    let mut coin = new_coin(MAX_COIN_SUPPLY - 34612903225806, 1_000_000_000);
    let r = coin.sell_exact_out(&config, 198_000_000, 1);
    assert_eq!(r, Err(Error::MaxPayExceeded));
    assert_eq!(coin.accumulate_sol, 1_000_000_000);
}

#[test]
fn test_sol_sell_unexpected_output() {
    // A position where the curve value is a whole number: asking to free
    // zero sol leaves the inverse exactly where it started, which the
    // internal consistency check refuses.
    let r = sol_math::sell(MAX_COIN_SUPPLY - 973_000_000_000_000, 0);
    assert_eq!(r, Err(Error::UnexpectExactOutput));
}

#[test]
fn test_sol_sell_rejects_more_than_raised() {
    let r = sol_math::sell(MAX_COIN_SUPPLY, 1);
    assert_eq!(r, Err(Error::ExactOutTooLarge));
}

#[test]
fn test_zero_rate_zero_fee_at_full_supply() {
    assert_eq!(fee_math::buy(MAX_COIN_SUPPLY, 0), 0);
    assert_eq!(fee_math::sell(MAX_COIN_SUPPLY, 0), 0);
    assert_eq!(fee_math::buy(u64::MAX, 0), 0);
    assert_eq!(fee_math::sell(u64::MAX, 0), 0);
}

#[test]
fn test_buy_quote_monotone_and_round_trip() {
    let amount = 10_000_000_000_000;
    let cost_small = coin_math::buy(MAX_COIN_SUPPLY, amount);
    let cost_large = coin_math::buy(MAX_COIN_SUPPLY, amount + 1_000_000);
    assert!(cost_small <= cost_large);

    // selling straight back refunds exactly the cost, never more
    let refund = coin_math::sell(MAX_COIN_SUPPLY - amount, amount);
    assert_eq!(refund, cost_small);
}

#[test]
fn test_buy_quote_equal_below_step_strict_above() {
    // near the origin the curve moves well under one sol per coin, so
    // two tiny amounts quote the same cost ...
    assert_eq!(coin_math::buy(MAX_COIN_SUPPLY, 1), 1);
    assert_eq!(coin_math::buy(MAX_COIN_SUPPLY, 2), 1);
    // ... while amounts more than twice the virtual reserve ratio apart
    // always quote strictly apart
    let step = 2 * 1_073_000_000_000_000u64.div_ceil(30_000_000_000);
    assert!(coin_math::buy(MAX_COIN_SUPPLY, 1) < coin_math::buy(MAX_COIN_SUPPLY, 1 + step));
}

#[test]
fn test_sell_exact_out_coins_cover_gross() {
    let config = new_config();
    // a market part way down the curve, escrow matching its position
    let sold = 100_000_000_000_000u64;
    let escrow = coin_math::buy(MAX_COIN_SUPPLY, sold);
    for receive in [1u64, 99, 1_000_000, 500_000_000] {
        let mut coin = new_coin(MAX_COIN_SUPPLY - sold, escrow);
        let before = coin.remaining_coin_supply;
        let (tokens_in, _fee) = coin.sell_exact_out(&config, receive, u64::MAX).unwrap();
        let gross = escrow - coin.accumulate_sol;
        // the coins handed back cover the gross sol paid out
        assert!(coin_math::sell(before, tokens_in) >= gross);
    }
}

#[test]
fn test_tokens_for_payment_cost_at_most_payment() {
    for pay in [1, 17, 1_000_000, 3_333_333_333, 85_005_359_057] {
        let tokens = sol_math::buy(MAX_COIN_SUPPLY, pay);
        let cost = coin_math::buy(MAX_COIN_SUPPLY, tokens);
        assert!(cost <= pay);
    }
}

#[test]
fn test_round_trip_with_fees_never_profits() {
    let config = new_config();
    let mut coin = new_coin(MAX_COIN_SUPPLY, 0);

    let buys = [1_000_000_000_000u64, 35_000_000_000_000, 7_777_777_777];
    let mut paid: u64 = 0;
    let mut bought: u64 = 0;
    for amount in buys {
        let (pay, fee) = coin.buy(&config, amount, u64::MAX).unwrap();
        paid += pay + fee;
        bought += amount;
    }

    let (net, _fee) = coin.sell(&config, bought, 0).unwrap();
    assert!(net <= paid);
    assert_eq!(coin.remaining_coin_supply, MAX_COIN_SUPPLY);
}
