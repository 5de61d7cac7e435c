//! Quotes in the coin direction: how much sol a given number of coins
//! costs or refunds.

use crate::constants::{MAX_COIN_SUPPLY, MAX_VIRTUAL_COIN_RESERVES, VIRTUAL_SOL_REVERSES};
use crate::curve::{buy_quote, lemma_sol_cap, lemma_sol_monotone, sell_quote};
use crate::math;
use vstd::arithmetic::mul::{lemma_mul_inequality, lemma_mul_nonnegative};
use vstd::prelude::*;

verus! {

/// Which direction a quote is taken in.
#[derive(PartialEq, Eq)]
pub enum Side {
    Buy,
    Sell,
}

/// Calculates the amount of sol to be paid for buying `amount` coins.
///
/// `remaining_coin_supply` is the remaining supply of the coin, including
/// the reserved tail; `amount` may not exceed it.
pub fn buy(remaining_coin_supply: u64, amount: u64) -> (r: u64)
    requires
        remaining_coin_supply <= MAX_COIN_SUPPLY,
        amount <= remaining_coin_supply,
    ensures
        r == buy_quote(MAX_COIN_SUPPLY - remaining_coin_supply, amount as int),
{
    calc(remaining_coin_supply, amount, Side::Buy)
}

/// Calculates the amount of sol to be received for selling `amount` coins.
///
/// `remaining_coin_supply` is the remaining supply of the coin, including
/// the reserved tail; `amount` may not exceed what has been sold so far.
pub fn sell(remaining_coin_supply: u64, amount: u64) -> (r: u64)
    requires
        remaining_coin_supply <= MAX_COIN_SUPPLY,
        amount <= MAX_COIN_SUPPLY - remaining_coin_supply,
    ensures
        r == sell_quote(MAX_COIN_SUPPLY - remaining_coin_supply, amount as int),
{
    calc(remaining_coin_supply, amount, Side::Sell)
}

/// Calculates the amount of sol to be paid or received: the difference of
/// the curve position before and after the trade, rounded against the
/// trader on each side.
fn calc(remaining_coin_supply: u64, amount: u64, side: Side) -> (r: u64)
    requires
        remaining_coin_supply <= MAX_COIN_SUPPLY,
        side == Side::Buy ==> amount <= remaining_coin_supply,
        side == Side::Sell ==> amount <= MAX_COIN_SUPPLY - remaining_coin_supply,
    ensures
        side == Side::Buy ==> r == buy_quote(
            MAX_COIN_SUPPLY - remaining_coin_supply,
            amount as int,
        ),
        side == Side::Sell ==> r == sell_quote(
            MAX_COIN_SUPPLY - remaining_coin_supply,
            amount as int,
        ),
{
    let already_sold = MAX_COIN_SUPPLY - remaining_coin_supply;
    proof {
        lemma_mul_nonnegative(already_sold as int, VIRTUAL_SOL_REVERSES as int);
        lemma_mul_inequality(
            already_sold as int,
            MAX_COIN_SUPPLY as int,
            VIRTUAL_SOL_REVERSES as int,
        );
    }
    let numerator: u128 = already_sold as u128 * VIRTUAL_SOL_REVERSES as u128;
    let denominator = MAX_VIRTUAL_COIN_RESERVES - already_sold;

    match side {
        Side::Buy => {
            let sol_before = numerator / denominator as u128;

            let already_sold_target = already_sold + amount;
            proof {
                lemma_mul_nonnegative(already_sold_target as int, VIRTUAL_SOL_REVERSES as int);
                lemma_mul_inequality(
                    already_sold_target as int,
                    MAX_COIN_SUPPLY as int,
                    VIRTUAL_SOL_REVERSES as int,
                );
            }
            let numerator = already_sold_target as u128 * VIRTUAL_SOL_REVERSES as u128;
            let denominator = MAX_VIRTUAL_COIN_RESERVES - already_sold_target;
            let sol_after = math::ceil_div(numerator, denominator as u128);
            proof {
                lemma_sol_monotone(already_sold as int, already_sold_target as int);
                lemma_sol_cap(already_sold_target as int);
            }
            (sol_after - sol_before) as u64
        }
        Side::Sell => {
            let sol_before = math::ceil_div(numerator, denominator as u128);

            let already_sold_target = already_sold - amount;
            proof {
                lemma_mul_nonnegative(already_sold_target as int, VIRTUAL_SOL_REVERSES as int);
                lemma_mul_inequality(
                    already_sold_target as int,
                    MAX_COIN_SUPPLY as int,
                    VIRTUAL_SOL_REVERSES as int,
                );
                lemma_sol_cap(already_sold as int);
            }
            let numerator = already_sold_target as u128 * VIRTUAL_SOL_REVERSES as u128;
            let denominator = MAX_VIRTUAL_COIN_RESERVES - already_sold_target;
            let sol_after = numerator / denominator as u128;
            if sol_before <= sol_after {
                0
            } else {
                (sol_before - sol_after) as u64
            }
        }
    }
}

} // verus!
