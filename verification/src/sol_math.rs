//! Quotes in the sol direction: how many coins a given amount of sol buys,
//! or how many coins must be sold to free a given amount of sol.

use crate::constants::{
    MAX_COIN_SUPPLY, MAX_VIRTUAL_COIN_RESERVES, REVERSE_COINS, SELLABLE_COINS,
    VIRTUAL_SOL_REVERSES,
};
use crate::curve::{
    buy_tokens, coins_floor, lemma_coins_range, lemma_sell_inverse_below, lemma_sol_cap,
    sell_tokens, sol_floor, MAX_SOL_RAISE,
};
use crate::errors::Error;
use vstd::arithmetic::mul::{lemma_mul_inequality, lemma_mul_nonnegative, lemma_mul_upper_bound};
use vstd::prelude::*;

verus! {

/// Calculates the amount of coin bought by paying `amount` sol.
///
/// `remaining_coin_supply` is the remaining supply of the coin, including
/// the reserved tail. The result is clamped to the sellable supply and
/// never exceeds what is still available past the reserved tail.
pub fn buy(remaining_coin_supply: u64, amount: u64) -> (r: u64)
    requires
        REVERSE_COINS <= remaining_coin_supply <= MAX_COIN_SUPPLY,
    ensures
        r == buy_tokens(MAX_COIN_SUPPLY - remaining_coin_supply, amount as int),
        r <= remaining_coin_supply - REVERSE_COINS,
{
    let already_sold = MAX_COIN_SUPPLY - remaining_coin_supply;
    proof {
        lemma_mul_nonnegative(already_sold as int, VIRTUAL_SOL_REVERSES as int);
        lemma_mul_inequality(
            already_sold as int,
            MAX_COIN_SUPPLY as int,
            VIRTUAL_SOL_REVERSES as int,
        );
        lemma_sol_cap(already_sold as int);
    }
    let numerator: u128 = already_sold as u128 * VIRTUAL_SOL_REVERSES as u128;
    let denominator = MAX_VIRTUAL_COIN_RESERVES - already_sold;
    let sol_before = numerator / denominator as u128;

    let sol_after = sol_before + amount as u128;
    proof {
        lemma_mul_nonnegative(sol_after as int, MAX_VIRTUAL_COIN_RESERVES as int);
        lemma_mul_upper_bound(
            sol_after as int,
            MAX_SOL_RAISE as int + u64::MAX as int,
            MAX_VIRTUAL_COIN_RESERVES as int,
            MAX_VIRTUAL_COIN_RESERVES as int,
        );
        lemma_coins_range(sol_after as int);
    }
    let numerator = sol_after * MAX_VIRTUAL_COIN_RESERVES as u128;
    let denominator = VIRTUAL_SOL_REVERSES as u128 + sol_after;
    let coin_after = numerator / denominator;
    if coin_after <= already_sold as u128 {
        0
    } else if coin_after >= SELLABLE_COINS as u128 {
        SELLABLE_COINS - already_sold
    } else {
        (coin_after - already_sold as u128) as u64
    }
}

/// Calculates the amount of coin that must be sold to receive exactly
/// `amount` sol.
///
/// `remaining_coin_supply` is the remaining supply of the coin, including
/// the reserved tail. Fails when `amount` exceeds the sol the curve has
/// raised at this position. When `amount` equals it exactly, everything
/// sold so far must come back: the general inverse would hit the virtual
/// origin of the curve. Any positive `amount` at or under the raised sol
/// succeeds and asks for no more coins than have been sold.
pub fn sell(remaining_coin_supply: u64, amount: u64) -> (r: Result<u64, Error>)
    requires
        remaining_coin_supply <= MAX_COIN_SUPPLY,
    ensures
        amount > sol_floor(MAX_COIN_SUPPLY - remaining_coin_supply) <==> r == Err::<u64, Error>(
            Error::ExactOutTooLarge,
        ),
        amount == sol_floor(MAX_COIN_SUPPLY - remaining_coin_supply) ==> r == Ok::<u64, Error>(
            (MAX_COIN_SUPPLY - remaining_coin_supply) as u64,
        ),
        amount < sol_floor(MAX_COIN_SUPPLY - remaining_coin_supply) ==> {
            let sold = MAX_COIN_SUPPLY - remaining_coin_supply;
            let after = coins_floor(sol_floor(sold) - amount);
            &&& after >= sold ==> r == Err::<u64, Error>(Error::UnexpectExactOutput)
            &&& after < sold ==> r == Ok::<u64, Error>((sold - after) as u64)
        },
        1 <= amount <= sol_floor(MAX_COIN_SUPPLY - remaining_coin_supply) ==> r
            == Ok::<u64, Error>(
            sell_tokens(MAX_COIN_SUPPLY - remaining_coin_supply, amount as int) as u64,
        ),
        r matches Ok(coins) ==> coins <= MAX_COIN_SUPPLY - remaining_coin_supply,
{
    let already_sold = MAX_COIN_SUPPLY - remaining_coin_supply;
    proof {
        lemma_mul_nonnegative(already_sold as int, VIRTUAL_SOL_REVERSES as int);
        lemma_mul_inequality(
            already_sold as int,
            MAX_COIN_SUPPLY as int,
            VIRTUAL_SOL_REVERSES as int,
        );
        lemma_sol_cap(already_sold as int);
    }
    let numerator: u128 = already_sold as u128 * VIRTUAL_SOL_REVERSES as u128;
    let denominator = MAX_VIRTUAL_COIN_RESERVES - already_sold;
    let sol_before = numerator / denominator as u128;

    if (sol_before as u64) < amount {
        return Err(Error::ExactOutTooLarge);
    } else if (sol_before as u64) == amount {
        // All sol raised is asked back: return everything sold so far.
        return Ok(already_sold);
    }

    proof {
        if 1 <= amount {
            lemma_sell_inverse_below(already_sold as int, amount as int);
        }
    }
    let sol_after = sol_before - amount as u128;
    proof {
        lemma_mul_nonnegative(sol_after as int, MAX_VIRTUAL_COIN_RESERVES as int);
        lemma_mul_upper_bound(
            sol_after as int,
            MAX_SOL_RAISE as int,
            MAX_VIRTUAL_COIN_RESERVES as int,
            MAX_VIRTUAL_COIN_RESERVES as int,
        );
        lemma_coins_range(sol_after as int);
    }
    let numerator = sol_after * MAX_VIRTUAL_COIN_RESERVES as u128;
    let denominator = VIRTUAL_SOL_REVERSES as u128 + sol_after;
    let coin_after = numerator / denominator;
    if coin_after >= already_sold as u128 {
        Err(Error::UnexpectExactOutput)
    } else {
        Ok(already_sold - coin_after as u64)
    }
}

} // verus!
