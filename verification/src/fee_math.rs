use crate::constants::FEE_RATE_BASIS_POINT;
use vstd::arithmetic::div_mod::{
    lemma_div_of0, lemma_div_pos_is_pos, lemma_multiply_divide_le,
};
use vstd::arithmetic::mul::{
    lemma_mul_basics, lemma_mul_inequality, lemma_mul_is_commutative, lemma_mul_nonnegative,
    lemma_mul_upper_bound,
};
use vstd::prelude::*;

verus! {

/// The fee on `amount` at `rate` parts of [`FEE_RATE_BASIS_POINT`], rounded
/// down in the trader's favor.
pub open spec fn fee_amount(amount: int, rate: int) -> int
    recommends
        0 <= amount,
        0 <= rate <= FEE_RATE_BASIS_POINT,
{
    amount * rate / (FEE_RATE_BASIS_POINT as int)
}

/// The gross sol that must leave the curve so that `receive` is left once
/// the taker fee is taken: receive / (1 - rate) in the fee fixed point.
pub open spec fn gross_receive(receive: int, rate: int) -> int
    recommends
        0 <= receive,
        0 <= rate < FEE_RATE_BASIS_POINT,
{
    receive * FEE_RATE_BASIS_POINT / (FEE_RATE_BASIS_POINT - rate)
}

/// A fee never goes negative and never exceeds the amount it is taken on.
pub proof fn lemma_fee_range(amount: int, rate: int)
    requires
        0 <= amount,
        0 <= rate <= FEE_RATE_BASIS_POINT,
    ensures
        0 <= fee_amount(amount, rate) <= amount,
{
    let b = FEE_RATE_BASIS_POINT as int;
    lemma_mul_nonnegative(amount, rate);
    lemma_div_pos_is_pos(amount * rate, b);
    lemma_mul_inequality(rate, b, amount);
    lemma_mul_is_commutative(amount, rate);
    lemma_mul_is_commutative(b, amount);
    lemma_multiply_divide_le(amount * rate, b, amount);
}

/// A zero rate charges no fee, whatever the amount.
pub proof fn lemma_zero_rate_no_fee(amount: int)
    ensures
        fee_amount(amount, 0) == 0,
{
    lemma_mul_basics(amount);
    lemma_div_of0(FEE_RATE_BASIS_POINT as int);
}

/// The gross amount needed to net `receive` after the taker fee is at
/// least `receive` itself.
pub proof fn lemma_gross_receive_at_least(receive: int, rate: int)
    requires
        0 <= receive,
        0 <= rate < FEE_RATE_BASIS_POINT,
    ensures
        receive <= gross_receive(receive, rate),
{
    let b = FEE_RATE_BASIS_POINT as int;
    let d = b - rate;
    lemma_mul_inequality(d, b, receive);
    lemma_mul_is_commutative(d, receive);
    lemma_mul_is_commutative(b, receive);
    vstd::arithmetic::div_mod::lemma_div_by_multiple(receive, d);
    vstd::arithmetic::div_mod::lemma_div_is_ordered(receive * d, receive * b, d);
}

/// The fee charged on top of a buy: `maker_fee_rate` parts of the sol the
/// curve is paid, rounded down.
pub fn buy(pay_amount_without_fee: u64, maker_fee_rate: u32) -> (r: u64)
    requires
        maker_fee_rate <= FEE_RATE_BASIS_POINT,
    ensures
        r == fee_amount(pay_amount_without_fee as int, maker_fee_rate as int),
{
    proof {
        lemma_fee_range(pay_amount_without_fee as int, maker_fee_rate as int);
        lemma_mul_upper_bound(
            pay_amount_without_fee as int,
            u64::MAX as int,
            maker_fee_rate as int,
            FEE_RATE_BASIS_POINT as int,
        );
    }
    (pay_amount_without_fee as u128 * maker_fee_rate as u128 / FEE_RATE_BASIS_POINT as u128) as u64
}

/// The fee kept out of a sell: `taker_fee_rate` parts of the sol the curve
/// refunds, rounded down.
pub fn sell(sol_amount: u64, taker_fee_rate: u32) -> (r: u64)
    requires
        taker_fee_rate <= FEE_RATE_BASIS_POINT,
    ensures
        r == fee_amount(sol_amount as int, taker_fee_rate as int),
{
    proof {
        lemma_fee_range(sol_amount as int, taker_fee_rate as int);
        lemma_mul_upper_bound(
            sol_amount as int,
            u64::MAX as int,
            taker_fee_rate as int,
            FEE_RATE_BASIS_POINT as int,
        );
    }
    (sol_amount as u128 * taker_fee_rate as u128 / FEE_RATE_BASIS_POINT as u128) as u64
}

} // verus!
