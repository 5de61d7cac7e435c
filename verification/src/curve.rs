//! The mathematical model of the bonding curve.
//!
//! The curve keeps `(MAX_VIRTUAL_COIN_RESERVES - sold) * (VIRTUAL_SOL_REVERSES + sol)`
//! constant, where `sold` counts coins that have left the curve and `sol` is
//! the reserve raised for them. Solving for `sol` gives the position
//! `sold * VIRTUAL_SOL_REVERSES / (MAX_VIRTUAL_COIN_RESERVES - sold)`, an
//! exact rational that executable code only ever sees rounded down
//! ([`sol_floor`]) or up ([`sol_ceil`]). The rounding of each quote is chosen
//! so that the curve never undercharges a buyer nor overpays a seller.

use crate::constants::{
    FEE_RATE_BASIS_POINT, MAX_COIN_SUPPLY, MAX_VIRTUAL_COIN_RESERVES, SELLABLE_COINS,
    VIRTUAL_COIN_RESERVES, VIRTUAL_SOL_REVERSES,
};
use crate::fee_math::{fee_amount, lemma_fee_range};
use crate::math::{
    div_ceil, lemma_div_ceil_bounds, lemma_div_ceil_le, lemma_div_ceil_ordered,
    lemma_div_ceil_ordered_by_denominator,
};
use vstd::arithmetic::div_mod::{
    lemma_div_is_ordered, lemma_div_is_ordered_by_denominator, lemma_div_pos_is_pos,
    lemma_fundamental_div_mod, lemma_multiply_divide_le, lemma_multiply_divide_lt,
};
use vstd::arithmetic::mul::{
    lemma_mul_inequality, lemma_mul_is_commutative, lemma_mul_nonnegative,
};
use vstd::prelude::*;

verus! {

/// The most sol the curve can ever report for a position: the value of
/// [`sol_ceil`] at `MAX_COIN_SUPPLY`. Every quote fits under this bound.
pub const MAX_SOL_RAISE: u64 = 410_958_904_110;

/// Sol raised once `sold` coins have left the curve, rounded down.
pub open spec fn sol_floor(sold: int) -> int
    recommends
        0 <= sold < MAX_VIRTUAL_COIN_RESERVES,
{
    sold * VIRTUAL_SOL_REVERSES / (MAX_VIRTUAL_COIN_RESERVES - sold)
}

/// Sol raised once `sold` coins have left the curve, rounded up.
pub open spec fn sol_ceil(sold: int) -> int
    recommends
        0 <= sold < MAX_VIRTUAL_COIN_RESERVES,
{
    div_ceil(sold * VIRTUAL_SOL_REVERSES, MAX_VIRTUAL_COIN_RESERVES - sold)
}

/// The curve position that `sol` raised reserve corresponds to, rounded
/// down: the inverse of the exact curve relation.
pub open spec fn coins_floor(sol: int) -> int
    recommends
        0 <= sol,
{
    sol * MAX_VIRTUAL_COIN_RESERVES / (VIRTUAL_SOL_REVERSES + sol)
}

/// Sol charged for buying `amount` coins at position `sold`: the after
/// position rounded up less the before position rounded down, so the buyer
/// is never undercharged.
pub open spec fn buy_quote(sold: int, amount: int) -> int
    recommends
        0 <= sold,
        0 <= amount,
        sold + amount <= MAX_COIN_SUPPLY,
{
    sol_ceil(sold + amount) - sol_floor(sold)
}

/// Sol refunded for selling `amount` coins at position `sold`: the before
/// position rounded up less the after position rounded down, and never
/// negative.
pub open spec fn sell_quote(sold: int, amount: int) -> int
    recommends
        0 <= amount <= sold <= MAX_COIN_SUPPLY,
{
    if sol_ceil(sold) <= sol_floor(sold - amount) {
        0
    } else {
        sol_ceil(sold) - sol_floor(sold - amount)
    }
}

/// Coins bought for paying `pay` sol at position `sold`: the inverse of the
/// curve at the new reserve level, rounded down and clamped so the result
/// never runs past the sellable supply nor below zero.
pub open spec fn buy_tokens(sold: int, pay: int) -> int
    recommends
        0 <= sold <= SELLABLE_COINS,
        0 <= pay,
{
    let after = coins_floor(sol_floor(sold) + pay);
    if after <= sold {
        0
    } else if after >= SELLABLE_COINS {
        SELLABLE_COINS - sold
    } else {
        after - sold
    }
}

/// Coins that must be sold at position `sold` to free exactly `amount` sol:
/// everything sold so far when `amount` drains the whole position, else the
/// distance back to the inverse of the lowered reserve level.
pub open spec fn sell_tokens(sold: int, amount: int) -> int
    recommends
        0 <= sold <= MAX_COIN_SUPPLY,
        0 < amount <= sol_floor(sold),
{
    if amount == sol_floor(sold) {
        sold
    } else {
        sold - coins_floor(sol_floor(sold) - amount)
    }
}

/// The curve position is never negative, and its two roundings differ by
/// at most one.
pub proof fn lemma_sol_nonneg(sold: int)
    requires
        0 <= sold < MAX_VIRTUAL_COIN_RESERVES,
    ensures
        0 <= sol_floor(sold),
        sol_floor(sold) <= sol_ceil(sold) <= sol_floor(sold) + 1,
{
    lemma_mul_nonnegative(sold, VIRTUAL_SOL_REVERSES as int);
    lemma_div_pos_is_pos(sold * VIRTUAL_SOL_REVERSES, MAX_VIRTUAL_COIN_RESERVES - sold);
    lemma_div_ceil_bounds(sold * VIRTUAL_SOL_REVERSES, MAX_VIRTUAL_COIN_RESERVES - sold);
}

/// Up to the full supply, the curve position stays at or below
/// [`MAX_SOL_RAISE`].
pub proof fn lemma_sol_cap(sold: int)
    requires
        0 <= sold <= MAX_COIN_SUPPLY,
    ensures
        0 <= sol_floor(sold),
        sol_floor(sold) <= sol_ceil(sold) <= sol_floor(sold) + 1,
        sol_ceil(sold) <= MAX_SOL_RAISE,
{
    lemma_sol_nonneg(sold);
    let n = sold * VIRTUAL_SOL_REVERSES;
    let nmax = MAX_COIN_SUPPLY as int * VIRTUAL_SOL_REVERSES as int;
    let d = MAX_VIRTUAL_COIN_RESERVES - sold;
    lemma_mul_inequality(sold, MAX_COIN_SUPPLY as int, VIRTUAL_SOL_REVERSES as int);
    lemma_div_ceil_ordered_by_denominator(n, VIRTUAL_COIN_RESERVES as int, d);
    lemma_div_ceil_ordered(n, nmax, VIRTUAL_COIN_RESERVES as int);
    vstd::arithmetic::div_mod::lemma_fundamental_div_mod_converse(
        nmax,
        VIRTUAL_COIN_RESERVES as int,
        410_958_904_109,
        43_000_000_000_000,
    );
}

/// Both roundings of the curve position grow with the position.
pub proof fn lemma_sol_monotone(s1: int, s2: int)
    requires
        0 <= s1 <= s2 < MAX_VIRTUAL_COIN_RESERVES,
    ensures
        sol_floor(s1) <= sol_floor(s2),
        sol_ceil(s1) <= sol_ceil(s2),
{
    let n1 = s1 * VIRTUAL_SOL_REVERSES;
    let n2 = s2 * VIRTUAL_SOL_REVERSES;
    let d1 = MAX_VIRTUAL_COIN_RESERVES - s1;
    let d2 = MAX_VIRTUAL_COIN_RESERVES - s2;
    lemma_mul_inequality(s1, s2, VIRTUAL_SOL_REVERSES as int);
    lemma_mul_nonnegative(s1, VIRTUAL_SOL_REVERSES as int);
    lemma_mul_nonnegative(s2, VIRTUAL_SOL_REVERSES as int);
    lemma_div_is_ordered(n1, n2, d1);
    lemma_div_is_ordered_by_denominator(n2, d2, d1);
    lemma_div_ceil_ordered(n1, n2, d1);
    lemma_div_ceil_ordered_by_denominator(n2, d2, d1);
}

/// The inverse of the curve stays within the virtual coin reserve.
pub proof fn lemma_coins_range(sol: int)
    requires
        0 <= sol,
    ensures
        0 <= coins_floor(sol) < MAX_VIRTUAL_COIN_RESERVES,
{
    let m = MAX_VIRTUAL_COIN_RESERVES as int;
    let v = VIRTUAL_SOL_REVERSES as int;
    lemma_mul_nonnegative(sol, m);
    lemma_div_pos_is_pos(sol * m, v + sol);
    assert(sol * m < (v + sol) * m) by (nonlinear_arith)
        requires
            0 <= sol,
            0 < v,
            0 < m,
    ;
    lemma_multiply_divide_lt(sol * m, v + sol, m);
}

/// Charging the curve for the position that `y` sol buys never costs more
/// than `y`: rounding the inverse down keeps the round trip at or below the
/// reserve that was paid in.
pub proof fn lemma_coins_inverse_le(y: int)
    requires
        0 <= y,
    ensures
        sol_ceil(coins_floor(y)) <= y,
{
    let m = MAX_VIRTUAL_COIN_RESERVES as int;
    let v = VIRTUAL_SOL_REVERSES as int;
    let c = coins_floor(y);
    lemma_coins_range(y);
    lemma_fundamental_div_mod(y * m, v + y);
    vstd::arithmetic::div_mod::lemma_mod_division_less_than_divisor(y * m, v + y);
    assert(c * v <= y * (m - c)) by (nonlinear_arith)
        requires
            y * m == (v + y) * c + (y * m) % (v + y),
            0 <= (y * m) % (v + y),
            0 <= c,
            0 <= y,
            0 < v,
    ;
    lemma_mul_nonnegative(c, v);
    lemma_div_ceil_le(c * v, m - c, y);
}

/// Lowering the reserve level by at least one sol pulls the inverse
/// strictly below the current position: the consistency check inside the
/// sell inverse cannot fire for a positive request.
pub proof fn lemma_sell_inverse_below(sold: int, amount: int)
    requires
        0 < sold < MAX_VIRTUAL_COIN_RESERVES,
        1 <= amount <= sol_floor(sold),
    ensures
        coins_floor(sol_floor(sold) - amount) < sold,
{
    let m = MAX_VIRTUAL_COIN_RESERVES as int;
    let v = VIRTUAL_SOL_REVERSES as int;
    let sb = sol_floor(sold);
    let y = sb - amount;
    let c = coins_floor(y);
    lemma_sol_nonneg(sold);
    lemma_coins_range(y);
    if c >= sold {
        lemma_fundamental_div_mod(y * m, v + y);
        vstd::arithmetic::div_mod::lemma_mod_division_less_than_divisor(y * m, v + y);
        assert(sold * v <= y * (m - sold)) by (nonlinear_arith)
            requires
                y * m == (v + y) * c + (y * m) % (v + y),
                0 <= (y * m) % (v + y),
                sold <= c,
                0 < sold,
                0 <= y,
                0 < v,
        ;
        lemma_mul_is_commutative(y, m - sold);
        lemma_multiply_divide_le(sold * v, m - sold, y);
        assert(sb <= y);
    }
}

/// Buying more coins at the same position never costs less. (The quote
/// is not strictly increasing coin by coin: near the origin, amounts a
/// rounding unit apart quote the same cost.)
pub proof fn lemma_buy_quote_monotone(sold: int, a1: int, a2: int)
    requires
        0 <= sold,
        0 <= a1 <= a2,
        sold + a2 <= MAX_COIN_SUPPLY,
    ensures
        0 <= buy_quote(sold, a1) <= buy_quote(sold, a2),
{
    lemma_sol_monotone(sold, sold + a1);
    lemma_sol_monotone(sold + a1, sold + a2);
    lemma_sol_nonneg(sold + a1);
    lemma_sol_nonneg(sold + a2);
}

/// The strict form of the monotonicity: once the extra amount outweighs
/// the curve's coarsest rounding step — twice the virtual reserve ratio —
/// the quote strictly increases.
pub proof fn lemma_buy_quote_strictly_monotone(sold: int, a1: int, a2: int)
    requires
        0 <= sold,
        0 <= a1 <= a2,
        sold + a2 <= MAX_COIN_SUPPLY,
        (a2 - a1) * VIRTUAL_SOL_REVERSES >= 2 * MAX_VIRTUAL_COIN_RESERVES,
    ensures
        buy_quote(sold, a1) < buy_quote(sold, a2),
{
    let v = VIRTUAL_SOL_REVERSES as int;
    let m = MAX_VIRTUAL_COIN_RESERVES as int;
    let t1 = sold + a1;
    let t2 = sold + a2;
    let n1 = t1 * v;
    let n2 = t2 * v;
    let d1 = m - t1;
    let d2 = m - t2;
    let step = (t2 - t1) * v;
    lemma_sol_nonneg(t1);
    lemma_sol_nonneg(t2);
    lemma_mul_nonnegative(t1, v);
    lemma_mul_nonnegative(t2 - t1, v);
    // the position at t2, read against the larger denominator, already
    // clears the position at t1 by two
    lemma_div_is_ordered_by_denominator(n2, d2, d1);
    assert(n2 == n1 + step) by (nonlinear_arith)
        requires
            n1 == t1 * v,
            n2 == t2 * v,
            step == (t2 - t1) * v,
    ;
    crate::math::lemma_div_superadd(n1, step, d1);
    assert(step / d1 >= 2) by {
        lemma_div_is_ordered(2 * d1, step, d1);
        vstd::arithmetic::div_mod::lemma_div_by_multiple(2, d1);
        lemma_mul_is_commutative(2, d1);
    }
}

/// Selling straight back what was just bought refunds exactly the cost
/// of the buy, and so never more than it: the two quotes read the same
/// two curve positions with the same roundings.
pub proof fn lemma_buy_then_sell(sold: int, amount: int)
    requires
        0 <= sold,
        0 <= amount,
        sold + amount <= MAX_COIN_SUPPLY,
    ensures
        sell_quote(sold + amount, amount) == buy_quote(sold, amount),
{
    lemma_sol_monotone(sold, sold + amount);
    lemma_sol_nonneg(sold);
    lemma_sol_nonneg(sold + amount);
}

/// Buying coins for `pay` sol and then pricing exactly those coins never
/// quotes above `pay`: the inverse is rounded down far enough to absorb
/// the buy quote's upward rounding. A payment of zero is left out: at a
/// fractional curve position, zero coins still quote one rounding unit.
pub proof fn lemma_buy_tokens_cost_bound(sold: int, pay: int)
    requires
        0 <= sold <= SELLABLE_COINS,
        1 <= pay,
    ensures
        0 <= buy_tokens(sold, pay) <= SELLABLE_COINS - sold,
        buy_quote(sold, buy_tokens(sold, pay)) <= pay,
{
    let sb = sol_floor(sold);
    let y = sb + pay;
    let c = coins_floor(y);
    lemma_sol_nonneg(sold);
    lemma_coins_range(y);
    lemma_coins_inverse_le(y);
    if c <= sold {
        // No coins: the quote is at most the one rounding unit between
        // the two readings of the same position.
        assert(buy_quote(sold, 0) <= 1);
    } else if c >= SELLABLE_COINS {
        lemma_sol_monotone(SELLABLE_COINS as int, c);
    }
}

/// The coins the sell inverse asks for always cover the sol it frees:
/// quoting those coins at the same position refunds at least the gross
/// amount paid out, so the curve never pays for coins it does not get.
pub proof fn lemma_sell_tokens_cover(sold: int, amount: int)
    requires
        0 <= sold <= MAX_COIN_SUPPLY,
        1 <= amount <= sol_floor(sold),
    ensures
        1 <= sell_tokens(sold, amount) <= sold,
        sell_quote(sold, sell_tokens(sold, amount)) >= amount,
{
    let sb = sol_floor(sold);
    assert(sol_floor(0) == 0);
    assert(0 < sold);
    lemma_sol_nonneg(sold);
    if amount == sb {
        // everything sold comes back, and the refund reads the whole
        // position from its virtual origin
    } else {
        let y = sb - amount;
        let c = coins_floor(y);
        lemma_coins_range(y);
        lemma_coins_inverse_le(y);
        lemma_sell_inverse_below(sold, amount);
        lemma_sol_nonneg(c);
    }
}

/// The amounts of a sequence of buys, summed.
pub open spec fn sum_amounts(amounts: Seq<int>) -> int
    decreases amounts.len(),
{
    if amounts.len() == 0 {
        0
    } else {
        amounts[0] + sum_amounts(amounts.drop_first())
    }
}

/// Every amount in the sequence is nonnegative.
pub open spec fn all_nonneg(amounts: Seq<int>) -> bool {
    forall|i: int| 0 <= i < amounts.len() ==> amounts[i] >= 0
}

/// Sol paid across a sequence of buys executed one after the other from
/// position `sold`, without fees.
pub open spec fn total_buy_cost(sold: int, amounts: Seq<int>) -> int
    decreases amounts.len(),
{
    if amounts.len() == 0 {
        0
    } else {
        buy_quote(sold, amounts[0]) + total_buy_cost(sold + amounts[0], amounts.drop_first())
    }
}

/// Sol paid across the same sequence of buys with the maker fee charged
/// on each one.
pub open spec fn total_buy_cost_with_fees(sold: int, amounts: Seq<int>, maker_rate: int) -> int
    decreases amounts.len(),
{
    if amounts.len() == 0 {
        0
    } else {
        buy_quote(sold, amounts[0]) + fee_amount(buy_quote(sold, amounts[0]), maker_rate)
            + total_buy_cost_with_fees(sold + amounts[0], amounts.drop_first(), maker_rate)
    }
}

/// A sequence of nonnegative amounts sums to a nonnegative total.
pub proof fn lemma_sum_nonneg(amounts: Seq<int>)
    requires
        all_nonneg(amounts),
    ensures
        sum_amounts(amounts) >= 0,
    decreases amounts.len(),
{
    if amounts.len() > 0 {
        assert(all_nonneg(amounts.drop_first())) by {
            assert(forall|i: int|
                0 <= i < amounts.drop_first().len() ==> amounts.drop_first()[i] == amounts[i
                    + 1]);
        }
        lemma_sum_nonneg(amounts.drop_first());
    }
}

/// Splitting a buy in two never makes it cheaper: the intermediate
/// position is read once rounded up and once rounded down, and the
/// difference only ever favors the curve.
pub proof fn lemma_split_buy(sold: int, a: int, b: int)
    requires
        0 <= sold,
        0 <= a,
        0 <= b,
        sold + a + b <= MAX_COIN_SUPPLY,
    ensures
        buy_quote(sold, a + b) <= buy_quote(sold, a) + buy_quote(sold + a, b),
{
    lemma_sol_nonneg(sold + a);
}

/// One buy of the whole amount never costs more than any sequence of
/// buys reaching the same position.
pub proof fn lemma_sequence_cost(sold: int, amounts: Seq<int>)
    requires
        0 <= sold,
        all_nonneg(amounts),
        amounts.len() >= 1,
        sold + sum_amounts(amounts) <= MAX_COIN_SUPPLY,
    ensures
        buy_quote(sold, sum_amounts(amounts)) <= total_buy_cost(sold, amounts),
    decreases amounts.len(),
{
    let rest = amounts.drop_first();
    assert(all_nonneg(rest)) by {
        assert(forall|i: int| 0 <= i < rest.len() ==> rest[i] == amounts[i + 1]);
    }
    lemma_sum_nonneg(rest);
    assert(sum_amounts(amounts) == amounts[0] + sum_amounts(rest));
    assert(total_buy_cost(sold, amounts) == buy_quote(sold, amounts[0]) + total_buy_cost(
        sold + amounts[0],
        rest,
    ));
    if amounts.len() == 1 {
        assert(sum_amounts(rest) == 0);
        assert(total_buy_cost(sold + amounts[0], rest) == 0);
    } else {
        lemma_sequence_cost(sold + amounts[0], rest);
        lemma_split_buy(sold, amounts[0], sum_amounts(rest));
    }
}

/// Fees only add to the bill of a sequence of buys.
pub proof fn lemma_fees_only_add(sold: int, amounts: Seq<int>, maker_rate: int)
    requires
        0 <= sold,
        all_nonneg(amounts),
        sold + sum_amounts(amounts) <= MAX_COIN_SUPPLY,
        0 <= maker_rate <= FEE_RATE_BASIS_POINT,
    ensures
        total_buy_cost(sold, amounts) <= total_buy_cost_with_fees(sold, amounts, maker_rate),
    decreases amounts.len(),
{
    if amounts.len() > 0 {
        let rest = amounts.drop_first();
        assert(all_nonneg(rest)) by {
            assert(forall|i: int| 0 <= i < rest.len() ==> rest[i] == amounts[i + 1]);
        }
        lemma_sum_nonneg(rest);
        lemma_buy_quote_monotone(sold, 0, amounts[0]);
        lemma_fee_range(buy_quote(sold, amounts[0]), maker_rate);
        lemma_fees_only_add(sold + amounts[0], rest, maker_rate);
    }
}

/// The round trip: reach any position by a sequence of buys, then sell
/// the whole cumulative amount at once. The net refund, after the taker
/// fee, never exceeds what the buys cost with their maker fees.
pub proof fn lemma_round_trip(
    sold: int,
    amounts: Seq<int>,
    maker_rate: int,
    taker_rate: int,
)
    requires
        0 <= sold,
        all_nonneg(amounts),
        amounts.len() >= 1,
        sold + sum_amounts(amounts) <= MAX_COIN_SUPPLY,
        0 <= maker_rate <= FEE_RATE_BASIS_POINT,
        0 <= taker_rate <= FEE_RATE_BASIS_POINT,
    ensures
        sell_quote(sold + sum_amounts(amounts), sum_amounts(amounts)) - fee_amount(
            sell_quote(sold + sum_amounts(amounts), sum_amounts(amounts)),
            taker_rate,
        ) <= total_buy_cost_with_fees(sold, amounts, maker_rate),
{
    let total = sum_amounts(amounts);
    lemma_sum_nonneg(amounts);
    lemma_buy_then_sell(sold, total);
    lemma_sequence_cost(sold, amounts);
    lemma_fees_only_add(sold, amounts, maker_rate);
    lemma_buy_quote_monotone(sold, 0, total);
    lemma_fee_range(sell_quote(sold + total, total), taker_rate);
}

} // verus!
