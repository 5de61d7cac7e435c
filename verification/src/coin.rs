//! The market state machine: one record per tradable coin, owning the
//! curve position and the sol escrowed for it.
//!
//! Every trade checks the lifecycle, quotes the curve, applies the fee,
//! checks the caller's slippage bound, and only then mutates the record.
//! Each trade returns the settlement amounts the custody layer must move;
//! no funds move here.

use crate::coin_math;
use crate::config::Config;
use crate::constants::{
    FEE_RATE_BASIS_POINT, MAX_COIN_SUPPLY, REVERSE_COINS, SYMBOL_MAX_LEN, SYMBOL_MIN_LEN,
};
use crate::curve::{
    buy_quote, buy_tokens, lemma_sol_cap, lemma_sol_monotone, lemma_sol_nonneg, sell_quote,
    sell_tokens, sol_floor,
};
use crate::errors::Error;
use crate::fee_math;
use crate::fee_math::{
    fee_amount, gross_receive, lemma_fee_range, lemma_gross_receive_at_least,
};
use crate::sol_math;
use vstd::prelude::*;
use vstd::string::StringSliceAdditionalSpecFns;

verus! {

/// Compares two 32-byte identities.
fn keys_equal(a: &[u8; 32], b: &[u8; 32]) -> (r: bool)
    ensures
        r <==> a@ == b@,
{
    let mut i: usize = 0;
    while i < 32
        invariant
            i <= 32,
            forall|j: int| 0 <= j < i ==> a@[j] == b@[j],
        decreases 32 - i,
    {
        if a[i] != b[i] {
            return false;
        }
        i += 1;
    }
    proof {
        assert(a@ =~= b@);
    }
    true
}

/// One coin's market: its identities and its position on the curve.
pub struct Coin {
    /// The configuration record this market trades under.
    pub config: [u8; 32],
    /// The mint of the coin.
    pub coin_mint: [u8; 32],
    /// The vault holding the coin's unsold supply.
    pub coin_vault: [u8; 32],
    /// The vault escrowing the sol raised.
    pub sol_vault: [u8; 32],
    /// Remaining coin supply on the bonding curve, reserved tail included.
    pub remaining_coin_supply: u64,
    /// Accumulates the amount of sol on the bonding curve.
    pub accumulate_sol: u64,
    /// The coin's symbol.
    pub symbol: String,
    /// Bump byte of the market's own derived address.
    pub coin_bump: [u8; 1],
    /// Bump byte of the sol vault's derived address.
    pub sol_vault_bump: [u8; 1],
}

impl Coin {
    /// The remaining supply never exceeds the full supply.
    pub open spec fn wf(&self) -> bool {
        self.remaining_coin_supply <= MAX_COIN_SUPPLY
    }

    /// Coins sold off the curve so far.
    pub open spec fn sold(&self) -> int {
        MAX_COIN_SUPPLY - self.remaining_coin_supply
    }

    /// The market still trades: the remaining supply is above the
    /// reserved tail. Every trade fails once this no longer holds.
    pub open spec fn is_open(&self) -> bool {
        self.remaining_coin_supply > REVERSE_COINS
    }

    /// This market with its curve position replaced and everything else
    /// kept.
    pub open spec fn with_curve(self, remaining_coin_supply: u64, accumulate_sol: u64) -> Coin {
        Coin { remaining_coin_supply, accumulate_sol, ..self }
    }

    /// Fills in the identities of a newly created market. The curve
    /// fields are untouched: the market stays inert until
    /// [`Coin::initialize_mint`].
    pub fn initialize(
        &mut self,
        config: [u8; 32],
        coin_mint: [u8; 32],
        coin_vault: [u8; 32],
        symbol: String,
        coin_bump: u8,
    )
        ensures
            final(self).config == config,
            final(self).coin_mint == coin_mint,
            final(self).coin_vault == coin_vault,
            final(self).symbol@ == symbol@,
            final(self).coin_bump@ == seq![coin_bump],
            final(self).sol_vault == old(self).sol_vault,
            final(self).sol_vault_bump == old(self).sol_vault_bump,
            final(self).remaining_coin_supply == old(self).remaining_coin_supply,
            final(self).accumulate_sol == old(self).accumulate_sol,
    {
        self.config = config;
        self.coin_mint = coin_mint;
        self.coin_vault = coin_vault;
        self.symbol = symbol;
        self.coin_bump = [coin_bump];
    }

    /// Records the sol vault of the market, refusing a vault that is not
    /// the derived one. The custody layer derives the address and creates
    /// the account; only the check and the record change happen here.
    pub fn create_sol_vault(
        &mut self,
        derived_vault: [u8; 32],
        derived_bump: u8,
        sol_vault: [u8; 32],
    ) -> (r: Result<(), Error>)
        ensures
            derived_vault@ != sol_vault@ ==> r == Err::<(), Error>(Error::SolVaultAccountMismatch)
                && *final(self) == *old(self),
            derived_vault@ == sol_vault@ ==> {
                &&& r == Ok::<(), Error>(())
                &&& final(self).sol_vault == derived_vault
                &&& final(self).sol_vault_bump@ == seq![derived_bump]
                &&& final(self).config == old(self).config
                &&& final(self).coin_mint == old(self).coin_mint
                &&& final(self).coin_vault == old(self).coin_vault
                &&& final(self).symbol@ == old(self).symbol@
                &&& final(self).coin_bump == old(self).coin_bump
                &&& final(self).remaining_coin_supply == old(self).remaining_coin_supply
                &&& final(self).accumulate_sol == old(self).accumulate_sol
            },
    {
        if !keys_equal(&derived_vault, &sol_vault) {
            return Err(Error::SolVaultAccountMismatch);
        }

        self.sol_vault = derived_vault;
        self.sol_vault_bump = [derived_bump];
        Ok(())
    }

    /// Activates the market: puts the full supply on the curve and
    /// returns the amount the custody layer must mint into the coin
    /// vault.
    pub fn initialize_mint(&mut self) -> (mint_amount: u64)
        ensures
            mint_amount == MAX_COIN_SUPPLY,
            *final(self) == old(self).with_curve(MAX_COIN_SUPPLY, old(self).accumulate_sol),
            final(self).wf(),
    {
        self.remaining_coin_supply = MAX_COIN_SUPPLY;
        MAX_COIN_SUPPLY
    }

    /// Buys exactly `amount` coins for at most `max_pay` sol, fee
    /// included. Returns the sol owed to the curve and the maker fee owed
    /// to the fee recipient; the caller moves those amounts and `amount`
    /// coins.
    pub fn buy(&mut self, config: &Config, amount: u64, max_pay: u64) -> (r: Result<
        (u64, u64),
        Error,
    >)
        requires
            old(self).wf(),
            config.wf(),
            old(self).is_open() && amount + REVERSE_COINS <= old(self).remaining_coin_supply
                ==> old(self).accumulate_sol + buy_quote(old(self).sold(), amount as int)
                <= u64::MAX,
        ensures
            !old(self).is_open() ==> r == Err::<(u64, u64), Error>(Error::AlreadyLaunched)
                && *final(self) == *old(self),
            old(self).is_open() && amount + REVERSE_COINS > old(self).remaining_coin_supply ==> r
                == Err::<(u64, u64), Error>(Error::InsufficientSupply) && *final(self) == *old(
                self,
            ),
            old(self).is_open() && amount + REVERSE_COINS <= old(self).remaining_coin_supply
                ==> {
                let pay = buy_quote(old(self).sold(), amount as int);
                let fee = fee_amount(pay, config.maker_fee_rate as int);
                &&& pay + fee > max_pay ==> r == Err::<(u64, u64), Error>(Error::MaxPayExceeded)
                    && *final(self) == *old(self)
                &&& pay + fee <= max_pay ==> r == Ok::<(u64, u64), Error>(
                    (pay as u64, fee as u64),
                ) && *final(self) == old(self).with_curve(
                    (old(self).remaining_coin_supply - amount) as u64,
                    (old(self).accumulate_sol + pay) as u64,
                )
            },
            final(self).wf(),
    {
        if !(self.remaining_coin_supply > REVERSE_COINS) {
            return Err(Error::AlreadyLaunched);
        }
        let available_supply = self.available_supply();
        if !(amount <= available_supply) {
            return Err(Error::InsufficientSupply);
        }

        proof {
            lemma_sol_monotone(self.sold(), self.sold() + amount);
            lemma_sol_nonneg(self.sold() + amount);
            lemma_sol_cap(self.sold() + amount);
            lemma_fee_range(
                buy_quote(self.sold(), amount as int),
                config.maker_fee_rate as int,
            );
        }
        let pay_amount = coin_math::buy(self.remaining_coin_supply, amount);
        let maker_fee = fee_math::buy(pay_amount, config.maker_fee_rate);
        let total_pay: u128 = pay_amount as u128 + maker_fee as u128;
        if !(total_pay <= max_pay as u128) {
            return Err(Error::MaxPayExceeded);
        }

        self.remaining_coin_supply = self.remaining_coin_supply - amount;
        self.accumulate_sol = self.accumulate_sol + pay_amount;

        Ok((pay_amount, maker_fee))
    }

    /// Buys with exactly `pay_amount` sol paid to the curve, on top of
    /// which the maker fee is owed. Returns the coins bought and the fee;
    /// fails if the coins fall short of `min_receive`.
    pub fn buy_exact_in(&mut self, config: &Config, pay_amount: u64, min_receive: u64) -> (r:
        Result<(u64, u64), Error>)
        requires
            old(self).wf(),
            config.wf(),
            old(self).is_open() && buy_tokens(old(self).sold(), pay_amount as int) >= min_receive
                ==> old(self).accumulate_sol + pay_amount <= u64::MAX,
        ensures
            !old(self).is_open() ==> r == Err::<(u64, u64), Error>(Error::AlreadyLaunched)
                && *final(self) == *old(self),
            old(self).is_open() ==> {
                let tokens = buy_tokens(old(self).sold(), pay_amount as int);
                let fee = fee_amount(pay_amount as int, config.maker_fee_rate as int);
                &&& tokens < min_receive ==> r == Err::<(u64, u64), Error>(
                    Error::InsufficientReceive,
                ) && *final(self) == *old(self)
                &&& tokens >= min_receive ==> r == Ok::<(u64, u64), Error>(
                    (tokens as u64, fee as u64),
                ) && *final(self) == old(self).with_curve(
                    (old(self).remaining_coin_supply - tokens) as u64,
                    (old(self).accumulate_sol + pay_amount) as u64,
                )
            },
            final(self).wf(),
    {
        if !(self.remaining_coin_supply > REVERSE_COINS) {
            return Err(Error::AlreadyLaunched);
        }
        let maker_fee = fee_math::buy(pay_amount, config.maker_fee_rate);
        let actual_receive = sol_math::buy(self.remaining_coin_supply, pay_amount);
        if !(actual_receive >= min_receive) {
            return Err(Error::InsufficientReceive);
        }

        self.remaining_coin_supply = self.remaining_coin_supply - actual_receive;
        self.accumulate_sol = self.accumulate_sol + pay_amount;

        Ok((actual_receive, maker_fee))
    }

    /// Sells exactly `amount` coins. The curve's gross refund is quoted,
    /// the taker fee kept out of it, and the net compared against
    /// `min_receive`. Returns the net sol owed to the seller and the fee
    /// owed to the fee recipient.
    pub fn sell(&mut self, config: &Config, amount: u64, min_receive: u64) -> (r: Result<
        (u64, u64),
        Error,
    >)
        requires
            old(self).wf(),
            config.wf(),
            old(self).is_open() ==> amount <= old(self).sold(),
            old(self).is_open() && amount <= old(self).sold() && sell_quote(
                old(self).sold(),
                amount as int,
            ) - fee_amount(
                sell_quote(old(self).sold(), amount as int),
                config.taker_fee_rate as int,
            ) >= min_receive ==> sell_quote(old(self).sold(), amount as int) <= old(
                self,
            ).accumulate_sol,
        ensures
            !old(self).is_open() ==> r == Err::<(u64, u64), Error>(Error::AlreadyLaunched)
                && *final(self) == *old(self),
            old(self).is_open() ==> {
                let gross = sell_quote(old(self).sold(), amount as int);
                let fee = fee_amount(gross, config.taker_fee_rate as int);
                &&& gross - fee < min_receive ==> r == Err::<(u64, u64), Error>(
                    Error::InsufficientReceive,
                ) && *final(self) == *old(self)
                &&& gross - fee >= min_receive ==> r == Ok::<(u64, u64), Error>(
                    ((gross - fee) as u64, fee as u64),
                ) && *final(self) == old(self).with_curve(
                    (old(self).remaining_coin_supply + amount) as u64,
                    (old(self).accumulate_sol - gross) as u64,
                )
            },
            final(self).wf(),
    {
        if !(self.remaining_coin_supply > REVERSE_COINS) {
            return Err(Error::AlreadyLaunched);
        }
        proof {
            lemma_sol_cap(self.sold());
            lemma_sol_monotone(self.sold() - amount, self.sold());
            lemma_sol_nonneg(self.sold() - amount);
        }
        let receive_with_fee = coin_math::sell(self.remaining_coin_supply, amount);
        proof {
            lemma_fee_range(receive_with_fee as int, config.taker_fee_rate as int);
        }
        let taker_fee = fee_math::sell(receive_with_fee, config.taker_fee_rate);
        let receive_without_fee = receive_with_fee - taker_fee;
        if !(receive_without_fee >= min_receive) {
            return Err(Error::InsufficientReceive);
        }

        self.remaining_coin_supply = self.remaining_coin_supply + amount;
        self.accumulate_sol = self.accumulate_sol - receive_with_fee;

        Ok((receive_without_fee, taker_fee))
    }

    /// Sells however many coins it takes for the seller to net exactly
    /// `receive` sol after the taker fee, up to `max_pay` coins. Returns
    /// the coins owed to the curve and the fee owed to the fee recipient.
    /// The internal consistency failure of the inverse cannot surface
    /// here: the gross request is always positive.
    pub fn sell_exact_out(&mut self, config: &Config, receive: u64, max_pay: u64) -> (r: Result<
        (u64, u64),
        Error,
    >)
        requires
            old(self).wf(),
            config.wf(),
            old(self).is_open() && receive >= 1 ==> config.taker_fee_rate
                < FEE_RATE_BASIS_POINT,
        ensures
            !old(self).is_open() ==> r == Err::<(u64, u64), Error>(Error::AlreadyLaunched)
                && *final(self) == *old(self),
            old(self).is_open() && receive == 0 ==> r == Err::<(u64, u64), Error>(
                Error::InvalidReceive,
            ) && *final(self) == *old(self),
            old(self).is_open() && receive >= 1 ==> {
                let total = gross_receive(receive as int, config.taker_fee_rate as int);
                &&& total > old(self).accumulate_sol ==> r == Err::<(u64, u64), Error>(
                    Error::InsufficientReceive,
                ) && *final(self) == *old(self)
                &&& total <= old(self).accumulate_sol && total > sol_floor(old(self).sold()) ==> r
                    == Err::<(u64, u64), Error>(Error::ExactOutTooLarge) && *final(self) == *old(
                    self,
                )
                &&& total <= old(self).accumulate_sol && total <= sol_floor(old(self).sold())
                    ==> {
                    let pay = sell_tokens(old(self).sold(), total);
                    &&& pay > max_pay ==> r == Err::<(u64, u64), Error>(Error::MaxPayExceeded)
                        && *final(self) == *old(self)
                    &&& pay <= max_pay ==> r == Ok::<(u64, u64), Error>(
                        (pay as u64, (total - receive) as u64),
                    ) && *final(self) == old(self).with_curve(
                        (old(self).remaining_coin_supply + pay) as u64,
                        (old(self).accumulate_sol - total) as u64,
                    )
                }
            },
            r != Err::<(u64, u64), Error>(Error::UnexpectExactOutput),
            final(self).wf(),
    {
        if !(self.remaining_coin_supply > REVERSE_COINS) {
            return Err(Error::AlreadyLaunched);
        }
        if !(receive > 0) {
            return Err(Error::InvalidReceive);
        }
        proof {
            lemma_gross_receive_at_least(receive as int, config.taker_fee_rate as int);
            vstd::arithmetic::mul::lemma_mul_upper_bound(
                receive as int,
                u64::MAX as int,
                FEE_RATE_BASIS_POINT as int,
                FEE_RATE_BASIS_POINT as int,
            );
            vstd::arithmetic::mul::lemma_mul_nonnegative(
                receive as int,
                FEE_RATE_BASIS_POINT as int,
            );
        }
        // total_receive = receive / (1 - taker_fee_rate), in fixed point
        let total_receive: u128 = receive as u128 * FEE_RATE_BASIS_POINT as u128 / (
        FEE_RATE_BASIS_POINT as u128 - config.taker_fee_rate as u128);
        let taker_fee = total_receive - receive as u128;
        if !(total_receive <= self.accumulate_sol as u128) {
            return Err(Error::InsufficientReceive);
        }

        let actual_pay = match sol_math::sell(self.remaining_coin_supply, total_receive as u64) {
            Ok(v) => v,
            Err(e) => {
                return Err(e);
            },
        };
        if !(actual_pay <= max_pay) {
            return Err(Error::MaxPayExceeded);
        }

        self.remaining_coin_supply = self.remaining_coin_supply + actual_pay;
        self.accumulate_sol = self.accumulate_sol - total_receive as u64;

        Ok((actual_pay, taker_fee as u64))
    }

    /// What the curve still sells: the remaining supply past the reserved
    /// tail.
    pub fn available_supply(&self) -> (r: u64)
        requires
            self.remaining_coin_supply >= REVERSE_COINS,
        ensures
            r == self.remaining_coin_supply - REVERSE_COINS,
    {
        self.remaining_coin_supply - REVERSE_COINS
    }

    /// A symbol is accepted when its byte length is within bounds.
    pub fn check_symbol(symbol: &str) -> (r: bool)
        ensures
            r <==> SYMBOL_MIN_LEN <= symbol.spec_bytes().len() <= SYMBOL_MAX_LEN,
    {
        let bytes = symbol.as_bytes();
        bytes.len() >= SYMBOL_MIN_LEN && bytes.len() <= SYMBOL_MAX_LEN
    }
}

} // verus!
