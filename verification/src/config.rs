use crate::constants::FEE_RATE_BASIS_POINT;
use crate::errors::Error;
use vstd::prelude::*;

verus! {

/// The shared protocol policy: who administers it, where fees go, and the
/// fee rates every market applies.
pub struct Config {
    pub authority: [u8; 32],
    pub fee_recipient: [u8; 32],
    pub migration_authority: [u8; 32],
    pub create_coin_fee: u64,
    pub taker_fee_rate: u32,
    pub maker_fee_rate: u32,
}

impl Config {
    /// Both fee rates stay within the fixed-point base.
    pub open spec fn wf(&self) -> bool {
        &&& self.taker_fee_rate <= FEE_RATE_BASIS_POINT
        &&& self.maker_fee_rate <= FEE_RATE_BASIS_POINT
    }

    /// Sets the identities this configuration answers to. Fees are not
    /// touched here; they are set through [`Config::update_fee`].
    pub fn initialize(
        &mut self,
        authority: [u8; 32],
        fee_recipient: [u8; 32],
        migration_authority: [u8; 32],
    )
        ensures
            final(self).authority == authority,
            final(self).fee_recipient == fee_recipient,
            final(self).migration_authority == migration_authority,
            final(self).create_coin_fee == old(self).create_coin_fee,
            final(self).taker_fee_rate == old(self).taker_fee_rate,
            final(self).maker_fee_rate == old(self).maker_fee_rate,
    {
        self.authority = authority;
        self.fee_recipient = fee_recipient;
        self.migration_authority = migration_authority;
    }

    /// Replaces the creation fee and both fee rates, all three or none.
    /// A rate above the fixed-point base is refused: the taker rate is
    /// checked first, then the maker rate, and nothing changes on a
    /// refusal.
    pub fn update_fee(
        &mut self,
        create_coin_fee: u64,
        taker_fee_rate: u32,
        maker_fee_rate: u32,
    ) -> (r: Result<(), Error>)
        ensures
            taker_fee_rate > FEE_RATE_BASIS_POINT ==> r == Err::<(), Error>(
                Error::InvalidTakerFeeRate,
            ) && *final(self) == *old(self),
            taker_fee_rate <= FEE_RATE_BASIS_POINT && maker_fee_rate > FEE_RATE_BASIS_POINT ==> r
                == Err::<(), Error>(Error::InvalidMakerFeeRate) && *final(self) == *old(self),
            r == Ok::<(), Error>(()) <==> taker_fee_rate <= FEE_RATE_BASIS_POINT
                && maker_fee_rate <= FEE_RATE_BASIS_POINT,
            r == Ok::<(), Error>(()) ==> {
                &&& final(self).create_coin_fee == create_coin_fee
                &&& final(self).taker_fee_rate == taker_fee_rate
                &&& final(self).maker_fee_rate == maker_fee_rate
                &&& final(self).authority == old(self).authority
                &&& final(self).fee_recipient == old(self).fee_recipient
                &&& final(self).migration_authority == old(self).migration_authority
                &&& final(self).wf()
            },
    {
        if taker_fee_rate > FEE_RATE_BASIS_POINT {
            return Err(Error::InvalidTakerFeeRate);
        }
        if maker_fee_rate > FEE_RATE_BASIS_POINT {
            return Err(Error::InvalidMakerFeeRate);
        }

        self.create_coin_fee = create_coin_fee;
        self.taker_fee_rate = taker_fee_rate;
        self.maker_fee_rate = maker_fee_rate;
        Ok(())
    }
}

} // verus!
