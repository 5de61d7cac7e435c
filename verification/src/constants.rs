use vstd::prelude::*;

verus! {

/// The fixed-point base of fee rates: a fee rate is a fraction of this.
/// Fee amount = amount * fee_rate / FEE_RATE_BASIS_POINT.
pub const FEE_RATE_BASIS_POINT: u32 = 100_000_000;

/// Decimal places of the coin's smallest unit.
pub const DECIMALS: u8 = 6;

/// The full supply of the coin, in its smallest unit: 10^9 whole coins.
pub const MAX_COIN_SUPPLY: u64 = 1_000_000_000_000_000;

/// The reserved tail of the supply that can never be traded on the curve.
/// A market whose remaining supply is at or below this is exhausted.
pub const REVERSE_COINS: u64 = 206_900_000_000_000;

/// What the curve can actually sell: the full supply less the reserved tail.
pub const SELLABLE_COINS: u64 = MAX_COIN_SUPPLY - REVERSE_COINS;

/// Shortest symbol accepted for a coin, in bytes.
pub const SYMBOL_MIN_LEN: usize = 2;

/// Longest symbol accepted for a coin, in bytes.
pub const SYMBOL_MAX_LEN: usize = 10;

/// Virtual coin reserve added to the real supply to shape the curve.
pub const VIRTUAL_COIN_RESERVES: u64 = 73_000_000_000_000;

/// The coin side of the constant product at the start: full supply plus
/// the virtual coin reserve.
pub const MAX_VIRTUAL_COIN_RESERVES: u64 = MAX_COIN_SUPPLY + VIRTUAL_COIN_RESERVES;

/// Virtual sol reserve: the sol side of the constant product at the start.
pub const VIRTUAL_SOL_REVERSES: u64 = 30_000_000_000;

} // verus!
