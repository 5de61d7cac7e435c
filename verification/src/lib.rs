//! A single-asset bonding-curve market.
//!
//! A fixed total supply of a coin is priced against a reserve currency (sol)
//! by a constant-product curve with virtual offsets. Trading stops for good
//! once the remaining supply falls to the reserved tail.
//!
//! The pricing math lives in [`coin_math`], [`sol_math`] and [`fee_math`];
//! the market state machine in [`coin`]; the shared fee policy in [`config`].
//! The mathematical model of the curve, and the lemmas relating the quote
//! functions to each other, live in [`curve`].

pub mod coin;
pub mod coin_math;
pub mod config;
pub mod constants;
pub mod curve;
pub mod errors;
pub mod fee_math;
pub mod math;
pub mod sol_math;
