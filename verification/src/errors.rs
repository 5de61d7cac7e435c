use vstd::prelude::*;

verus! {

/// Everything a market or configuration operation can refuse.
#[derive(Clone, Copy, Debug, PartialEq, Eq, Structural)]
pub enum Error {
    /// A taker fee rate above the fixed-point base was proposed.
    InvalidTakerFeeRate,
    /// A maker fee rate above the fixed-point base was proposed.
    InvalidMakerFeeRate,
    /// The caller is not the configured authority.
    AuthorityMismatch,
    /// The named fee recipient is not the configured one.
    FeeRecipientMismatch,
    /// The named sol vault is not the market's vault.
    SolVaultAccountMismatch,
    /// The coin symbol is shorter or longer than allowed.
    InvalidSymbol,
    /// The named configuration is not the market's configuration.
    ConfigAccountMismatch,
    /// The named coin vault is not the market's vault.
    CoinVaultMismatch,
    /// The named coin account is for another mint.
    CoinMintAccountMismatch,
    /// The buy asks for more coins than the curve still sells.
    InsufficientSupply,
    /// The trade would cost more than the caller's limit.
    MaxPayExceeded,
    /// The trade would return less than the caller's limit.
    InsufficientReceive,
    /// The market is exhausted: trading has closed for good.
    AlreadyLaunched,
    /// A sell asks for more sol than the curve has raised at this position.
    ExactOutTooLarge,
    /// The sell inverse moved the position the wrong way; unreachable for a
    /// positive request in a consistent build.
    UnexpectExactOutput,
    /// A sell for exactly zero sol was requested.
    InvalidReceive,
}

} // verus!
