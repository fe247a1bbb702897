use vstd::prelude::*;

verus! {

/// Every way an operation of this ledger can fail.
///
/// Checks always run before any write, so an operation that returns one of
/// these has left no partial state behind.
#[derive(Clone, Copy, Debug, PartialEq, Eq, Structural)]
pub enum ContractError {
    /// `decimals` above 18 at initialization.
    InvalidDecimals,
    /// An account identifier was rejected by the host's address validator.
    /// The ledger itself takes validated identifiers, so this arises only in
    /// the layer that performs validation.
    InvalidAddress,
    /// Metadata or minter absent, or the caller is not the configured minter.
    Unauthorized,
    /// A would-be total supply exceeds the configured cap.
    CapExceeded,
    /// A checked balance or supply addition would exceed the representable
    /// range; the update fails instead of wrapping.
    ArithmeticOverflow,
    /// Metadata was queried before initialization ever ran.
    NotInitialized,
}

} // verus!
