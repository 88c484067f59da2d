//! The ways in which a call on the ledger is rejected.

use crate::text::TextError;
use vstd::prelude::*;

verus! {

/// Why the ledger rejected a call. A rejected call changes nothing.
#[derive(Clone, Copy, Debug, PartialEq, Eq, Structural)]
pub enum LedgerError {
    /// `initialize` was called on a ledger that already has its configuration.
    AlreadyInitialized,
    /// The name given to `initialize` cannot be padded to 16 ASCII characters.
    InvalidName(TextError),
    /// The symbol given to `initialize` cannot be padded to 8 ASCII characters.
    InvalidSymbol(TextError),
    /// The caller of `mint` or `burn` is not the owner.
    NotOwner,
    /// Minting would take a balance or the total supply beyond 64 bits.
    Overflow,
    /// The account holds less than the amount to take from it.
    InsufficientBalance,
    /// The spender may move less than the amount out of the account.
    InsufficientAllowance,
}

} // verus!
