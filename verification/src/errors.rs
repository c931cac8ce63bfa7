use vstd::prelude::*;

verus! {

/// The error kinds that the ledger core reports. Every failing operation
/// returns one of these; the core never aborts on bad input.
#[derive(Debug, Clone, Copy, PartialEq, Eq, Structural)]
pub enum BankErrors {
    /// A balance or transfer amount string did not parse as a valid
    /// non-negative integer (for transfers: strictly positive), or the
    /// resulting balance cannot be represented.
    InvalidAmount,
    /// A card number did not resolve to an existing account.
    AccountNotFound,
    /// A transfer target (card number or phone number) did not resolve
    /// to any account.
    RecipientNotFound,
    /// The sender's balance is less than the requested transfer amount.
    InsufficientFunds,
    /// The sender and the resolved recipient are the same account.
    InvalidRecipient,
    /// No free card number was found for a new account.
    CapacityExhausted,
}

} // verus!
