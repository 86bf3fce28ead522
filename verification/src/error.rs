//! The failure cases of the ledger's operations.

use vstd::prelude::*;

verus! {

/// Every way a request can be rejected.  All of these are local validation
/// failures: a failed call mutates nothing.
#[derive(Clone, Copy, Debug, PartialEq, Eq, Structural)]
pub enum ContractError {
    /// The requesting account has no ledger entry at all.
    Unauthorized,
    /// A transfer arrived with no payment attached.
    MissingFunds,
    /// A transfer arrived with more than one payment entry attached.
    TooManyDenominations,
    /// The attached payment is not in the configured unit.
    InvalidDenomination,
    /// The attached amount is not strictly greater than the fee.
    InsufficientForFee,
    /// The amount left after the fee cannot be divided evenly in two.
    UnevenSplit,
    /// An account identifier is malformed.
    InvalidAddress,
    /// Crediting would push a balance past the integer width.
    BalanceOverflow,
    /// Funds were attached to a request that must not carry any.
    UnexpectedFunds,
    /// The requested amount exceeds the current balance.
    InsufficientFunds,
}

impl ContractError {
    /// The text `message` returns for each failure.
    pub open spec fn spec_message(self) -> Seq<char> {
        match self {
            ContractError::Unauthorized => "unauthorized"@,
            ContractError::MissingFunds => "please send usei"@,
            ContractError::TooManyDenominations => "please only send usei"@,
            ContractError::InvalidDenomination => "invalid denomination. please send usei"@,
            ContractError::InsufficientForFee => "funds <= fee"@,
            ContractError::UnevenSplit => "invalid funds. please send an even number of usei plus the fee"@,
            ContractError::InvalidAddress => "invalid address"@,
            ContractError::BalanceOverflow => "balance overflow occurred"@,
            ContractError::UnexpectedFunds => "no funds required"@,
            ContractError::InsufficientFunds => "insufficient funds"@,
        }
    }

    /// A human-readable description of the failure.
    pub fn message(&self) -> (r: String)
        ensures
            r@ == self.spec_message(),
    {
        match self {
            ContractError::Unauthorized => String::from_str("unauthorized"),
            ContractError::MissingFunds => String::from_str("please send usei"),
            ContractError::TooManyDenominations => String::from_str("please only send usei"),
            ContractError::InvalidDenomination => String::from_str(
                "invalid denomination. please send usei",
            ),
            ContractError::InsufficientForFee => String::from_str("funds <= fee"),
            ContractError::UnevenSplit => String::from_str(
                "invalid funds. please send an even number of usei plus the fee",
            ),
            ContractError::InvalidAddress => String::from_str("invalid address"),
            ContractError::BalanceOverflow => String::from_str("balance overflow occurred"),
            ContractError::UnexpectedFunds => String::from_str("no funds required"),
            ContractError::InsufficientFunds => String::from_str("insufficient funds"),
        }
    }
}

} // verus!
