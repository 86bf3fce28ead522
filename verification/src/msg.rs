//! The request and response shapes of the ledger's operations.

use vstd::prelude::*;

verus! {

/// One attached payment entry: an amount of a named denomination.
#[derive(Clone, Debug, PartialEq, Eq)]
pub struct Coin {
    pub denom: String,
    pub amount: u128,
}

/// Who sent the request and what payment came with it.
#[derive(Clone, Debug, PartialEq, Eq)]
pub struct MessageInfo {
    pub sender: String,
    pub funds: Vec<Coin>,
}

/// The initialization request: the caller becomes the owner.
#[derive(Clone, Debug, PartialEq, Eq)]
pub struct InstantiateMsg {
    /// The fee, in usei, deducted from every transfer.
    pub send_fee: u128,
}

/// A state-changing request.
#[derive(Clone, Debug, PartialEq, Eq)]
pub enum ExecuteMsg {
    /// The attached funds, minus the fee, are split evenly across the two accounts.
    Transfer { recipient_a: String, recipient_b: String },
    /// Withdraw some or all of the requesting account's balance.
    Withdraw { amount: u128 },
}

/// A read-only request.
#[derive(Clone, Debug, PartialEq, Eq)]
pub enum QueryMsg {
    /// View the contract owner.
    GetOwner {},
    /// View the fee incurred by a transfer.
    GetSendFee {},
    /// View the balance of an account.
    GetBalance { account: String },
}

#[derive(Clone, Debug, PartialEq, Eq)]
pub struct GetOwnerResponse {
    pub owner: String,
}

#[derive(Clone, Debug, PartialEq, Eq)]
pub struct GetSendFeeResponse {
    pub fee: u128,
}

#[derive(Clone, Debug, PartialEq, Eq)]
pub struct GetBalanceResponse {
    pub balance: u128,
}

/// The answer to a [`QueryMsg`], one variant per request.
#[derive(Clone, Debug, PartialEq, Eq)]
pub enum QueryResponse {
    Owner(GetOwnerResponse),
    SendFee(GetSendFeeResponse),
    Balance(GetBalanceResponse),
}

/// An instruction to the hosting settlement layer to move value
/// to an external address.
#[derive(Clone, Debug, PartialEq, Eq)]
pub struct Payment {
    pub to_address: String,
    pub amount: u128,
    pub denom: String,
}

/// An observable attribute of a completed request: an amount keyed by the
/// role it was credited under.
#[derive(Clone, Debug, PartialEq, Eq)]
pub struct Attribute {
    pub key: String,
    pub value: u128,
}

/// What a completed state-changing request hands back to the host:
/// an action tag, outbound-payment instructions, and attributes.
#[derive(Clone, Debug, PartialEq, Eq)]
pub struct Response {
    pub action: String,
    pub payments: Vec<Payment>,
    pub attributes: Vec<Attribute>,
}

} // verus!
