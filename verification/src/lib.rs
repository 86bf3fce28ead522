//! A small deterministic ledger for a single fungible unit (`usei`).
//!
//! An incoming payment is split evenly between two named accounts after a
//! fixed fee is deducted and paid out to the owner account; any account with
//! a credited balance may withdraw it.  The hosting environment (message
//! dispatch, persistent storage, settlement of outbound payments) is out of
//! scope: every operation here works on explicitly passed configuration and
//! ledger values and returns plain data.
//!
//! Two design choices worth naming: the fee of every transfer is paid out
//! immediately, as an outbound-payment instruction to the owner's address,
//! and never touches the owner's ledger balance; and initialization rejects
//! any attached payment.

pub mod contract;
pub mod error;
pub mod laws;
pub mod msg;
pub mod state;
