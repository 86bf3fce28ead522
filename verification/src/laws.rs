//! The laws the ledger obeys, stated over the operations' own
//! postcondition relations and proved once and for all.

use vstd::prelude::*;
use vstd::arithmetic::div_mod::lemma_fundamental_div_mod;

use crate::contract::{
    payment_error, spec_half, transfer_post, wf_addr, withdraw_post,
};
use crate::error::ContractError;
use crate::msg::{Coin, Response};
use crate::state::{bal_of, State};

verus! {

/// Conservation: in every successful transfer, the two credited halves
/// and the fee payout add up exactly to the amount sent.  No value is
/// created or destroyed by the split.
pub proof fn lemma_transfer_conservation(
    state: State,
    m0: Map<Seq<char>, u128>,
    m1: Map<Seq<char>, u128>,
    funds: Seq<Coin>,
    a: Seq<char>,
    b: Seq<char>,
    res: Response,
)
    requires
        transfer_post(state, m0, m1, funds, a, b, Ok(res)),
    ensures
        res.attributes@[0].value + res.attributes@[1].value + res.payments@[0].amount == funds[0].amount,
{
    lemma_fundamental_div_mod((funds[0].amount - state.send_fee) as int, 2);
}

/// Idempotent zero-balance cleanup: a withdrawal that empties a
/// non-owner account removes its entry; the account then reads as zero
/// and behaves as if it had never been credited, so a later credit
/// starts from nothing.
pub proof fn lemma_zero_balance_cleanup(
    state: State,
    m0: Map<Seq<char>, u128>,
    m1: Map<Seq<char>, u128>,
    funds: Seq<Coin>,
    sender: Seq<char>,
    amount: u128,
    res: Response,
)
    requires
        withdraw_post(state, m0, m1, funds, sender, amount, Ok(res)),
        amount == m0[sender],
        sender != state.owner@,
    ensures
        !m1.dom().contains(sender),
        bal_of(m1, sender) == 0,
        forall|v: u128| bal_of(#[trigger] m1.insert(sender, v), sender) == v,
{
}

/// No negative balance: a withdrawal past the current balance is
/// rejected outright, never clamped, and leaves the ledger unchanged.
/// (Balances are unsigned, so no representable state is ever negative.)
pub proof fn lemma_no_overdraft(
    state: State,
    m0: Map<Seq<char>, u128>,
    m1: Map<Seq<char>, u128>,
    funds: Seq<Coin>,
    sender: Seq<char>,
    amount: u128,
    r: Result<Response, ContractError>,
)
    requires
        withdraw_post(state, m0, m1, funds, sender, amount, r),
        funds.len() == 0,
        m0.dom().contains(sender),
        amount > m0[sender],
    ensures
        r == Result::<Response, ContractError>::Err(ContractError::InsufficientFunds),
        m1 == m0,
{
}

/// Overflow rejection: a transfer that would push a recipient's balance
/// past the integer width fails with the overflow error and leaves every
/// prior balance unchanged.
pub proof fn lemma_overflow_rejected(
    state: State,
    m0: Map<Seq<char>, u128>,
    m1: Map<Seq<char>, u128>,
    funds: Seq<Coin>,
    a: Seq<char>,
    b: Seq<char>,
    r: Result<Response, ContractError>,
)
    requires
        transfer_post(state, m0, m1, funds, a, b, r),
        payment_error(state.send_fee, funds) is None,
        wf_addr(a),
        wf_addr(b),
        a == b ==> bal_of(m0, a) + 2 * spec_half(state.send_fee, funds[0].amount) > u128::MAX,
        a != b ==> bal_of(m0, a) + spec_half(state.send_fee, funds[0].amount) > u128::MAX || bal_of(
            m0,
            b,
        ) + spec_half(state.send_fee, funds[0].amount) > u128::MAX,
    ensures
        r == Result::<Response, ContractError>::Err(ContractError::BalanceOverflow),
        m1 == m0,
{
}

} // verus!
