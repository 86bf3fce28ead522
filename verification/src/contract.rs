//! The transfer and withdrawal processors and the query layer.
//!
//! Every operation takes the configuration and the balance table
//! explicitly and returns plain data; the hosting environment persists
//! the table and settles the returned payment instructions.  A failed
//! operation changes nothing.

use vstd::prelude::*;
use vstd::arithmetic::div_mod::lemma_fundamental_div_mod;

use crate::error::ContractError;
use crate::msg::{
    Attribute, Coin, GetBalanceResponse, GetOwnerResponse, GetSendFeeResponse, InstantiateMsg,
    ExecuteMsg, MessageInfo, Payment, QueryMsg, QueryResponse, Response,
};
use crate::state::{bal_of, nonzero_except, Ledger, State};

verus! {

/// The single denomination this ledger handles.
pub open spec fn usei_denom() -> Seq<char> {
    "usei"@
}

/// An owned copy of the denomination tag.
fn usei_string() -> (s: String)
    ensures
        s@ == usei_denom(),
{
    String::from_str("usei")
}

/// The characters allowed in an account identifier: lower case ASCII
/// letters, digits, and the underscore.
pub open spec fn addr_char(c: char) -> bool {
    ||| 'a' as u32 <= c as u32 && c as u32 <= 'z' as u32
    ||| '0' as u32 <= c as u32 && c as u32 <= '9' as u32
    ||| c == '_'
}

/// A well-formed account identifier: 1 to 90 allowed characters.
pub open spec fn wf_addr(s: Seq<char>) -> bool {
    &&& 1 <= s.len() <= 90
    &&& forall|i: int| 0 <= i < s.len() ==> addr_char(#[trigger] s[i])
}

/// The address-validation rule: accepts exactly the well-formed
/// identifiers.
pub fn addr_is_valid(s: &String) -> (r: bool)
    ensures
        r == wf_addr(s@),
{
    let st = s.as_str();
    let n = st.unicode_len();
    if n < 1 || n > 90 {
        return false;
    }
    let mut i: usize = 0;
    while i < n
        invariant
            st@ == s@,
            n == st@.len(),
            i <= n,
            forall|j: int| 0 <= j < i ==> addr_char(#[trigger] st@[j]),
        decreases n - i,
    {
        let c = st.get_char(i);
        let u = c as u32;
        if !((97 <= u && u <= 122) || (48 <= u && u <= 57) || u == 95) {
            return false;
        }
        i = i + 1;
    }
    true
}

/// Initialization: the caller becomes the owner and the fee is fixed for
/// good.  The initializer must not attach any payment.
pub fn instantiate(sender: &String, funds: &Vec<Coin>, msg: &InstantiateMsg) -> (r: Result<
    State,
    ContractError,
>)
    ensures
        match r {
            Ok(st) => funds@.len() == 0 && st.owner@ == sender@ && st.send_fee == msg.send_fee,
            Err(e) => funds@.len() > 0 && e == ContractError::UnexpectedFunds,
        },
{
    if funds.len() > 0 {
        return Err(ContractError::UnexpectedFunds);
    }
    Ok(State { owner: sender.clone(), send_fee: msg.send_fee })
}

/// Half of what is left of `amount` once the fee is deducted.
pub open spec fn spec_half(fee: u128, amount: u128) -> u128
    recommends
        fee < amount,
{
    ((amount - fee) / 2) as u128
}

/// Which validation failure, if any, the attached payment draws, in the
/// order the checks run: exactly one entry, the right denomination, an
/// amount strictly above the fee, and an even remainder.
pub open spec fn payment_error(fee: u128, funds: Seq<Coin>) -> Option<ContractError> {
    if funds.len() == 0 {
        Some(ContractError::MissingFunds)
    } else if funds.len() != 1 {
        Some(ContractError::TooManyDenominations)
    } else if funds[0].denom@ != usei_denom() {
        Some(ContractError::InvalidDenomination)
    } else if funds[0].amount <= fee {
        Some(ContractError::InsufficientForFee)
    } else if (funds[0].amount - fee) % 2 != 0 {
        Some(ContractError::UnevenSplit)
    } else {
        None
    }
}

/// Which failure, if any, a whole transfer draws against the ledger `m`,
/// recipient checks in the order they run.
pub open spec fn transfer_error(
    fee: u128,
    m: Map<Seq<char>, u128>,
    funds: Seq<Coin>,
    a: Seq<char>,
    b: Seq<char>,
) -> Option<ContractError> {
    match payment_error(fee, funds) {
        Some(e) => Some(e),
        None => {
            let half = spec_half(fee, funds[0].amount);
            if !wf_addr(a) {
                Some(ContractError::InvalidAddress)
            } else if a == b {
                if bal_of(m, a) + 2 * half > u128::MAX {
                    Some(ContractError::BalanceOverflow)
                } else {
                    None
                }
            } else if bal_of(m, a) + half > u128::MAX {
                Some(ContractError::BalanceOverflow)
            } else if !wf_addr(b) {
                Some(ContractError::InvalidAddress)
            } else if bal_of(m, b) + half > u128::MAX {
                Some(ContractError::BalanceOverflow)
            } else {
                None
            }
        },
    }
}

/// The ledger after a successful transfer: both recipients credited a
/// half each; the same recipient named twice is credited twice.
pub open spec fn transfer_ledger(
    m: Map<Seq<char>, u128>,
    fee: u128,
    funds: Seq<Coin>,
    a: Seq<char>,
    b: Seq<char>,
) -> Map<Seq<char>, u128> {
    let half = spec_half(fee, funds[0].amount);
    if a == b {
        m.insert(a, (bal_of(m, a) + 2 * half) as u128)
    } else {
        m.insert(a, (bal_of(m, a) + half) as u128).insert(b, (bal_of(m, b) + half) as u128)
    }
}

/// What a successful transfer hands back: the fee payout to the owner
/// and the two credited amounts, keyed by recipient role.
pub open spec fn transfer_response_ok(state: State, half: u128, res: Response) -> bool {
    &&& res.action@ == "transfer"@
    &&& res.payments@.len() == 1
    &&& res.payments@[0].to_address@ == state.owner@
    &&& res.payments@[0].amount == state.send_fee
    &&& res.payments@[0].denom@ == usei_denom()
    &&& res.attributes@.len() == 2
    &&& res.attributes@[0].key@ == "recipient_a"@
    &&& res.attributes@[0].value == half
    &&& res.attributes@[1].key@ == "recipient_b"@
    &&& res.attributes@[1].value == half
}

/// Everything a transfer guarantees, as a relation between the ledger
/// before and after and the result.
pub open spec fn transfer_post(
    state: State,
    m0: Map<Seq<char>, u128>,
    m1: Map<Seq<char>, u128>,
    funds: Seq<Coin>,
    a: Seq<char>,
    b: Seq<char>,
    r: Result<Response, ContractError>,
) -> bool {
    match r {
        Ok(res) => {
            &&& transfer_error(state.send_fee, m0, funds, a, b) is None
            &&& m1 == transfer_ledger(m0, state.send_fee, funds, a, b)
            &&& transfer_response_ok(state, spec_half(state.send_fee, funds[0].amount), res)
        },
        Err(e) => m1 == m0 && transfer_error(state.send_fee, m0, funds, a, b) == Some(e),
    }
}

/// Accept one attached payment of usei, deduct the fee, split the rest
/// evenly between the two named recipients, and emit the fee payout to
/// the owner.  Any failure leaves the ledger untouched.
pub fn execute_transfer(
    state: &State,
    ledger: &mut Ledger,
    info: &MessageInfo,
    recipient_a: &String,
    recipient_b: &String,
) -> (r: Result<Response, ContractError>)
    requires
        old(ledger).well_formed(),
    ensures
        final(ledger).well_formed(),
        transfer_post(
            *state,
            old(ledger)@,
            final(ledger)@,
            info.funds@,
            recipient_a@,
            recipient_b@,
            r,
        ),
        nonzero_except(old(ledger)@, state.owner@) ==> nonzero_except(
            final(ledger)@,
            state.owner@,
        ),
{
    if info.funds.len() == 0 {
        return Err(ContractError::MissingFunds);
    }
    if info.funds.len() != 1 {
        return Err(ContractError::TooManyDenominations);
    }
    let us = usei_string();
    if !(info.funds[0].denom == us) {
        return Err(ContractError::InvalidDenomination);
    }
    let amount = info.funds[0].amount;
    if amount <= state.send_fee {
        return Err(ContractError::InsufficientForFee);
    }
    let to_send = amount - state.send_fee;
    if to_send % 2 != 0 {
        return Err(ContractError::UnevenSplit);
    }
    let half = to_send / 2;
    proof {
        lemma_fundamental_div_mod(to_send as int, 2);
        assert(2 * half == to_send);
        assert(half >= 1);
        assert(half == spec_half(state.send_fee, amount));
    }
    if !addr_is_valid(recipient_a) {
        return Err(ContractError::InvalidAddress);
    }
    if *recipient_a == *recipient_b {
        let bal = ledger.get_balance(recipient_a);
        if to_send > u128::MAX - bal {
            return Err(ContractError::BalanceOverflow);
        }
        match ledger.credit(recipient_a, to_send) {
            Ok(_) => {},
            Err(e) => {
                proof {
                    assert(false);
                }
                return Err(e);
            },
        }
    } else {
        let bal_a = ledger.get_balance(recipient_a);
        if half > u128::MAX - bal_a {
            return Err(ContractError::BalanceOverflow);
        }
        if !addr_is_valid(recipient_b) {
            return Err(ContractError::InvalidAddress);
        }
        let bal_b = ledger.get_balance(recipient_b);
        if half > u128::MAX - bal_b {
            return Err(ContractError::BalanceOverflow);
        }
        match ledger.credit(recipient_a, half) {
            Ok(_) => {},
            Err(e) => {
                proof {
                    assert(false);
                }
                return Err(e);
            },
        }
        match ledger.credit(recipient_b, half) {
            Ok(_) => {},
            Err(e) => {
                proof {
                    assert(false);
                }
                return Err(e);
            },
        }
    }
    let mut payments: Vec<Payment> = Vec::new();
    payments.push(
        Payment {
            to_address: state.owner.clone(),
            amount: state.send_fee,
            denom: usei_string(),
        },
    );
    let mut attributes: Vec<Attribute> = Vec::new();
    attributes.push(Attribute { key: String::from_str("recipient_a"), value: half });
    attributes.push(Attribute { key: String::from_str("recipient_b"), value: half });
    Ok(Response { action: String::from_str("transfer"), payments, attributes })
}

/// Which failure, if any, a withdrawal draws against the ledger `m`:
/// no attached payment, an existing entry, and a sufficient balance.
pub open spec fn withdraw_error(
    m: Map<Seq<char>, u128>,
    funds: Seq<Coin>,
    sender: Seq<char>,
    amount: u128,
) -> Option<ContractError> {
    if funds.len() != 0 {
        Some(ContractError::UnexpectedFunds)
    } else if !m.dom().contains(sender) {
        Some(ContractError::Unauthorized)
    } else if amount > m[sender] {
        Some(ContractError::InsufficientFunds)
    } else {
        None
    }
}

/// The ledger after a successful withdrawal: the balance is reduced, and
/// a non-owner entry that reaches exactly zero is removed.
pub open spec fn withdraw_ledger(
    m: Map<Seq<char>, u128>,
    sender: Seq<char>,
    amount: u128,
    owner: Seq<char>,
) -> Map<Seq<char>, u128> {
    if m[sender] == amount && sender != owner {
        m.remove(sender)
    } else {
        m.insert(sender, (m[sender] - amount) as u128)
    }
}

/// What a successful withdrawal hands back: one payment instruction
/// moving the amount to the requesting account.
pub open spec fn withdraw_response_ok(sender: Seq<char>, amount: u128, res: Response) -> bool {
    &&& res.action@ == "withdraw"@
    &&& res.payments@.len() == 1
    &&& res.payments@[0].to_address@ == sender
    &&& res.payments@[0].amount == amount
    &&& res.payments@[0].denom@ == usei_denom()
    &&& res.attributes@.len() == 0
}

/// Everything a withdrawal guarantees, as a relation between the ledger
/// before and after and the result.
pub open spec fn withdraw_post(
    state: State,
    m0: Map<Seq<char>, u128>,
    m1: Map<Seq<char>, u128>,
    funds: Seq<Coin>,
    sender: Seq<char>,
    amount: u128,
    r: Result<Response, ContractError>,
) -> bool {
    match r {
        Ok(res) => {
            &&& withdraw_error(m0, funds, sender, amount) is None
            &&& m1 == withdraw_ledger(m0, sender, amount, state.owner@)
            &&& withdraw_response_ok(sender, amount, res)
        },
        Err(e) => m1 == m0 && withdraw_error(m0, funds, sender, amount) == Some(e),
    }
}

/// Withdraw `amount` from the requesting account's balance and emit the
/// payment instruction moving it out.  Any failure leaves the ledger
/// untouched.
pub fn execute_withdraw(state: &State, ledger: &mut Ledger, info: &MessageInfo, amount: u128) -> (r:
    Result<Response, ContractError>)
    requires
        old(ledger).well_formed(),
    ensures
        final(ledger).well_formed(),
        withdraw_post(
            *state,
            old(ledger)@,
            final(ledger)@,
            info.funds@,
            info.sender@,
            amount,
            r,
        ),
        nonzero_except(old(ledger)@, state.owner@) ==> nonzero_except(
            final(ledger)@,
            state.owner@,
        ),
{
    if info.funds.len() != 0 {
        return Err(ContractError::UnexpectedFunds);
    }
    if !ledger.has_account(&info.sender) {
        return Err(ContractError::Unauthorized);
    }
    let bal = ledger.get_balance(&info.sender);
    if amount > bal {
        return Err(ContractError::InsufficientFunds);
    }
    match ledger.debit(&info.sender, amount, &state.owner) {
        Ok(_) => {},
        Err(e) => {
            proof {
                assert(false);
            }
            return Err(e);
        },
    }
    let mut payments: Vec<Payment> = Vec::new();
    payments.push(
        Payment { to_address: info.sender.clone(), amount, denom: usei_string() },
    );
    let attributes: Vec<Attribute> = Vec::new();
    Ok(Response { action: String::from_str("withdraw"), payments, attributes })
}

/// Dispatch a state-changing request to its processor.
pub fn execute(state: &State, ledger: &mut Ledger, info: &MessageInfo, msg: &ExecuteMsg) -> (r:
    Result<Response, ContractError>)
    requires
        old(ledger).well_formed(),
    ensures
        final(ledger).well_formed(),
        nonzero_except(old(ledger)@, state.owner@) ==> nonzero_except(
            final(ledger)@,
            state.owner@,
        ),
        match msg {
            ExecuteMsg::Transfer { recipient_a, recipient_b } => transfer_post(
                *state,
                old(ledger)@,
                final(ledger)@,
                info.funds@,
                recipient_a@,
                recipient_b@,
                r,
            ),
            ExecuteMsg::Withdraw { amount } => withdraw_post(
                *state,
                old(ledger)@,
                final(ledger)@,
                info.funds@,
                info.sender@,
                *amount,
                r,
            ),
        },
{
    match msg {
        ExecuteMsg::Transfer { recipient_a, recipient_b } => execute_transfer(
            state,
            ledger,
            info,
            recipient_a,
            recipient_b,
        ),
        ExecuteMsg::Withdraw { amount } => execute_withdraw(state, ledger, info, *amount),
    }
}

/// The configured owner.
pub fn query_owner(state: &State) -> (r: GetOwnerResponse)
    ensures
        r.owner@ == state.owner@,
{
    GetOwnerResponse { owner: state.owner.clone() }
}

/// The configured transfer fee.
pub fn query_send_fee(state: &State) -> (r: GetSendFeeResponse)
    ensures
        r.fee == state.send_fee,
{
    GetSendFeeResponse { fee: state.send_fee }
}

/// The balance of `account`: zero, not an error, when the account has no
/// entry; a malformed identifier is rejected.
pub fn query_balance(ledger: &Ledger, account: &String) -> (r: Result<
    GetBalanceResponse,
    ContractError,
>)
    requires
        ledger.well_formed(),
    ensures
        match r {
            Ok(resp) => wf_addr(account@) && resp.balance == bal_of(ledger@, account@),
            Err(e) => !wf_addr(account@) && e == ContractError::InvalidAddress,
        },
{
    if !addr_is_valid(account) {
        return Err(ContractError::InvalidAddress);
    }
    Ok(GetBalanceResponse { balance: ledger.get_balance(account) })
}

/// Dispatch a read-only request.  Queries never mutate.
pub fn query(state: &State, ledger: &Ledger, msg: &QueryMsg) -> (r: Result<
    QueryResponse,
    ContractError,
>)
    requires
        ledger.well_formed(),
    ensures
        match msg {
            QueryMsg::GetOwner {} => r matches Ok(QueryResponse::Owner(resp)) && resp.owner@
                == state.owner@,
            QueryMsg::GetSendFee {} => r matches Ok(QueryResponse::SendFee(resp)) && resp.fee
                == state.send_fee,
            QueryMsg::GetBalance { account } => match r {
                Ok(QueryResponse::Balance(resp)) => wf_addr(account@) && resp.balance == bal_of(
                    ledger@,
                    account@,
                ),
                Err(e) => !wf_addr(account@) && e == ContractError::InvalidAddress,
                _ => false,
            },
        },
{
    match msg {
        QueryMsg::GetOwner {} => Ok(QueryResponse::Owner(query_owner(state))),
        QueryMsg::GetSendFee {} => Ok(QueryResponse::SendFee(query_send_fee(state))),
        QueryMsg::GetBalance { account } => match query_balance(ledger, account) {
            Ok(resp) => Ok(QueryResponse::Balance(resp)),
            Err(e) => Err(e),
        },
    }
}

} // verus!
