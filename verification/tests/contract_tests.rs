//! The processors and queries exercised end to end, one request at a time.

use split_ledger::contract::{execute_transfer, execute_withdraw, instantiate, query};
use split_ledger::error::ContractError;
use split_ledger::msg::{
    Coin, InstantiateMsg, MessageInfo, Payment, QueryMsg, QueryResponse,
};
use split_ledger::state::Ledger;

fn coin(amount: u128, denom: &str) -> Coin {
    Coin { denom: denom.to_string(), amount }
}

fn coins(amount: u128, denom: &str) -> Vec<Coin> {
    vec![coin(amount, denom)]
}

fn mock_info(sender: &str, funds: &[Coin]) -> MessageInfo {
    MessageInfo { sender: sender.to_string(), funds: funds.to_vec() }
}

fn balance_of(state: &split_ledger::state::State, ledger: &Ledger, account: &str) -> u128 {
    let res = query(
        state,
        ledger,
        &QueryMsg::GetBalance { account: account.to_string() },
    )
    .unwrap();
    match res {
        QueryResponse::Balance(v) => v.balance,
        _ => panic!("unexpected query response"),
    }
}

#[test]
fn proper_initialization() {
    let msg = InstantiateMsg { send_fee: 1 };

    // negative path - initializing the contract with money
    let info = mock_info("creator", &coins(1000, "usei"));
    let res = instantiate(&info.sender, &info.funds, &msg);
    assert!(res.is_err());
    match res.unwrap_err() {
        ContractError::UnexpectedFunds => {}
        _ => assert!(false),
    };

    let info = mock_info("creator", &[]);
    let state = instantiate(&info.sender, &info.funds, &msg).unwrap();
    let ledger = Ledger::new();

    // check owner
    let res = query(&state, &ledger, &QueryMsg::GetOwner {}).unwrap();
    match res {
        QueryResponse::Owner(value) => assert_eq!("creator", value.owner),
        _ => assert!(false),
    };

    // check send_fee
    let res = query(&state, &ledger, &QueryMsg::GetSendFee {}).unwrap();
    match res {
        QueryResponse::SendFee(value) => assert_eq!(1, value.fee),
        _ => assert!(false),
    };

    // check balance of nonexistent account
    assert_eq!(0, balance_of(&state, &ledger, "random"));
}

#[test]
fn send_coins_negative_path() {
    // init the contract
    let msg = InstantiateMsg { send_fee: 1 };
    let info = mock_info("creator", &[]);
    let state = instantiate(&info.sender, &info.funds, &msg).unwrap();
    let mut ledger = Ledger::new();

    let recipient_a = "recipient_a".to_string();
    let recipient_b = "recipient_b".to_string();

    // negative path: send the wrong type of coin
    let info = mock_info("sender_a", &coins(1, "BTC"));
    let res = execute_transfer(&state, &mut ledger, &info, &recipient_a, &recipient_b);
    assert!(res.is_err());
    match res.unwrap_err() {
        e @ ContractError::InvalidDenomination => {
            assert!(e.message().contains("invalid denomination"))
        }
        _ => assert!(false),
    };

    // negative path: send multiple types of coin
    let to_send = vec![coin(1, "usei"), coin(1, "usei")];
    let info = mock_info("sender_a", &to_send);
    let res = execute_transfer(&state, &mut ledger, &info, &recipient_a, &recipient_b);
    assert!(res.is_err());
    match res.unwrap_err() {
        e @ ContractError::TooManyDenominations => {
            assert!(e.message().as_str() == "please only send usei")
        }
        _ => assert!(false),
    };

    // negative path: send no coins
    let info = mock_info("sender_a", &[]);
    let res = execute_transfer(&state, &mut ledger, &info, &recipient_a, &recipient_b);
    assert!(res.is_err());
    match res.unwrap_err() {
        e @ ContractError::MissingFunds => assert!(e.message().as_str() == "please send usei"),
        _ => assert!(false),
    };

    // negative path: send the wrong number of coins (odd number greater than fee)
    // 4 - fee (1) = 3, which is not divisible by 2
    let info = mock_info("sender_a", &coins(4, "usei"));
    let res = execute_transfer(&state, &mut ledger, &info, &recipient_a, &recipient_b);
    assert!(res.is_err());
    match res.unwrap_err() {
        e @ ContractError::UnevenSplit => assert!(e.message().contains("invalid funds")),
        _ => assert!(false),
    };

    // negative path: send the wrong number of coins (just send the fee)
    let info = mock_info("sender_a", &coins(1, "usei"));
    let res = execute_transfer(&state, &mut ledger, &info, &recipient_a, &recipient_b);
    assert!(res.is_err());
    match res.unwrap_err() {
        e @ ContractError::InsufficientForFee => assert!(e.message().contains("funds <= fee")),
        _ => assert!(false),
    };

    // negative path: send the wrong number of coins (zero)
    let info = mock_info("sender_a", &coins(0, "usei"));
    let res = execute_transfer(&state, &mut ledger, &info, &recipient_a, &recipient_b);
    assert!(res.is_err());
    match res.unwrap_err() {
        e @ ContractError::InsufficientForFee => assert!(e.message().contains("funds <= fee")),
        _ => assert!(false),
    };
}

#[test]
fn send_coins() {
    // init the contract
    let msg = InstantiateMsg { send_fee: 1 };
    let info = mock_info("creator", &[]);
    let state = instantiate(&info.sender, &info.funds, &msg).unwrap();
    let mut ledger = Ledger::new();

    // send coins to the same address
    let info = mock_info("sender_a", &coins(3, "usei"));
    let res = execute_transfer(
        &state,
        &mut ledger,
        &info,
        &"recipient_a".to_string(),
        &"recipient_a".to_string(),
    )
    .unwrap();
    // verify the creator was paid
    assert!(res.payments.len() == 1);
    assert_eq!(
        res.payments[0],
        Payment { to_address: "creator".to_string(), amount: 1, denom: "usei".to_string() }
    );

    // send coins to different addresses
    let info = mock_info("sender_a", &coins(7, "usei"));
    let res = execute_transfer(
        &state,
        &mut ledger,
        &info,
        &"recipient_b".to_string(),
        &"recipient_c".to_string(),
    )
    .unwrap();
    // verify the creator was paid
    assert!(res.payments.len() == 1);
    assert_eq!(
        res.payments[0],
        Payment { to_address: "creator".to_string(), amount: 1, denom: "usei".to_string() }
    );

    // query balances of recipients
    assert_eq!(2, balance_of(&state, &ledger, "recipient_a"));
    assert_eq!(3, balance_of(&state, &ledger, "recipient_b"));
    assert_eq!(3, balance_of(&state, &ledger, "recipient_c"));
}

#[test]
fn withdraw_coins() {
    // init the contract
    let msg = InstantiateMsg { send_fee: 1 };
    let info = mock_info("creator", &[]);
    let state = instantiate(&info.sender, &info.funds, &msg).unwrap();
    let mut ledger = Ledger::new();

    // send coins
    let info = mock_info("sender_a", &coins(7, "usei"));
    execute_transfer(
        &state,
        &mut ledger,
        &info,
        &"recipient_a".to_string(),
        &"recipient_b".to_string(),
    )
    .unwrap();

    // query balance
    assert_eq!(3, balance_of(&state, &ledger, "recipient_a"));

    // withdraw using account not listed
    let info = mock_info("random", &[]);
    let res = execute_withdraw(&state, &mut ledger, &info, 1);
    assert!(res.is_err());
    match res.unwrap_err() {
        ContractError::Unauthorized => {}
        _ => assert!(false),
    };

    // withdraw too many
    let info = mock_info("recipient_a", &[]);
    let res = execute_withdraw(&state, &mut ledger, &info, 4);
    assert!(res.is_err());
    match res.unwrap_err() {
        e @ ContractError::InsufficientFunds => {
            assert!(e.message().contains("insufficient funds"))
        }
        _ => assert!(false),
    };

    // send money with withdrawal request
    let info = mock_info("recipient_a", &coins(1, "usei"));
    let res = execute_withdraw(&state, &mut ledger, &info, 4);
    assert!(res.is_err());
    match res.unwrap_err() {
        e @ ContractError::UnexpectedFunds => assert!(e.message().contains("no funds required")),
        _ => assert!(false),
    };

    // withdraw less than total
    let info = mock_info("recipient_a", &[]);
    let res = execute_withdraw(&state, &mut ledger, &info, 2).unwrap();

    // verify the recipient was paid
    assert!(res.payments.len() == 1);
    assert_eq!(
        res.payments[0],
        Payment { to_address: "recipient_a".to_string(), amount: 2, denom: "usei".to_string() }
    );

    // query balance
    assert_eq!(1, balance_of(&state, &ledger, "recipient_a"));

    // withdraw remaining
    let info = mock_info("recipient_a", &[]);
    let res = execute_withdraw(&state, &mut ledger, &info, 1).unwrap();

    // verify the recipient was paid
    assert!(res.payments.len() == 1);
    assert_eq!(
        res.payments[0],
        Payment { to_address: "recipient_a".to_string(), amount: 1, denom: "usei".to_string() }
    );

    // query balance
    assert_eq!(0, balance_of(&state, &ledger, "recipient_a"));
}
