use truemarket::fungible::{
    Account, FungibleAction, Message, MyFungibleContract, Operation,
};
use truemarket::{Error, RuntimeContext};

const APP: u64 = 999;
const ALICE: u64 = 1;
const BOB: u64 = 2;
const CHAIN_A: u64 = 100;
const CHAIN_B: u64 = 200;

fn ctx(chain_id: u64, signer: Option<u64>) -> RuntimeContext {
    RuntimeContext {
        chain_id,
        creator_chain_id: CHAIN_A,
        authenticated_signer: signer,
        message_origin_chain_id: None,
        block_time: 0,
        application_account: APP,
    }
}

#[test]
fn balances_start_at_zero() {
    let c = MyFungibleContract::new();
    assert_eq!(c.state.balance(ALICE), 0);
}

#[test]
fn initialize_overwrites_balance() {
    let mut c = MyFungibleContract::new();
    c.state.initialize_accounts(ALICE, 100);
    assert_eq!(c.state.balance(ALICE), 100);
    c.state.initialize_accounts(ALICE, 7);
    assert_eq!(c.state.balance(ALICE), 7);
    assert_eq!(c.state.balance(BOB), 0);
}

#[test]
fn credit_saturates_at_max() {
    let mut c = MyFungibleContract::new();
    c.state.credit(ALICE, u128::MAX);
    c.state.credit(ALICE, 5);
    assert_eq!(c.state.balance(ALICE), u128::MAX);
}

#[test]
fn debit_requires_sufficient_balance() {
    let mut c = MyFungibleContract::new();
    c.state.initialize_accounts(ALICE, 10);
    assert_eq!(c.state.debit(ALICE, 11), Err(Error::InsufficientBalance));
    assert_eq!(c.state.balance(ALICE), 10);
    assert_eq!(c.state.debit(ALICE, 4), Ok(()));
    assert_eq!(c.state.balance(ALICE), 6);
}

#[test]
fn local_transfer_moves_balance() {
    let mut c = MyFungibleContract::new();
    c.state.initialize_accounts(ALICE, 100);
    let actions = c
        .execute_operation(
            &ctx(CHAIN_A, Some(ALICE)),
            Operation::Transfer {
                owner: ALICE,
                amount: 30,
                target_account: Account { chain_id: CHAIN_A, owner: BOB },
            },
        )
        .unwrap();
    assert!(actions.is_empty());
    assert_eq!(c.state.balance(ALICE), 70);
    assert_eq!(c.state.balance(BOB), 30);
}

#[test]
fn cross_chain_transfer_sends_credit_message() {
    let mut sender = MyFungibleContract::new();
    sender.state.initialize_accounts(ALICE, 100);
    let actions = sender
        .execute_operation(
            &ctx(CHAIN_A, Some(ALICE)),
            Operation::Transfer {
                owner: ALICE,
                amount: 30,
                target_account: Account { chain_id: CHAIN_B, owner: BOB },
            },
        )
        .unwrap();
    assert_eq!(sender.state.balance(ALICE), 70);
    assert_eq!(sender.state.balance(BOB), 0);
    assert_eq!(
        actions,
        vec![FungibleAction::SendMessage {
            destination: CHAIN_B,
            message: Message::Credit { owner: BOB, amount: 30 },
        }]
    );
    // The receiving chain credits the owner when the message arrives.
    let mut receiver = MyFungibleContract::new();
    receiver.execute_message(&ctx(CHAIN_B, None), Message::Credit { owner: BOB, amount: 30 });
    assert_eq!(receiver.state.balance(BOB), 30);
}

#[test]
fn transfer_requires_matching_signer() {
    let mut c = MyFungibleContract::new();
    c.state.initialize_accounts(ALICE, 100);
    let op = Operation::Transfer {
        owner: ALICE,
        amount: 30,
        target_account: Account { chain_id: CHAIN_A, owner: BOB },
    };
    assert_eq!(c.execute_operation(&ctx(CHAIN_A, Some(BOB)), op), Err(Error::WrongSigner));
    assert_eq!(c.execute_operation(&ctx(CHAIN_A, None), op), Err(Error::WrongSigner));
    assert_eq!(c.state.balance(ALICE), 100);
}

#[test]
fn transfer_fails_on_insufficient_balance() {
    let mut c = MyFungibleContract::new();
    c.state.initialize_accounts(ALICE, 10);
    let op = Operation::Transfer {
        owner: ALICE,
        amount: 30,
        target_account: Account { chain_id: CHAIN_A, owner: BOB },
    };
    assert_eq!(c.execute_operation(&ctx(CHAIN_A, Some(ALICE)), op), Err(Error::InsufficientBalance));
    assert_eq!(c.state.balance(ALICE), 10);
}

#[test]
fn mint_credits_owner() {
    let mut c = MyFungibleContract::new();
    let actions = c
        .execute_operation(&ctx(CHAIN_A, Some(BOB)), Operation::Mint { owner: BOB, amount: 42 })
        .unwrap();
    assert!(actions.is_empty());
    assert_eq!(c.state.balance(BOB), 42);
}

#[test]
fn self_transfer_keeps_balance() {
    let mut c = MyFungibleContract::new();
    c.state.initialize_accounts(ALICE, 100);
    let actions = c
        .execute_operation(
            &ctx(CHAIN_A, Some(ALICE)),
            Operation::Transfer {
                owner: ALICE,
                amount: 60,
                target_account: Account { chain_id: CHAIN_A, owner: ALICE },
            },
        )
        .unwrap();
    assert!(actions.is_empty());
    assert_eq!(c.state.balance(ALICE), 100);
}
