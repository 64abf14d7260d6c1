use std::str::FromStr;

use anchor_escrow::{
    custodian_address, escrow_seed_bytes, exchange, initialize, map_ledger_error, EscrowAccount,
    EscrowError, Exchange, Initialize, Key, Ledger, LedgerError, LedgerOp, RecordEntry,
    TokenAccount,
};
use anchor_lang::prelude::Pubkey;

const PROGRAM: &str = "CwEY4zhbE1yVnx6UkKzx64auCGVqVhQD5yMnf526vKmM";

fn program_id() -> Key {
    Key::new(Pubkey::from_str(PROGRAM).unwrap().to_bytes())
}

fn k(n: u8) -> Key {
    Key::new([n; 32])
}

const ALICE: u8 = 1;
const BOB: u8 = 2;
const ALICE_A: u8 = 10;
const ALICE_B: u8 = 11;
const BOB_A: u8 = 20;
const BOB_B: u8 = 21;
const RECORD: u8 = 30;

fn acct(key: u8, owner: Key, amount: u64) -> TokenAccount {
    TokenAccount { key: k(key), owner, amount }
}

fn ledger() -> Ledger {
    Ledger {
        accounts: vec![
            acct(ALICE_A, k(ALICE), 100),
            acct(ALICE_B, k(ALICE), 0),
            acct(BOB_A, k(BOB), 0),
            acct(BOB_B, k(BOB), 50),
        ],
        records: vec![],
    }
}

fn init_request() -> Initialize {
    Initialize {
        initializer: k(ALICE),
        initializer_deposit_token_account: k(ALICE_A),
        initializer_receive_token_account: k(ALICE_B),
        escrow_account: k(RECORD),
    }
}

fn custodian() -> Key {
    custodian_address(&program_id()).unwrap().0
}

fn exchange_request() -> Exchange {
    Exchange {
        taker: k(BOB),
        taker_deposit_token_account: k(BOB_B),
        taker_receive_token_account: k(BOB_A),
        pda_deposit_token_account: k(ALICE_A),
        initializer_receive_token_account: k(ALICE_B),
        initializer_main_account: k(ALICE),
        escrow_account: k(RECORD),
        pda_account: custodian(),
    }
}

fn get(l: &Ledger, key: u8) -> TokenAccount {
    *l.accounts.iter().find(|a| a.key.bytes == [key; 32]).unwrap()
}

fn snapshot(l: &Ledger) -> Vec<([u8; 32], [u8; 32], u64)> {
    l.accounts.iter().map(|a| (a.key.bytes, a.owner.bytes, a.amount)).collect()
}

fn opened() -> Ledger {
    let mut l = ledger();
    initialize(&mut l, &program_id(), &init_request(), 100, 50).unwrap();
    l
}

#[test]
fn custodian_matches_program_address_search() {
    let pid = Pubkey::from_str(PROGRAM).unwrap();
    let (expected, bump) = Pubkey::find_program_address(&[b"escrow"], &pid);
    let (got, got_bump) = custodian_address(&program_id()).unwrap();
    assert_eq!(got.bytes, expected.to_bytes());
    assert_eq!(got_bump, bump);
    assert_ne!(got.bytes, program_id().bytes);
}

#[test]
fn custodian_is_deterministic() {
    let a = custodian_address(&program_id()).unwrap();
    let b = custodian_address(&program_id()).unwrap();
    assert_eq!(a.0.bytes, b.0.bytes);
    assert_eq!(a.1, b.1);
}

#[test]
fn seed_is_escrow() {
    assert_eq!(escrow_seed_bytes(), b"escrow".to_vec());
}

#[test]
fn key_equality_is_bytewise() {
    let mut bytes = [7u8; 32];
    assert!(Key::new(bytes).equals(&Key::new(bytes)));
    bytes[31] = 8;
    assert!(!Key::new([7u8; 32]).equals(&Key::new(bytes)));
}

#[test]
fn record_size_is_112_bytes() {
    assert_eq!(EscrowAccount::LEN, 112);
}

#[test]
fn initialize_records_terms_and_hands_custody() {
    let mut l = ledger();
    let ops = initialize(&mut l, &program_id(), &init_request(), 100, 50).unwrap();
    assert_eq!(ops.len(), 1);
    assert_eq!(l.records.len(), 1);
    let rec = l.records[0];
    assert_eq!(rec.key.bytes, [RECORD; 32]);
    assert_eq!(rec.data.initializer_key.bytes, [ALICE; 32]);
    assert_eq!(rec.data.initializer_deposit_token_account.bytes, [ALICE_A; 32]);
    assert_eq!(rec.data.initializer_receive_token_account.bytes, [ALICE_B; 32]);
    assert_eq!(rec.data.initialize_amount, 100);
    assert_eq!(rec.data.taker_amount, 50);
    assert_eq!(get(&l, ALICE_A).owner.bytes, custodian().bytes);
    assert_eq!(get(&l, ALICE_A).amount, 100);
}

#[test]
fn initialize_with_partial_deposit() {
    let mut l = ledger();
    initialize(&mut l, &program_id(), &init_request(), 40, 7).unwrap();
    assert_eq!(l.records[0].data.initialize_amount, 40);
    assert_eq!(l.records[0].data.taker_amount, 7);
}

#[test]
fn initialize_overdraft_is_refused() {
    let mut l = ledger();
    let before = snapshot(&l);
    let r = initialize(&mut l, &program_id(), &init_request(), 101, 50);
    assert_eq!(r.unwrap_err(), EscrowError::InsufficientFunds);
    assert_eq!(snapshot(&l), before);
    assert!(l.records.is_empty());
}

#[test]
fn initialize_twice_at_one_address_is_refused() {
    let mut l = opened();
    let mut req = init_request();
    req.initializer_deposit_token_account = k(ALICE_B);
    let r = initialize(&mut l, &program_id(), &req, 0, 1);
    assert_eq!(r.unwrap_err(), EscrowError::AllocationFailure);
    assert_eq!(l.records.len(), 1);
}

#[test]
fn initialize_with_unknown_account_is_refused() {
    let mut l = ledger();
    let mut req = init_request();
    req.initializer_receive_token_account = k(99);
    let r = initialize(&mut l, &program_id(), &req, 10, 5);
    assert_eq!(r.unwrap_err(), EscrowError::ConstraintViolation);
    assert!(l.records.is_empty());
}

#[test]
fn initialize_by_non_owner_is_refused() {
    let mut l = ledger();
    let mut req = init_request();
    req.initializer = k(BOB);
    let before = snapshot(&l);
    let r = initialize(&mut l, &program_id(), &req, 10, 5);
    assert_eq!(r.unwrap_err(), EscrowError::AuthorityMismatch);
    assert_eq!(snapshot(&l), before);
    assert!(l.records.is_empty());
}

#[test]
fn end_to_end_swap() {
    let mut l = opened();
    let ops = exchange(&mut l, &program_id(), &exchange_request()).unwrap();
    assert_eq!(ops.len(), 3);
    assert_eq!(get(&l, BOB_A).amount, 100);
    assert_eq!(get(&l, ALICE_B).amount, 50);
    assert_eq!(get(&l, BOB_B).amount, 0);
    assert_eq!(get(&l, ALICE_A).amount, 0);
    assert_eq!(get(&l, ALICE_A).owner.bytes, [ALICE; 32]);
    assert!(l.records.is_empty());
}

#[test]
fn exchange_effects_are_listed_in_order() {
    let mut l = opened();
    let ops = exchange(&mut l, &program_id(), &exchange_request()).unwrap();
    match ops[0] {
        LedgerOp::Transfer { from, to, amount, authority } => {
            assert_eq!(from.bytes, [ALICE_A; 32]);
            assert_eq!(to.bytes, [BOB_A; 32]);
            assert_eq!(amount, 100);
            assert_eq!(authority.bytes, custodian().bytes);
        },
        _ => panic!("first effect is a transfer"),
    }
    match ops[1] {
        LedgerOp::Transfer { from, to, amount, authority } => {
            assert_eq!(from.bytes, [BOB_B; 32]);
            assert_eq!(to.bytes, [ALICE_B; 32]);
            assert_eq!(amount, 50);
            assert_eq!(authority.bytes, [BOB; 32]);
        },
        _ => panic!("second effect is a transfer"),
    }
    match ops[2] {
        LedgerOp::SetAuthority { account, current_authority, new_authority } => {
            assert_eq!(account.bytes, [ALICE_A; 32]);
            assert_eq!(current_authority.bytes, custodian().bytes);
            assert_eq!(new_authority.bytes, [ALICE; 32]);
        },
        _ => panic!("third effect is a hand-back"),
    }
}

#[test]
fn exchange_replay_is_refused() {
    let mut l = opened();
    exchange(&mut l, &program_id(), &exchange_request()).unwrap();
    let after = snapshot(&l);
    let r = exchange(&mut l, &program_id(), &exchange_request());
    assert_eq!(r.unwrap_err(), EscrowError::RecordNotFound);
    assert_eq!(snapshot(&l), after);
}

#[test]
fn exchange_with_wrong_custody_account_is_refused() {
    let mut l = opened();
    let before = snapshot(&l);
    let mut req = exchange_request();
    req.pda_deposit_token_account = k(ALICE_B);
    let r = exchange(&mut l, &program_id(), &req);
    assert_eq!(r.unwrap_err(), EscrowError::ConstraintViolation);
    assert_eq!(snapshot(&l), before);
    assert_eq!(l.records.len(), 1);
}

#[test]
fn exchange_with_wrong_receive_account_is_refused() {
    let mut l = opened();
    let before = snapshot(&l);
    let mut req = exchange_request();
    req.initializer_receive_token_account = k(BOB_A);
    let r = exchange(&mut l, &program_id(), &req);
    assert_eq!(r.unwrap_err(), EscrowError::ConstraintViolation);
    assert_eq!(snapshot(&l), before);
    assert_eq!(l.records.len(), 1);
}

#[test]
fn exchange_with_wrong_initializer_is_refused() {
    let mut l = opened();
    let before = snapshot(&l);
    let mut req = exchange_request();
    req.initializer_main_account = k(BOB);
    let r = exchange(&mut l, &program_id(), &req);
    assert_eq!(r.unwrap_err(), EscrowError::ConstraintViolation);
    assert_eq!(snapshot(&l), before);
    assert_eq!(l.records.len(), 1);
}

#[test]
fn exchange_with_short_taker_is_refused() {
    let mut l = opened();
    l.accounts[3].amount = 49;
    let before = snapshot(&l);
    let r = exchange(&mut l, &program_id(), &exchange_request());
    assert_eq!(r.unwrap_err(), EscrowError::InsufficientFunds);
    assert_eq!(snapshot(&l), before);
    assert_eq!(l.records.len(), 1);
}

#[test]
fn exchange_with_unknown_taker_account_is_refused() {
    let mut l = opened();
    let mut req = exchange_request();
    req.taker_deposit_token_account = k(99);
    let r = exchange(&mut l, &program_id(), &req);
    assert_eq!(r.unwrap_err(), EscrowError::ConstraintViolation);
}

#[test]
fn exchange_with_forged_custodian_is_refused() {
    let mut l = opened();
    let before = snapshot(&l);
    let mut req = exchange_request();
    req.pda_account = k(BOB);
    let r = exchange(&mut l, &program_id(), &req);
    assert_eq!(r.unwrap_err(), EscrowError::AuthorityMismatch);
    assert_eq!(snapshot(&l), before);
}

#[test]
fn exchange_under_another_program_is_refused() {
    let mut l = opened();
    let r = exchange(&mut l, &k(77), &exchange_request());
    assert_eq!(r.unwrap_err(), EscrowError::AuthorityMismatch);
    assert_eq!(l.records.len(), 1);
}

#[test]
fn failure_between_transfers_changes_nothing() {
    // The taker does not own the account it pays from: the first transfer would
    // go through, the second is refused, and the whole exchange is undone.
    let mut l = opened();
    l.accounts[3].owner = k(ALICE);
    let before = snapshot(&l);
    let r = exchange(&mut l, &program_id(), &exchange_request());
    assert_eq!(r.unwrap_err(), EscrowError::AuthorityMismatch);
    assert_eq!(snapshot(&l), before);
    assert_eq!(l.records.len(), 1);
}

#[test]
fn overflowing_payment_is_refused() {
    let mut l = opened();
    l.accounts[1].amount = u64::MAX - 10;
    let before = snapshot(&l);
    let r = exchange(&mut l, &program_id(), &exchange_request());
    assert_eq!(r.unwrap_err(), EscrowError::ArithmeticOverflow);
    assert_eq!(snapshot(&l), before);
}

#[test]
fn ledger_errors_map_to_escrow_errors() {
    assert_eq!(map_ledger_error(LedgerError::UnknownAccount), EscrowError::ConstraintViolation);
    assert_eq!(map_ledger_error(LedgerError::OwnerMismatch), EscrowError::AuthorityMismatch);
    assert_eq!(map_ledger_error(LedgerError::InsufficientFunds), EscrowError::InsufficientFunds);
    assert_eq!(map_ledger_error(LedgerError::Overflow), EscrowError::ArithmeticOverflow);
}

#[test]
fn record_entry_holds_terms() {
    let mut l = opened();
    let entry: RecordEntry = l.records[0];
    assert_eq!(entry.data.taker_amount, 50);
    l.records.clear();
    assert!(exchange(&mut l, &program_id(), &exchange_request()).is_err());
}
