use vstd::prelude::*;

use crate::address::{custodian_address, escrow_seed, program_address};
use crate::key::{key_from, lemma_key_from, Key};
use crate::ledger::{
    account_of, apply_ops, find_account, find_record, has_account, has_record, ops_result,
    record_index, record_of, records_unique, Ledger, LedgerError, LedgerOp, LedgerState,
    RecordEntry,
};
use crate::record::EscrowAccount;

verus! {

/// Why an escrow operation was refused. A refused operation changes nothing.
#[derive(Clone, Copy, Debug, PartialEq, Eq, Structural)]
pub enum EscrowError {
    /// A balance does not cover the amount asked of it.
    InsufficientFunds,
    /// A supplied account is unknown or differs from the one the record pins.
    ConstraintViolation,
    /// The custodian could not be derived, or an authority is not the owner.
    AuthorityMismatch,
    /// The record's address is already taken.
    AllocationFailure,
    /// No open escrow record stands at the supplied address.
    RecordNotFound,
    /// A destination balance would exceed `u64::MAX`.
    ArithmeticOverflow,
}

pub open spec fn from_ledger_error(e: LedgerError) -> EscrowError {
    match e {
        LedgerError::UnknownAccount => EscrowError::ConstraintViolation,
        LedgerError::OwnerMismatch => EscrowError::AuthorityMismatch,
        LedgerError::InsufficientFunds => EscrowError::InsufficientFunds,
        LedgerError::Overflow => EscrowError::ArithmeticOverflow,
    }
}

pub fn map_ledger_error(e: LedgerError) -> (r: EscrowError)
    ensures
        r == from_ledger_error(e),
{
    match e {
        LedgerError::UnknownAccount => EscrowError::ConstraintViolation,
        LedgerError::OwnerMismatch => EscrowError::AuthorityMismatch,
        LedgerError::InsufficientFunds => EscrowError::InsufficientFunds,
        LedgerError::Overflow => EscrowError::ArithmeticOverflow,
    }
}

/// The accounts named by an initiation request, signed by `initializer`.
#[derive(Clone, Copy, Debug)]
pub struct Initialize {
    pub initializer: Key,
    pub initializer_deposit_token_account: Key,
    pub initializer_receive_token_account: Key,
    pub escrow_account: Key,
}

/// The accounts named by an exchange request, signed by `taker`.
#[derive(Clone, Copy, Debug)]
pub struct Exchange {
    pub taker: Key,
    pub taker_deposit_token_account: Key,
    pub taker_receive_token_account: Key,
    pub pda_deposit_token_account: Key,
    pub initializer_receive_token_account: Key,
    pub initializer_main_account: Key,
    pub escrow_account: Key,
    pub pda_account: Key,
}

/// The record that an initiation writes.
pub open spec fn new_record(a: Initialize, initialize_amount: u64, taker_amount: u64) -> EscrowAccount {
    EscrowAccount {
        initializer_key: a.initializer,
        initializer_deposit_token_account: a.initializer_deposit_token_account,
        initializer_receive_token_account: a.initializer_receive_token_account,
        initialize_amount,
        taker_amount,
    }
}

/// The one effect of an initiation: the deposit account passes to the custodian.
pub open spec fn initialize_ops(a: Initialize, custodian: Seq<u8>) -> Seq<LedgerOp> {
    seq![
        LedgerOp::SetAuthority {
            account: a.initializer_deposit_token_account,
            current_authority: a.initializer,
            new_authority: key_from(custodian),
        },
    ]
}

/// What an initiation leaves, with the effects it made, or why it is refused,
/// given the custodian derivation `pda`.
pub open spec fn initialize_outcome(
    l: LedgerState,
    pda: Option<(Seq<u8>, u8)>,
    a: Initialize,
    initialize_amount: u64,
    taker_amount: u64,
) -> Result<(LedgerState, Seq<LedgerOp>), EscrowError> {
    if !has_account(l.accounts, a.initializer_deposit_token_account@) {
        Err(EscrowError::ConstraintViolation)
    } else if account_of(l.accounts, a.initializer_deposit_token_account@).amount
        < initialize_amount {
        Err(EscrowError::InsufficientFunds)
    } else if !has_account(l.accounts, a.initializer_receive_token_account@) {
        Err(EscrowError::ConstraintViolation)
    } else if has_record(l.records, a.escrow_account@) {
        Err(EscrowError::AllocationFailure)
    } else {
        match pda {
            None => Err(EscrowError::AuthorityMismatch),
            Some((custodian, _)) => {
                let ops = initialize_ops(a, custodian);
                match ops_result(l.accounts, ops) {
                    Err(e) => Err(from_ledger_error(e)),
                    Ok(t) => Ok(
                        (
                            LedgerState {
                                accounts: t,
                                records: l.records.push(
                                    RecordEntry {
                                        key: a.escrow_account,
                                        data: new_record(a, initialize_amount, taker_amount),
                                    },
                                ),
                            },
                            ops,
                        ),
                    ),
                }
            },
        }
    }
}

impl Exchange {
    /// Token A from custody to the taker, under the custodian's authority.
    pub open spec fn transfer_to_taker(self, amount: u64) -> LedgerOp {
        LedgerOp::Transfer {
            from: self.pda_deposit_token_account,
            to: self.taker_receive_token_account,
            amount,
            authority: self.pda_account,
        }
    }

    /// Token B from the taker to the initializer, under the taker's authority.
    pub open spec fn transfer_to_initializer(self, amount: u64) -> LedgerOp {
        LedgerOp::Transfer {
            from: self.taker_deposit_token_account,
            to: self.initializer_receive_token_account,
            amount,
            authority: self.taker,
        }
    }

    /// The custody account back to `new_authority`, under the custodian's authority.
    pub open spec fn hand_back(self, new_authority: Key) -> LedgerOp {
        LedgerOp::SetAuthority {
            account: self.pda_deposit_token_account,
            current_authority: self.pda_account,
            new_authority,
        }
    }

    fn into_transfer_to_taker_context(&self, amount: u64) -> (r: LedgerOp)
        ensures
            r == self.transfer_to_taker(amount),
    {
        LedgerOp::Transfer {
            from: self.pda_deposit_token_account,
            to: self.taker_receive_token_account,
            amount,
            authority: self.pda_account,
        }
    }

    fn into_transfer_to_initializer_context(&self, amount: u64) -> (r: LedgerOp)
        ensures
            r == self.transfer_to_initializer(amount),
    {
        LedgerOp::Transfer {
            from: self.taker_deposit_token_account,
            to: self.initializer_receive_token_account,
            amount,
            authority: self.taker,
        }
    }

    fn into_set_authority_context(&self, new_authority: Key) -> (r: LedgerOp)
        ensures
            r == self.hand_back(new_authority),
    {
        LedgerOp::SetAuthority {
            account: self.pda_deposit_token_account,
            current_authority: self.pda_account,
            new_authority,
        }
    }
}

/// The supplied accounts are those that the record pins: the custody account, the
/// initializer's receive account, and the initializer, who also gets the record's
/// storage back.
pub open spec fn pinned_match(rec: EscrowAccount, a: Exchange) -> bool {
    &&& rec.initializer_deposit_token_account@ == a.pda_deposit_token_account@
    &&& rec.initializer_receive_token_account@ == a.initializer_receive_token_account@
    &&& rec.initializer_key@ == a.initializer_main_account@
}

/// The three effects of an exchange, in order.
pub open spec fn exchange_ops(a: Exchange, rec: EscrowAccount) -> Seq<LedgerOp> {
    seq![
        a.transfer_to_taker(rec.initialize_amount),
        a.transfer_to_initializer(rec.taker_amount),
        a.hand_back(rec.initializer_key),
    ]
}

/// What an exchange leaves, with the effects it made, or why it is refused, given
/// the custodian derivation `pda`.
pub open spec fn exchange_outcome(l: LedgerState, pda: Option<(Seq<u8>, u8)>, a: Exchange) -> Result<
    (LedgerState, Seq<LedgerOp>),
    EscrowError,
> {
    if !has_record(l.records, a.escrow_account@) {
        Err(EscrowError::RecordNotFound)
    } else {
        let rec = record_of(l.records, a.escrow_account@);
        if !has_account(l.accounts, a.taker_deposit_token_account@) {
            Err(EscrowError::ConstraintViolation)
        } else if account_of(l.accounts, a.taker_deposit_token_account@).amount
            < rec.taker_amount {
            Err(EscrowError::InsufficientFunds)
        } else if !pinned_match(rec, a) {
            Err(EscrowError::ConstraintViolation)
        } else {
            match pda {
                None => Err(EscrowError::AuthorityMismatch),
                Some((custodian, _)) => {
                    if custodian != a.pda_account@ {
                        Err(EscrowError::AuthorityMismatch)
                    } else {
                        let ops = exchange_ops(a, rec);
                        match ops_result(l.accounts, ops) {
                            Err(e) => Err(from_ledger_error(e)),
                            Ok(t) => Ok(
                                (
                                    LedgerState {
                                        accounts: t,
                                        records: l.records.remove(
                                            record_index(l.records, a.escrow_account@),
                                        ),
                                    },
                                    ops,
                                ),
                            ),
                        }
                    }
                },
            }
        }
    }
}

proof fn lemma_push_unique(s: Seq<RecordEntry>, e: RecordEntry)
    requires
        records_unique(s),
        !has_record(s, e.key@),
    ensures
        records_unique(s.push(e)),
{
    let t = s.push(e);
    assert forall|i: int, j: int|
        0 <= i < t.len() && 0 <= j < t.len() && t[i].key@ == t[j].key@ implies i == j by {
        if i < s.len() && j == s.len() {
            assert(s[i].key@ == e.key@);
        } else if j < s.len() && i == s.len() {
            assert(s[j].key@ == e.key@);
        }
    }
}

proof fn lemma_remove_unique(s: Seq<RecordEntry>, k: int)
    requires
        records_unique(s),
        0 <= k < s.len(),
    ensures
        records_unique(s.remove(k)),
{
    let t = s.remove(k);
    assert forall|i: int, j: int|
        0 <= i < t.len() && 0 <= j < t.len() && t[i].key@ == t[j].key@ implies i == j by {
        let oi = if i < k { i } else { i + 1 };
        let oj = if j < k { j } else { j + 1 };
        assert(t[i] == s[oi]);
        assert(t[j] == s[oj]);
    }
}

/// Opens an escrow: records the terms at `accounts.escrow_account` and hands the
/// deposit account to the custodian derived for `program_id`. Returns the effects
/// made on the token accounts; a refused request changes nothing.
pub fn initialize(
    ledger: &mut Ledger,
    program_id: &Key,
    accounts: &Initialize,
    initialize_amount: u64,
    taker_amount: u64,
) -> (r: Result<Vec<LedgerOp>, EscrowError>)
    requires
        old(ledger)@.wf(),
    ensures
        final(ledger)@.wf(),
        match initialize_outcome(
            old(ledger)@,
            program_address(escrow_seed(), program_id@),
            *accounts,
            initialize_amount,
            taker_amount,
        ) {
            Ok((next, ops)) => r is Ok && final(ledger)@ == next && r->Ok_0@ == ops,
            Err(e) => r == Err::<Vec<LedgerOp>, EscrowError>(e) && final(ledger)@ == old(ledger)@,
        },
{
    let di = match find_account(&ledger.accounts, &accounts.initializer_deposit_token_account) {
        Some(i) => i,
        None => {
            return Err(EscrowError::ConstraintViolation);
        },
    };
    if ledger.accounts[di].amount < initialize_amount {
        return Err(EscrowError::InsufficientFunds);
    }
    if find_account(&ledger.accounts, &accounts.initializer_receive_token_account).is_none() {
        return Err(EscrowError::ConstraintViolation);
    }
    if find_record(&ledger.records, &accounts.escrow_account).is_some() {
        return Err(EscrowError::AllocationFailure);
    }
    let custodian = match custodian_address(program_id) {
        Some((k, _)) => k,
        None => {
            return Err(EscrowError::AuthorityMismatch);
        },
    };
    let ops: Vec<LedgerOp> = vec![
        LedgerOp::SetAuthority {
            account: accounts.initializer_deposit_token_account,
            current_authority: accounts.initializer,
            new_authority: custodian,
        },
    ];
    proof {
        lemma_key_from(custodian);
        assert(ops@ =~= initialize_ops(*accounts, custodian@));
    }
    match apply_ops(&mut ledger.accounts, &ops) {
        Ok(()) => {},
        Err(e) => {
            return Err(map_ledger_error(e));
        },
    }
    let entry = RecordEntry {
        key: accounts.escrow_account,
        data: EscrowAccount {
            initializer_key: accounts.initializer,
            initializer_deposit_token_account: accounts.initializer_deposit_token_account,
            initializer_receive_token_account: accounts.initializer_receive_token_account,
            initialize_amount,
            taker_amount,
        },
    };
    proof {
        lemma_push_unique(ledger.records@, entry);
    }
    ledger.records.push(entry);
    Ok(ops)
}

/// Settles the escrow at `accounts.escrow_account`: token A to the taker, token B
/// to the initializer, the custody account back to the initializer, and the
/// record removed, all as one unit. Returns the effects made on the token
/// accounts; a refused request changes nothing.
pub fn exchange(ledger: &mut Ledger, program_id: &Key, accounts: &Exchange) -> (r: Result<
    Vec<LedgerOp>,
    EscrowError,
>)
    requires
        old(ledger)@.wf(),
    ensures
        final(ledger)@.wf(),
        match exchange_outcome(old(ledger)@, program_address(escrow_seed(), program_id@), *accounts) {
            Ok((next, ops)) => r is Ok && final(ledger)@ == next && r->Ok_0@ == ops,
            Err(e) => r == Err::<Vec<LedgerOp>, EscrowError>(e) && final(ledger)@ == old(ledger)@,
        },
{
    let ri = match find_record(&ledger.records, &accounts.escrow_account) {
        Some(i) => i,
        None => {
            return Err(EscrowError::RecordNotFound);
        },
    };
    let rec = ledger.records[ri].data;
    let ti = match find_account(&ledger.accounts, &accounts.taker_deposit_token_account) {
        Some(i) => i,
        None => {
            return Err(EscrowError::ConstraintViolation);
        },
    };
    if ledger.accounts[ti].amount < rec.taker_amount {
        return Err(EscrowError::InsufficientFunds);
    }
    if !rec.initializer_deposit_token_account.equals(&accounts.pda_deposit_token_account)
        || !rec.initializer_receive_token_account.equals(
        &accounts.initializer_receive_token_account,
    ) || !rec.initializer_key.equals(&accounts.initializer_main_account) {
        return Err(EscrowError::ConstraintViolation);
    }
    let custodian = match custodian_address(program_id) {
        Some((k, _)) => k,
        None => {
            return Err(EscrowError::AuthorityMismatch);
        },
    };
    if !custodian.equals(&accounts.pda_account) {
        return Err(EscrowError::AuthorityMismatch);
    }
    let ops: Vec<LedgerOp> = vec![
        accounts.into_transfer_to_taker_context(rec.initialize_amount),
        accounts.into_transfer_to_initializer_context(rec.taker_amount),
        accounts.into_set_authority_context(rec.initializer_key),
    ];
    assert(ops@ =~= exchange_ops(*accounts, rec));
    match apply_ops(&mut ledger.accounts, &ops) {
        Ok(()) => {},
        Err(e) => {
            return Err(map_ledger_error(e));
        },
    }
    proof {
        lemma_remove_unique(ledger.records@, ri as int);
    }
    ledger.records.remove(ri);
    Ok(ops)
}

} // verus!
