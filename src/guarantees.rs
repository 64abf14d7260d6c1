use vstd::prelude::*;

use crate::address::{escrow_seed, program_address};
use crate::escrow::{
    exchange_ops, exchange_outcome, from_ledger_error, initialize_ops, initialize_outcome,
    new_record, pinned_match, EscrowError, Exchange, Initialize,
};
use crate::key::{key_from, lemma_key_from, Key};
use crate::ledger::{
    account_index, account_of, balance, has_account, has_record, lemma_ops_result_one,
    lemma_ops_result_three, lemma_record_index, lemma_set_authority_effect,
    lemma_transfer_effect, lemma_update_keeps_index, op_result, record_index, record_of,
    with_owner, LedgerOp, LedgerState,
};
use crate::record::EscrowAccount;

verus! {

/// An initiation whose deposit the source balance covers, on accounts that exist,
/// with the initializer owning the deposit account and the record's address free,
/// succeeds: the record holds exactly the supplied terms, the deposit account's
/// authority is the derived custodian, and no balance moves.
pub proof fn initialize_opens_escrow(
    l: LedgerState,
    program_id: Seq<u8>,
    a: Initialize,
    initialize_amount: u64,
    taker_amount: u64,
)
    requires
        l.wf(),
        program_address(escrow_seed(), program_id) is Some,
        has_account(l.accounts, a.initializer_deposit_token_account@),
        has_account(l.accounts, a.initializer_receive_token_account@),
        !has_record(l.records, a.escrow_account@),
        account_of(l.accounts, a.initializer_deposit_token_account@).owner@ == a.initializer@,
        initialize_amount <= account_of(l.accounts, a.initializer_deposit_token_account@).amount,
    ensures
        initialize_outcome(
            l,
            program_address(escrow_seed(), program_id),
            a,
            initialize_amount,
            taker_amount,
        ) is Ok,
        opened(
            l,
            initialize_outcome(
                l,
                program_address(escrow_seed(), program_id),
                a,
                initialize_amount,
                taker_amount,
            )->Ok_0.0,
            key_from(program_address(escrow_seed(), program_id)->Some_0.0),
            a,
            initialize_amount,
            taker_amount,
        ),
{
    let pda = program_address(escrow_seed(), program_id);
    let custodian = key_from(pda->Some_0.0);
    let dep = a.initializer_deposit_token_account@;
    let s = l.accounts;
    let i = account_index(s, dep);
    let v = with_owner(s[i], custodian);
    let out = initialize_outcome(l, pda, a, initialize_amount, taker_amount);
    lemma_ops_result_one(s, initialize_ops(a, pda->Some_0.0)[0]);
    assert(initialize_ops(a, pda->Some_0.0) =~= seq![initialize_ops(a, pda->Some_0.0)[0]]);
    assert(out is Ok);
    let next = out->Ok_0.0;
    lemma_key_from(custodian);
    assert(next.accounts == s.update(i, v));
    lemma_update_keeps_index(s, i, v, dep);
    assert forall|k: Seq<u8>| balance(next.accounts, k) == balance(s, k) by {
        lemma_update_keeps_index(s, i, v, k);
    }
    lemma_record_index(next.records, l.records.len() as int);
}

/// What a successful initiation leaves: the terms stored at the record's address,
/// the custodian as the deposit account's authority, every balance as it was.
pub open spec fn opened(
    l: LedgerState,
    next: LedgerState,
    custodian: Key,
    a: Initialize,
    initialize_amount: u64,
    taker_amount: u64,
) -> bool {
    &&& has_record(next.records, a.escrow_account@)
    &&& record_of(next.records, a.escrow_account@) == new_record(a, initialize_amount, taker_amount)
    &&& record_of(next.records, a.escrow_account@).initialize_amount == initialize_amount
    &&& record_of(next.records, a.escrow_account@).taker_amount == taker_amount
    &&& account_of(next.accounts, a.initializer_deposit_token_account@).owner == custodian
    &&& forall|k: Seq<u8>| balance(next.accounts, k) == balance(l.accounts, k)
}

/// An initiation whose deposit exceeds the source balance is refused with
/// `InsufficientFunds`, whatever the rest of the request.
pub proof fn initialize_refuses_overdraft(
    l: LedgerState,
    program_id: Seq<u8>,
    a: Initialize,
    initialize_amount: u64,
    taker_amount: u64,
)
    requires
        has_account(l.accounts, a.initializer_deposit_token_account@),
        initialize_amount > account_of(l.accounts, a.initializer_deposit_token_account@).amount,
    ensures
        initialize_outcome(
            l,
            program_address(escrow_seed(), program_id),
            a,
            initialize_amount,
            taker_amount,
        ) == Err::<(LedgerState, Seq<LedgerOp>), EscrowError>(
            EscrowError::InsufficientFunds,
        ),
{
}

/// An exchange whose taker covers the price but whose supplied accounts differ
/// from any that the record pins (custody account, initializer's receive account,
/// initializer, who is also the refund target) is refused with
/// `ConstraintViolation`.
pub proof fn exchange_refuses_unpinned(l: LedgerState, program_id: Seq<u8>, a: Exchange)
    requires
        has_record(l.records, a.escrow_account@),
        has_account(l.accounts, a.taker_deposit_token_account@),
        account_of(l.accounts, a.taker_deposit_token_account@).amount >= record_of(
            l.records,
            a.escrow_account@,
        ).taker_amount,
        !pinned_match(record_of(l.records, a.escrow_account@), a),
    ensures
        exchange_outcome(l, program_address(escrow_seed(), program_id), a) == Err::<
            (LedgerState, Seq<LedgerOp>),
            EscrowError,
        >(EscrowError::ConstraintViolation),
{
}

/// An exchange whose taker balance is below the price is refused with
/// `InsufficientFunds`.
pub proof fn exchange_refuses_short_taker(l: LedgerState, program_id: Seq<u8>, a: Exchange)
    requires
        has_record(l.records, a.escrow_account@),
        has_account(l.accounts, a.taker_deposit_token_account@),
        account_of(l.accounts, a.taker_deposit_token_account@).amount < record_of(
            l.records,
            a.escrow_account@,
        ).taker_amount,
    ensures
        exchange_outcome(l, program_address(escrow_seed(), program_id), a) == Err::<
            (LedgerState, Seq<LedgerOp>),
            EscrowError,
        >(EscrowError::InsufficientFunds),
{
}

/// After an exchange succeeds, the same request is refused: its record is gone.
pub proof fn exchange_not_replayable(l: LedgerState, program_id: Seq<u8>, a: Exchange)
    requires
        l.wf(),
        exchange_outcome(l, program_address(escrow_seed(), program_id), a) is Ok,
    ensures
        exchange_outcome(
            exchange_outcome(l, program_address(escrow_seed(), program_id), a)->Ok_0.0,
            program_address(escrow_seed(), program_id),
            a,
        ) == Err::<(LedgerState, Seq<LedgerOp>), EscrowError>(EscrowError::RecordNotFound),
{
    let pda = program_address(escrow_seed(), program_id);
    let k = a.escrow_account@;
    let ri = record_index(l.records, k);
    let next = exchange_outcome(l, pda, a)->Ok_0.0;
    assert(next.records == l.records.remove(ri));
    if has_record(next.records, k) {
        let j = choose|j: int| 0 <= j < next.records.len() && next.records[j].key@ == k;
        let oj = if j < ri { j } else { j + 1 };
        assert(next.records[j] == l.records[oj]);
        assert(l.records[ri].key@ == k);
    }
}

/// Once a request passes validation, a refusal of the second transfer after the
/// first went through refuses the whole exchange with that refusal, so that
/// (by `exchange`'s contract) no transfer stands.
pub proof fn exchange_all_or_nothing(l: LedgerState, program_id: Seq<u8>, a: Exchange)
    requires
        has_record(l.records, a.escrow_account@),
        has_account(l.accounts, a.taker_deposit_token_account@),
        account_of(l.accounts, a.taker_deposit_token_account@).amount >= record_of(
            l.records,
            a.escrow_account@,
        ).taker_amount,
        pinned_match(record_of(l.records, a.escrow_account@), a),
        program_address(escrow_seed(), program_id) == Some((a.pda_account@, program_address(escrow_seed(), program_id)->Some_0.1)),
        op_result(l.accounts, exchange_ops(a, record_of(l.records, a.escrow_account@))[0]) is Ok,
        op_result(
            op_result(l.accounts, exchange_ops(a, record_of(l.records, a.escrow_account@))[0])->Ok_0,
            exchange_ops(a, record_of(l.records, a.escrow_account@))[1],
        ) is Err,
    ensures
        exchange_outcome(l, program_address(escrow_seed(), program_id), a) == Err::<
            (LedgerState, Seq<LedgerOp>),
            EscrowError,
        >(
            from_ledger_error(
                op_result(
                    op_result(
                        l.accounts,
                        exchange_ops(a, record_of(l.records, a.escrow_account@))[0],
                    )->Ok_0,
                    exchange_ops(a, record_of(l.records, a.escrow_account@))[1],
                )->Err_0,
            ),
        ),
{
    let ops = exchange_ops(a, record_of(l.records, a.escrow_account@));
    lemma_ops_result_three(l.accounts, ops[0], ops[1], ops[2]);
    assert(ops =~= seq![ops[0], ops[1], ops[2]]);
}

/// The four token accounts of an exchange are pairwise distinct.
pub open spec fn four_distinct(a: Exchange) -> bool {
    &&& a.pda_deposit_token_account@ != a.taker_receive_token_account@
    &&& a.pda_deposit_token_account@ != a.taker_deposit_token_account@
    &&& a.pda_deposit_token_account@ != a.initializer_receive_token_account@
    &&& a.taker_receive_token_account@ != a.taker_deposit_token_account@
    &&& a.taker_receive_token_account@ != a.initializer_receive_token_account@
    &&& a.taker_deposit_token_account@ != a.initializer_receive_token_account@
}

/// What a settled exchange of `rec` leaves: token A moved from custody to the
/// taker, token B from the taker to the initializer, no other balance touched,
/// the custody account back with the initializer, and the record gone.
pub open spec fn settled(l: LedgerState, next: LedgerState, rec: EscrowAccount, a: Exchange) -> bool {
    let s = l.accounts;
    let t = next.accounts;
    &&& balance(t, a.taker_receive_token_account@) == balance(s, a.taker_receive_token_account@)
        + rec.initialize_amount
    &&& balance(t, a.pda_deposit_token_account@) == balance(s, a.pda_deposit_token_account@)
        - rec.initialize_amount
    &&& balance(t, a.taker_deposit_token_account@) == balance(s, a.taker_deposit_token_account@)
        - rec.taker_amount
    &&& balance(t, a.initializer_receive_token_account@) == balance(
        s,
        a.initializer_receive_token_account@,
    ) + rec.taker_amount
    &&& forall|k: Seq<u8>|
        k != a.taker_receive_token_account@ && k != a.pda_deposit_token_account@ && k
            != a.taker_deposit_token_account@ && k != a.initializer_receive_token_account@
            ==> balance(t, k) == balance(s, k)
    &&& account_of(t, a.pda_deposit_token_account@).owner == rec.initializer_key
    &&& !has_record(next.records, a.escrow_account@)
}

/// A successful exchange among four distinct token accounts settles the escrow:
/// the taker gains the deposit, the initializer gains the price, custody returns
/// to the initializer and the record is destroyed.
pub proof fn exchange_settles(l: LedgerState, program_id: Seq<u8>, a: Exchange)
    requires
        l.wf(),
        four_distinct(a),
        exchange_outcome(l, program_address(escrow_seed(), program_id), a) is Ok,
    ensures
        settled(
            l,
            exchange_outcome(l, program_address(escrow_seed(), program_id), a)->Ok_0.0,
            record_of(l.records, a.escrow_account@),
            a,
        ),
{
    let pda = program_address(escrow_seed(), program_id);
    let rec = record_of(l.records, a.escrow_account@);
    let ops = exchange_ops(a, rec);
    let s = l.accounts;
    lemma_ops_result_three(s, ops[0], ops[1], ops[2]);
    assert(ops =~= seq![ops[0], ops[1], ops[2]]);
    let s1 = op_result(s, ops[0])->Ok_0;
    let s2 = op_result(s1, ops[1])->Ok_0;
    lemma_transfer_effect(
        s,
        a.pda_deposit_token_account@,
        a.taker_receive_token_account@,
        rec.initialize_amount,
        a.pda_account@,
    );
    lemma_transfer_effect(
        s1,
        a.taker_deposit_token_account@,
        a.initializer_receive_token_account@,
        rec.taker_amount,
        a.taker@,
    );
    lemma_set_authority_effect(
        s2,
        a.pda_deposit_token_account@,
        a.pda_account@,
        rec.initializer_key@,
    );
    lemma_key_from(rec.initializer_key);
    exchange_not_replayable(l, program_id, a);
}

} // verus!
