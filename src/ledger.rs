use vstd::prelude::*;

use crate::key::{key_from, lemma_key_from, Key};
use crate::record::EscrowAccount;

verus! {

/// A fungible-token account: its address, the authority that may move funds out
/// of it or hand it over, and its balance.
#[derive(Clone, Copy, Debug)]
pub struct TokenAccount {
    pub key: Key,
    pub owner: Key,
    pub amount: u64,
}

/// An escrow record stored at its own address.
#[derive(Clone, Copy, Debug)]
pub struct RecordEntry {
    pub key: Key,
    pub data: EscrowAccount,
}

/// Why the ledger refused a transfer or an authority change.
#[derive(Clone, Copy, Debug, PartialEq, Eq, Structural)]
pub enum LedgerError {
    /// A named account is not on the ledger.
    UnknownAccount,
    /// The authority presented is not the account's owner.
    OwnerMismatch,
    /// The source balance is below the amount.
    InsufficientFunds,
    /// The destination balance would exceed `u64::MAX`.
    Overflow,
}

/// One effect on token accounts.
#[derive(Clone, Copy, Debug)]
pub enum LedgerOp {
    /// Move `amount` from `from` to `to`, authorized by `authority`.
    Transfer { from: Key, to: Key, amount: u64, authority: Key },
    /// Hand `account` from `current_authority` to `new_authority`.
    SetAuthority { account: Key, current_authority: Key, new_authority: Key },
}

/// The token accounts and escrow records that the escrow operations read and change.
pub struct Ledger {
    pub accounts: Vec<TokenAccount>,
    pub records: Vec<RecordEntry>,
}

/// The ledger as values: its accounts and its records, in order.
pub struct LedgerState {
    pub accounts: Seq<TokenAccount>,
    pub records: Seq<RecordEntry>,
}

impl View for Ledger {
    type V = LedgerState;

    open spec fn view(&self) -> LedgerState {
        LedgerState { accounts: self.accounts@, records: self.records@ }
    }
}

pub open spec fn has_account(s: Seq<TokenAccount>, k: Seq<u8>) -> bool {
    exists|i: int| 0 <= i < s.len() && s[i].key@ == k
}

/// Position of the account at address `k` (meaningful where `has_account` holds).
pub open spec fn account_index(s: Seq<TokenAccount>, k: Seq<u8>) -> int {
    choose|i: int| 0 <= i < s.len() && s[i].key@ == k
}

pub open spec fn account_of(s: Seq<TokenAccount>, k: Seq<u8>) -> TokenAccount {
    s[account_index(s, k)]
}

/// Balance of the account at `k`, 0 where there is none.
pub open spec fn balance(s: Seq<TokenAccount>, k: Seq<u8>) -> int {
    if has_account(s, k) {
        account_of(s, k).amount as int
    } else {
        0
    }
}

pub open spec fn accounts_unique(s: Seq<TokenAccount>) -> bool {
    forall|i: int, j: int|
        0 <= i < s.len() && 0 <= j < s.len() && s[i].key@ == s[j].key@ ==> i == j
}

pub open spec fn has_record(s: Seq<RecordEntry>, k: Seq<u8>) -> bool {
    exists|i: int| 0 <= i < s.len() && s[i].key@ == k
}

pub open spec fn record_index(s: Seq<RecordEntry>, k: Seq<u8>) -> int {
    choose|i: int| 0 <= i < s.len() && s[i].key@ == k
}

pub open spec fn record_of(s: Seq<RecordEntry>, k: Seq<u8>) -> EscrowAccount {
    s[record_index(s, k)].data
}

pub open spec fn records_unique(s: Seq<RecordEntry>) -> bool {
    forall|i: int, j: int|
        0 <= i < s.len() && 0 <= j < s.len() && s[i].key@ == s[j].key@ ==> i == j
}

impl LedgerState {
    /// No two accounts, and no two records, share an address.
    pub open spec fn wf(self) -> bool {
        accounts_unique(self.accounts) && records_unique(self.records)
    }
}

pub open spec fn with_amount(a: TokenAccount, amount: u64) -> TokenAccount {
    TokenAccount { key: a.key, owner: a.owner, amount }
}

pub open spec fn with_owner(a: TokenAccount, owner: Key) -> TokenAccount {
    TokenAccount { key: a.key, owner, amount: a.amount }
}

/// Moving `amount` from `from` to `to` under `authority`: both accounts exist, the
/// authority owns the source, the source covers the amount and the destination
/// does not overflow. A transfer from an account to itself changes nothing.
pub open spec fn transfer_result(
    s: Seq<TokenAccount>,
    from: Seq<u8>,
    to: Seq<u8>,
    amount: u64,
    authority: Seq<u8>,
) -> Result<Seq<TokenAccount>, LedgerError> {
    if !has_account(s, from) || !has_account(s, to) {
        Err(LedgerError::UnknownAccount)
    } else if account_of(s, from).owner@ != authority {
        Err(LedgerError::OwnerMismatch)
    } else if account_of(s, from).amount < amount {
        Err(LedgerError::InsufficientFunds)
    } else if from == to {
        Ok(s)
    } else if account_of(s, to).amount + amount > u64::MAX {
        Err(LedgerError::Overflow)
    } else {
        let i = account_index(s, from);
        let j = account_index(s, to);
        Ok(
            s.update(i, with_amount(s[i], (s[i].amount - amount) as u64)).update(
                j,
                with_amount(s[j], (s[j].amount + amount) as u64),
            ),
        )
    }
}

/// Handing `account` from its current owner `current` to `new_owner`.
pub open spec fn set_authority_result(
    s: Seq<TokenAccount>,
    account: Seq<u8>,
    current: Seq<u8>,
    new_owner: Seq<u8>,
) -> Result<Seq<TokenAccount>, LedgerError> {
    if !has_account(s, account) {
        Err(LedgerError::UnknownAccount)
    } else if account_of(s, account).owner@ != current {
        Err(LedgerError::OwnerMismatch)
    } else {
        let i = account_index(s, account);
        Ok(s.update(i, with_owner(s[i], key_from(new_owner))))
    }
}

pub open spec fn op_result(s: Seq<TokenAccount>, op: LedgerOp) -> Result<Seq<TokenAccount>, LedgerError> {
    match op {
        LedgerOp::Transfer { from, to, amount, authority } => transfer_result(
            s,
            from@,
            to@,
            amount,
            authority@,
        ),
        LedgerOp::SetAuthority { account, current_authority, new_authority } => set_authority_result(
            s,
            account@,
            current_authority@,
            new_authority@,
        ),
    }
}

/// The effects in order, each on the accounts that the one before left; the
/// first refusal is the result.
pub open spec fn ops_result(s: Seq<TokenAccount>, ops: Seq<LedgerOp>) -> Result<
    Seq<TokenAccount>,
    LedgerError,
>
    decreases ops.len(),
{
    if ops.len() == 0 {
        Ok(s)
    } else {
        match ops_result(s, ops.drop_last()) {
            Ok(t) => op_result(t, ops.last()),
            Err(e) => Err(e),
        }
    }
}

proof fn lemma_ops_result_refused(s: Seq<TokenAccount>, ops: Seq<LedgerOp>, k: int, e: LedgerError)
    requires
        0 <= k <= ops.len(),
        ops_result(s, ops.take(k)) == Err::<Seq<TokenAccount>, LedgerError>(e),
    ensures
        ops_result(s, ops) == Err::<Seq<TokenAccount>, LedgerError>(e),
    decreases ops.len() - k,
{
    if k < ops.len() {
        assert(ops.take(k + 1).drop_last() =~= ops.take(k));
        lemma_ops_result_refused(s, ops, k + 1, e);
    } else {
        assert(ops.take(k) =~= ops);
    }
}

/// One effect alone.
pub proof fn lemma_ops_result_one(s: Seq<TokenAccount>, op: LedgerOp)
    ensures
        ops_result(s, seq![op]) == op_result(s, op),
{
    assert(seq![op].drop_last() =~= Seq::<LedgerOp>::empty());
    assert(ops_result(s, Seq::<LedgerOp>::empty()) == Ok::<Seq<TokenAccount>, LedgerError>(s));
}

/// Three effects, one after the other.
pub proof fn lemma_ops_result_three(s: Seq<TokenAccount>, x: LedgerOp, y: LedgerOp, z: LedgerOp)
    ensures
        ops_result(s, seq![x, y, z]) == match op_result(s, x) {
            Ok(s1) => match op_result(s1, y) {
                Ok(s2) => op_result(s2, z),
                Err(e) => Err(e),
            },
            Err(e) => Err(e),
        },
{
    assert(seq![x, y, z].drop_last() =~= seq![x, y]);
    assert(seq![x, y].drop_last() =~= seq![x]);
    lemma_ops_result_one(s, x);
    assert(ops_result(s, seq![x, y]) == match ops_result(s, seq![x]) {
        Ok(t) => op_result(t, y),
        Err(e) => Err(e),
    });
}

/// The account at position `i` is the one at its own address.
pub proof fn lemma_account_index(s: Seq<TokenAccount>, i: int)
    requires
        accounts_unique(s),
        0 <= i < s.len(),
    ensures
        has_account(s, s[i].key@),
        account_index(s, s[i].key@) == i,
{
    let c = account_index(s, s[i].key@);
    assert(s[c].key@ == s[i].key@);
}

/// Rewriting an account without moving its address keeps every address where it was.
pub proof fn lemma_update_keeps_index(s: Seq<TokenAccount>, i: int, v: TokenAccount, k: Seq<u8>)
    requires
        accounts_unique(s),
        0 <= i < s.len(),
        v.key == s[i].key,
    ensures
        accounts_unique(s.update(i, v)),
        has_account(s.update(i, v), k) == has_account(s, k),
        has_account(s, k) ==> account_index(s.update(i, v), k) == account_index(s, k),
{
    let t = s.update(i, v);
    assert forall|a: int, b: int|
        0 <= a < t.len() && 0 <= b < t.len() && t[a].key@ == t[b].key@ implies a == b by {
        assert(t[a].key == s[a].key);
        assert(t[b].key == s[b].key);
    }
    if has_account(s, k) {
        let c = account_index(s, k);
        assert(t[c].key == s[c].key);
        lemma_account_index(t, c);
    }
    if has_account(t, k) {
        let c = account_index(t, k);
        assert(t[c].key == s[c].key);
    }
}

/// The record at position `i` is the one at its own address.
pub proof fn lemma_record_index(s: Seq<RecordEntry>, i: int)
    requires
        records_unique(s),
        0 <= i < s.len(),
    ensures
        has_record(s, s[i].key@),
        record_index(s, s[i].key@) == i,
{
    let c = record_index(s, s[i].key@);
    assert(s[c].key@ == s[i].key@);
}

/// What a successful transfer between two accounts does: the source loses the
/// amount, the destination gains it, every other balance and every owner stays.
pub proof fn lemma_transfer_effect(
    s: Seq<TokenAccount>,
    from: Seq<u8>,
    to: Seq<u8>,
    amount: u64,
    authority: Seq<u8>,
)
    requires
        accounts_unique(s),
        transfer_result(s, from, to, amount, authority) is Ok,
        from != to,
    ensures
        ({
            let t = transfer_result(s, from, to, amount, authority)->Ok_0;
            &&& accounts_unique(t)
            &&& balance(t, from) == balance(s, from) - amount
            &&& balance(t, to) == balance(s, to) + amount
            &&& forall|k: Seq<u8>| k != from && k != to ==> balance(t, k) == balance(s, k)
            &&& forall|k: Seq<u8>| has_account(t, k) == has_account(s, k)
            &&& forall|k: Seq<u8>|
                has_account(s, k) ==> account_of(t, k).owner == account_of(s, k).owner
        }),
{
    let i = account_index(s, from);
    let j = account_index(s, to);
    let vi = with_amount(s[i], (s[i].amount - amount) as u64);
    let s1 = s.update(i, vi);
    let vj = with_amount(s1[j], (s1[j].amount + amount) as u64);
    let t = s1.update(j, vj);
    assert(i != j);
    assert(t == transfer_result(s, from, to, amount, authority)->Ok_0);
    assert forall|k: Seq<u8>|
        has_account(t, k) == has_account(s, k) && (has_account(s, k) ==> account_index(t, k)
            == account_index(s, k)) by {
        lemma_update_keeps_index(s, i, vi, k);
        lemma_update_keeps_index(s1, j, vj, k);
    }
    lemma_update_keeps_index(s, i, vi, from);
    lemma_update_keeps_index(s1, j, vj, from);
}

/// What a successful authority change does: the account gets the new owner, every
/// balance and every other owner stays.
pub proof fn lemma_set_authority_effect(
    s: Seq<TokenAccount>,
    account: Seq<u8>,
    current: Seq<u8>,
    new_owner: Seq<u8>,
)
    requires
        accounts_unique(s),
        set_authority_result(s, account, current, new_owner) is Ok,
    ensures
        ({
            let t = set_authority_result(s, account, current, new_owner)->Ok_0;
            &&& accounts_unique(t)
            &&& account_of(t, account).owner == key_from(new_owner)
            &&& forall|k: Seq<u8>| balance(t, k) == balance(s, k)
            &&& forall|k: Seq<u8>| has_account(t, k) == has_account(s, k)
            &&& forall|k: Seq<u8>|
                has_account(s, k) && k != account ==> account_of(t, k).owner == account_of(
                    s,
                    k,
                ).owner
        }),
{
    let i = account_index(s, account);
    let v = with_owner(s[i], key_from(new_owner));
    let t = s.update(i, v);
    assert forall|k: Seq<u8>|
        has_account(t, k) == has_account(s, k) && (has_account(s, k) ==> account_index(t, k)
            == account_index(s, k)) by {
        lemma_update_keeps_index(s, i, v, k);
    }
}

/// Position of the account at `k`, if the ledger holds one.
pub fn find_account(s: &Vec<TokenAccount>, k: &Key) -> (r: Option<usize>)
    requires
        accounts_unique(s@),
    ensures
        match r {
            Some(i) => has_account(s@, k@) && i == account_index(s@, k@) && i < s@.len()
                && s@[i as int].key@ == k@,
            None => !has_account(s@, k@),
        },
{
    let mut i: usize = 0;
    while i < s.len()
        invariant
            0 <= i <= s@.len(),
            accounts_unique(s@),
            forall|j: int| 0 <= j < i ==> s@[j].key@ != k@,
        decreases s@.len() - i,
    {
        if s[i].key.equals(k) {
            proof {
                assert(s@[i as int].key@ == k@);
                let c = account_index(s@, k@);
                assert(0 <= c < s@.len() && s@[c].key@ == k@);
            }
            return Some(i);
        }
        i = i + 1;
    }
    None
}

/// Position of the record at `k`, if the ledger holds one.
pub fn find_record(s: &Vec<RecordEntry>, k: &Key) -> (r: Option<usize>)
    requires
        records_unique(s@),
    ensures
        match r {
            Some(i) => has_record(s@, k@) && i == record_index(s@, k@) && i < s@.len()
                && s@[i as int].key@ == k@,
            None => !has_record(s@, k@),
        },
{
    let mut i: usize = 0;
    while i < s.len()
        invariant
            0 <= i <= s@.len(),
            records_unique(s@),
            forall|j: int| 0 <= j < i ==> s@[j].key@ != k@,
        decreases s@.len() - i,
    {
        if s[i].key.equals(k) {
            proof {
                assert(s@[i as int].key@ == k@);
                let c = record_index(s@, k@);
                assert(0 <= c < s@.len() && s@[c].key@ == k@);
            }
            return Some(i);
        }
        i = i + 1;
    }
    None
}

/// Moves `amount` from `from` to `to` under `authority`, or changes nothing.
pub fn transfer(
    s: &mut Vec<TokenAccount>,
    from: &Key,
    to: &Key,
    amount: u64,
    authority: &Key,
) -> (r: Result<(), LedgerError>)
    requires
        accounts_unique(old(s)@),
    ensures
        accounts_unique(final(s)@),
        match transfer_result(old(s)@, from@, to@, amount, authority@) {
            Ok(next) => r is Ok && final(s)@ == next,
            Err(e) => r == Err::<(), LedgerError>(e) && final(s)@ == old(s)@,
        },
{
    let i = match find_account(s, from) {
        Some(i) => i,
        None => {
            return Err(LedgerError::UnknownAccount);
        },
    };
    let j = match find_account(s, to) {
        Some(j) => j,
        None => {
            return Err(LedgerError::UnknownAccount);
        },
    };
    if !s[i].owner.equals(authority) {
        return Err(LedgerError::OwnerMismatch);
    }
    if s[i].amount < amount {
        return Err(LedgerError::InsufficientFunds);
    }
    if i == j {
        return Ok(());
    }
    if s[j].amount > u64::MAX - amount {
        return Err(LedgerError::Overflow);
    }
    let src = s[i];
    s.set(i, TokenAccount { key: src.key, owner: src.owner, amount: src.amount - amount });
    let dst = s[j];
    s.set(j, TokenAccount { key: dst.key, owner: dst.owner, amount: dst.amount + amount });
    proof {
        assert(final(s)@ =~= old(s)@.update(
            i as int,
            with_amount(old(s)@[i as int], (old(s)@[i as int].amount - amount) as u64),
        ).update(j as int, with_amount(old(s)@[j as int], (old(s)@[j as int].amount + amount) as u64)));
    }
    Ok(())
}

/// Hands `account` from its owner `current` to `new_owner`, or changes nothing.
pub fn set_authority(
    s: &mut Vec<TokenAccount>,
    account: &Key,
    current: &Key,
    new_owner: &Key,
) -> (r: Result<(), LedgerError>)
    requires
        accounts_unique(old(s)@),
    ensures
        accounts_unique(final(s)@),
        match set_authority_result(old(s)@, account@, current@, new_owner@) {
            Ok(next) => r is Ok && final(s)@ == next,
            Err(e) => r == Err::<(), LedgerError>(e) && final(s)@ == old(s)@,
        },
{
    let i = match find_account(s, account) {
        Some(i) => i,
        None => {
            return Err(LedgerError::UnknownAccount);
        },
    };
    if !s[i].owner.equals(current) {
        return Err(LedgerError::OwnerMismatch);
    }
    let a = s[i];
    s.set(i, TokenAccount { key: a.key, owner: *new_owner, amount: a.amount });
    proof {
        lemma_key_from(*new_owner);
        assert(final(s)@ =~= old(s)@.update(i as int, with_owner(old(s)@[i as int], *new_owner)));
    }
    Ok(())
}

/// Applies one effect, or changes nothing.
pub fn apply_op(s: &mut Vec<TokenAccount>, op: &LedgerOp) -> (r: Result<(), LedgerError>)
    requires
        accounts_unique(old(s)@),
    ensures
        accounts_unique(final(s)@),
        match op_result(old(s)@, *op) {
            Ok(next) => r is Ok && final(s)@ == next,
            Err(e) => r == Err::<(), LedgerError>(e) && final(s)@ == old(s)@,
        },
{
    match op {
        LedgerOp::Transfer { from, to, amount, authority } => transfer(s, from, to, *amount, authority),
        LedgerOp::SetAuthority { account, current_authority, new_authority } => set_authority(
            s,
            account,
            current_authority,
            new_authority,
        ),
    }
}

/// Applies all effects as one unit: each works on a staged copy, which replaces
/// the accounts only when every effect succeeded.
pub fn apply_ops(s: &mut Vec<TokenAccount>, ops: &Vec<LedgerOp>) -> (r: Result<(), LedgerError>)
    requires
        accounts_unique(old(s)@),
    ensures
        accounts_unique(final(s)@),
        match ops_result(old(s)@, ops@) {
            Ok(next) => r is Ok && final(s)@ == next,
            Err(e) => r == Err::<(), LedgerError>(e) && final(s)@ == old(s)@,
        },
{
    let mut staged: Vec<TokenAccount> = s.clone();
    assert(staged@ =~= s@);
    assert(ops@.take(0) =~= Seq::<LedgerOp>::empty());
    let mut i: usize = 0;
    while i < ops.len()
        invariant
            0 <= i <= ops@.len(),
            accounts_unique(s@),
            s@ == old(s)@,
            accounts_unique(staged@),
            ops_result(s@, ops@.take(i as int)) == Ok::<Seq<TokenAccount>, LedgerError>(staged@),
        decreases ops@.len() - i,
    {
        let ghost before = staged@;
        let step = apply_op(&mut staged, &ops[i]);
        assert(ops@.take(i + 1).drop_last() =~= ops@.take(i as int));
        assert(ops@.take(i + 1).last() == ops@[i as int]);
        match step {
            Ok(()) => {},
            Err(e) => {
                proof {
                    lemma_ops_result_refused(s@, ops@, i + 1, e);
                }
                return Err(e);
            },
        }
        i = i + 1;
    }
    assert(ops@.take(ops@.len() as int) =~= ops@);
    *s = staged;
    Ok(())
}

} // verus!
