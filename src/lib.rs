//! A two-party token escrow: the initializer locks token A under a program-derived
//! custodian, and a taker releases it by paying token B, in one atomic exchange.

pub mod address;
pub mod escrow;
pub mod guarantees;
pub mod key;
pub mod ledger;
pub mod record;

pub use address::{custodian_address, escrow_seed_bytes};
pub use escrow::{exchange, initialize, map_ledger_error, EscrowError, Exchange, Initialize};
pub use guarantees::{
    exchange_all_or_nothing, exchange_not_replayable, exchange_refuses_short_taker,
    exchange_refuses_unpinned, exchange_settles, initialize_opens_escrow,
    initialize_refuses_overdraft,
};
pub use key::Key;
pub use ledger::{
    apply_op, apply_ops, find_account, find_record, set_authority, transfer, Ledger, LedgerError,
    LedgerOp, LedgerState, RecordEntry, TokenAccount,
};
pub use record::EscrowAccount;
