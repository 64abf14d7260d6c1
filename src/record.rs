use vstd::prelude::*;

use crate::key::Key;

verus! {

/// The persisted terms of one open escrow. Written once when the escrow opens,
/// never changed, and removed by the exchange that settles it.
#[derive(Clone, Copy, Debug)]
pub struct EscrowAccount {
    /// The depositing party, who receives token B and the record's storage back.
    pub initializer_key: Key,
    /// The token A account whose authority the custodian holds while the escrow is open.
    pub initializer_deposit_token_account: Key,
    /// Where the initializer receives token B.
    pub initializer_receive_token_account: Key,
    /// How much token A is escrowed.
    pub initialize_amount: u64,
    /// How much token B the taker must pay.
    pub taker_amount: u64,
}

impl EscrowAccount {
    /// Size of the stored fields: three identities and two 64-bit amounts.
    pub const LEN: usize = 112;
}

} // verus!
