use anchor_lang::prelude::Pubkey;
use vstd::prelude::*;

use crate::key::Key;

verus! {

/// What Solana's program-address search yields for one seed and a program id:
/// the first off-curve address, counting the bump byte down from 255, with that
/// bump; `None` where no bump gives one.
pub uninterp spec fn program_address(seed: Seq<u8>, program_id: Seq<u8>) -> Option<(Seq<u8>, u8)>;

/// The seed from which the escrow custodian is derived: the ASCII bytes of "escrow".
pub open spec fn escrow_seed() -> Seq<u8> {
    seq![101u8, 115u8, 99u8, 114u8, 111u8, 119u8]
}

pub fn escrow_seed_bytes() -> (r: Vec<u8>)
    ensures
        r@ == escrow_seed(),
{
    let r: Vec<u8> = vec![101u8, 115u8, 99u8, 114u8, 111u8, 119u8];
    assert(r@ =~= escrow_seed());
    r
}

/// Relies on `Pubkey::try_find_program_address` (solana-program, through anchor_lang's
/// prelude): a deterministic search over the seeds and the program id alone, which
/// returns `None` rather than panic when no bump fits or a seed is too long.
#[verifier::external_body]
fn try_find_program_address(seed: &Vec<u8>, program_id: &Key) -> (r: Option<(Key, u8)>)
    ensures
        match r {
            Some((k, bump)) => program_address(seed@, program_id@) == Some((k@, bump)),
            None => program_address(seed@, program_id@) is None,
        },
{
    let program = Pubkey::new_from_array(program_id.bytes);
    match Pubkey::try_find_program_address(&[seed.as_slice()], &program) {
        Some((address, bump)) => Some((Key { bytes: address.to_bytes() }, bump)),
        None => None,
    }
}

/// The custodian identity of a program and its bump byte, re-derived from the
/// escrow seed on every call.
pub fn custodian_address(program_id: &Key) -> (r: Option<(Key, u8)>)
    ensures
        match r {
            Some((k, bump)) => program_address(escrow_seed(), program_id@) == Some((k@, bump)),
            None => program_address(escrow_seed(), program_id@) is None,
        },
{
    let seed = escrow_seed_bytes();
    try_find_program_address(&seed, program_id)
}

} // verus!
