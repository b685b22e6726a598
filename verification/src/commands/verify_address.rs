use crate::apdu::Instruction;
use crate::commands::get_pubkey::{pubkey_outcome, request};
use crate::error::LedgerError;
use crate::transport::Transport;
use crate::types::{Address, Bip32Path, PublicKey};
use vstd::prelude::*;

verus! {

/// Same request and response as for a key, but the device shows the
/// address and waits for the user to confirm it.
pub fn exec(transport: &dyn Transport, path: &Bip32Path) -> (r: Result<
    (PublicKey, Address),
    LedgerError,
>)
    ensures
        pubkey_outcome(path@, r),
{
    request(transport, Instruction::VerifyAddress, path)
}

} // verus!
