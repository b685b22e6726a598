use crate::apdu::Instruction;
use crate::error::LedgerError;
use crate::protocol::execute;
use crate::transport::Transport;
use vstd::prelude::*;

verus! {

/// Tells the application to quit. The application exits before it can
/// answer properly, so whatever the exchange yields is ignored.
pub fn exec(transport: &dyn Transport) -> (r: Result<(), LedgerError>)
    ensures
        r is Ok,
{
    let params: Vec<Vec<u8>> = Vec::new();
    let _ = execute(transport, Instruction::Quit, params.as_slice());
    Ok(())
}

} // verus!
