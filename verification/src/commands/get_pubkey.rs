use crate::apdu::Instruction;
use crate::error::{ErrorView, LedgerError};
use crate::protocol::{execute, params_view, protocol_error, run_error, yields};
use crate::text::{decimal, push_decimal};
use crate::transport::Transport;
use crate::types::{path_wire, Address, Bip32Path, PublicKey};
use crate::wire::array_32;
use vstd::prelude::*;
use vstd::string::*;

verus! {

/// The parameters of a request for a key: the serialized path.
pub fn params(path: &Bip32Path) -> (p: Vec<Vec<u8>>)
    ensures
        p@.len() == 1,
        p@[0]@ == path_wire(path@),
{
    let mut p: Vec<Vec<u8>> = Vec::new();
    p.push(path.serialize());
    p
}

/// What a key request can come back with: the key and the address read
/// from a result of the protocol run for the serialized path; the error
/// for a result that is not well formed; or an error of the run.
pub open spec fn pubkey_outcome(path: Seq<u32>, r: Result<(PublicKey, Address), LedgerError>) -> bool {
    let request = seq![path_wire(path)];
    match r {
        Ok((pubkey, address)) => exists|data: Seq<u8>| #[trigger]
            yields(request, data) && pubkey_response_ok(data) && pubkey.0@ == data.subrange(1, 33)
                && address.0@ == data.subrange(34, 66),
        Err(e) => {
            &&& protocol_error(e@) || e@ is InvalidResponse
            &&& run_error(request, e@) || exists|data: Seq<u8>| #[trigger]
                yields(request, data) && !pubkey_response_ok(data) && e@
                    == ErrorView::InvalidResponse(pubkey_fault(data))
        },
    }
}

/// Runs the protocol for the serialized path under `ins` and reads the
/// key and the address from the result.
pub fn request(transport: &dyn Transport, ins: Instruction, path: &Bip32Path) -> (r: Result<
    (PublicKey, Address),
    LedgerError,
>)
    ensures
        pubkey_outcome(path@, r),
{
    let p = params(path);
    assert(params_view(p@) =~= seq![path_wire(path@)]);
    match execute(transport, ins, p.as_slice()) {
        Ok(result) => {
            let r = parse_pubkey_response(result.as_slice());
            assert(yields(seq![path_wire(path@)], result@));
            r
        },
        Err(e) => Err(e),
    }
}

/// Asks for the public key and the address of `path`.
pub fn exec(transport: &dyn Transport, path: &Bip32Path) -> (r: Result<
    (PublicKey, Address),
    LedgerError,
>)
    ensures
        pubkey_outcome(path@, r),
{
    request(transport, Instruction::GetPubkey, path)
}

/// A key response is well formed when both length bytes say 32 and both
/// fields are whole.
pub open spec fn pubkey_response_ok(data: Seq<u8>) -> bool {
    data.len() >= 66 && data[0] == 32 && data[33] == 32
}

/// Why a key response is not well formed: the first of the checks that
/// fails.
pub open spec fn pubkey_fault(data: Seq<u8>) -> Seq<char> {
    if data.len() == 0 {
        "empty pubkey response"@
    } else if data[0] != 32 || data.len() < 34 {
        "unexpected pubkey length: "@ + decimal(data[0] as nat)
    } else {
        "unexpected address length: "@ + decimal(data[33] as nat)
    }
}

/// Reads `[pubkey_len][pubkey (32)][address_len][address (32)]`. Fails
/// exactly when a length byte is not 32 or a field is cut short.
pub fn parse_pubkey_response(data: &[u8]) -> (r: Result<(PublicKey, Address), LedgerError>)
    ensures
        match r {
            Ok((pubkey, address)) => {
                &&& pubkey_response_ok(data@)
                &&& pubkey.0@ == data@.subrange(1, 33)
                &&& address.0@ == data@.subrange(34, 66)
            },
            Err(e) => !pubkey_response_ok(data@) && e@ == ErrorView::InvalidResponse(
                pubkey_fault(data@),
            ),
        },
{
    if data.len() == 0 {
        return Err(LedgerError::InvalidResponse("empty pubkey response".to_string()));
    }
    let pk_len = data[0];
    if pk_len != 32 || data.len() < 34 {
        let mut msg = "unexpected pubkey length: ".to_string();
        push_decimal(&mut msg, pk_len as u64);
        return Err(LedgerError::InvalidResponse(msg));
    }
    let pubkey = array_32(data, 1);
    let addr_len = data[33];
    if addr_len != 32 || data.len() < 66 {
        let mut msg = "unexpected address length: ".to_string();
        push_decimal(&mut msg, addr_len as u64);
        return Err(LedgerError::InvalidResponse(msg));
    }
    let address = array_32(data, 34);
    Ok((PublicKey(pubkey), Address(address)))
}

} // verus!
