use crate::apdu::Instruction;
use crate::error::{ErrorView, LedgerError};
use crate::protocol::{execute, params_view, protocol_error, run_error, yields};
use crate::text::{decimal, push_decimal};
use crate::transport::Transport;
use crate::types::{path_wire, Bip32Path, Signature};
use crate::wire::{array_64, le_bytes, low_u32, push_u32_le};
use vstd::prelude::*;
use vstd::string::*;

verus! {

/// The parameters of a signing request: the transaction behind its length
/// in four little-endian bytes, the serialized path, and the encoded
/// objects where there are any.
pub open spec fn sign_params(tx: Seq<u8>, path: Seq<u32>, objects: Option<Seq<u8>>) -> Seq<
    Seq<u8>,
> {
    let first = seq![le_bytes(tx.len(), 4) + tx, path_wire(path)];
    match objects {
        Some(encoded) => first.push(encoded),
        None => first,
    }
}

/// The encoded objects of a request as a mathematical value.
pub open spec fn objects_view(objects: Option<&[u8]>) -> Option<Seq<u8>> {
    match objects {
        Some(o) => Some(o@),
        None => None,
    }
}

/// The message for a result of fewer than 64 bytes.
pub open spec fn signature_fault(len: nat) -> Seq<char> {
    "expected 64-byte signature, got "@ + decimal(len) + " bytes"@
}

/// What a signing request can come back with: the first 64 bytes of a
/// result of the protocol run for the request's parameters; the error for
/// a shorter result; or an error of the run.
pub open spec fn sign_outcome(request: Seq<Seq<u8>>, r: Result<Signature, LedgerError>) -> bool {
    match r {
        Ok(sig) => exists|data: Seq<u8>| #[trigger]
            yields(request, data) && data.len() >= 64 && sig.0@ == data.subrange(0, 64),
        Err(e) => {
            &&& protocol_error(e@) || e@ is InvalidResponse
            &&& run_error(request, e@) || exists|data: Seq<u8>| #[trigger]
                yields(request, data) && data.len() < 64 && e@ == ErrorView::InvalidResponse(
                    signature_fault(data.len()),
                )
        },
    }
}

/// Builds the parameters of a signing request.
pub fn params(tx: &[u8], path: &Bip32Path, objects: Option<&[u8]>) -> (p: Vec<Vec<u8>>)
    ensures
        params_view(p@) == sign_params(tx@, path@, objects_view(objects)),
{
    let mut param1: Vec<u8> = Vec::new();
    push_u32_le(&mut param1, low_u32(tx.len()));
    param1.extend_from_slice(tx);
    assert(param1@ =~= le_bytes(tx@.len(), 4) + tx@);
    let param2 = path.serialize();
    let mut p: Vec<Vec<u8>> = Vec::new();
    p.push(param1);
    p.push(param2);
    match objects {
        Some(encoded) => {
            p.push(vstd::slice::slice_to_vec(encoded));
        },
        None => {},
    }
    assert(params_view(p@) =~= sign_params(tx@, path@, objects_view(objects)));
    p
}

/// Asks for the signature of `tx` under the key of `path`. With `objects`
/// the device can show what is being signed.
pub fn exec(
    transport: &dyn Transport,
    tx: &[u8],
    path: &Bip32Path,
    objects: Option<&[u8]>,
) -> (r: Result<Signature, LedgerError>)
    ensures
        sign_outcome(sign_params(tx@, path@, objects_view(objects)), r),
{
    let p = params(tx, path, objects);
    match execute(transport, Instruction::SignTx, p.as_slice()) {
        Ok(result) => {
            let r = parse_signature(result.as_slice());
            assert(yields(sign_params(tx@, path@, objects_view(objects)), result@));
            r
        },
        Err(e) => Err(e),
    }
}

/// Reads the signature: the first 64 bytes. Fails exactly when there are
/// fewer.
pub fn parse_signature(data: &[u8]) -> (r: Result<Signature, LedgerError>)
    ensures
        match r {
            Ok(sig) => data@.len() >= 64 && sig.0@ == data@.subrange(0, 64),
            Err(e) => data@.len() < 64 && e@ == ErrorView::InvalidResponse(
                signature_fault(data@.len()),
            ),
        },
{
    if data.len() < 64 {
        let mut msg = "expected 64-byte signature, got ".to_string();
        push_decimal(&mut msg, data.len() as u64);
        msg.append(" bytes");
        return Err(LedgerError::InvalidResponse(msg));
    }
    Ok(Signature(array_64(data, 0)))
}

} // verus!
