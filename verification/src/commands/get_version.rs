use crate::apdu::Instruction;
use crate::error::{ErrorView, LedgerError};
use crate::protocol::{execute, params_view, protocol_error, run_error, yields};
use crate::text::{string_from_utf8_lossy, utf8_lossy};
use crate::transport::Transport;
use crate::types::AppVersion;
use vstd::prelude::*;
use vstd::string::*;

verus! {

/// What a version response holds: three version bytes, then the name.
pub open spec fn version_in(data: Seq<u8>, v: AppVersion) -> bool {
    &&& data.len() >= 4
    &&& v.major == data[0]
    &&& v.minor == data[1]
    &&& v.patch == data[2]
    &&& v.name@ == utf8_lossy(data.subrange(3, data.len() as int))
}

/// The message for a version response of fewer than four bytes.
pub open spec fn version_fault() -> Seq<char> {
    "version response too short - is the IOTA app running?"@
}

/// What a version query can come back with: the version read from a result
/// of the protocol run without parameters; the error for a result that is
/// too short; or an error of the run.
pub open spec fn version_outcome(r: Result<AppVersion, LedgerError>) -> bool {
    match r {
        Ok(v) => exists|data: Seq<u8>| #[trigger] yields(Seq::empty(), data) && version_in(data, v),
        Err(e) => {
            &&& protocol_error(e@) || e@ is InvalidResponse
            &&& run_error(Seq::empty(), e@) || (e@ == ErrorView::InvalidResponse(version_fault())
                && exists|data: Seq<u8>| #[trigger] yields(Seq::empty(), data) && data.len() < 4)
        },
    }
}

/// Asks the application for its version and name.
pub fn exec(transport: &dyn Transport) -> (r: Result<AppVersion, LedgerError>)
    ensures
        version_outcome(r),
{
    let params: Vec<Vec<u8>> = Vec::new();
    assert(params_view(params@) =~= Seq::<Seq<u8>>::empty());
    match execute(transport, Instruction::GetVersion, params.as_slice()) {
        Ok(result) => {
            let r = parse_version_response(result.as_slice());
            assert(yields(Seq::empty(), result@));
            r
        },
        Err(e) => Err(e),
    }
}

/// Reads `[major][minor][patch][name...]`. The name is decoded leniently.
/// Fails exactly when there are fewer than four bytes.
pub fn parse_version_response(data: &[u8]) -> (r: Result<AppVersion, LedgerError>)
    ensures
        match r {
            Ok(v) => version_in(data@, v),
            Err(e) => data@.len() < 4 && e@ == ErrorView::InvalidResponse(version_fault()),
        },
{
    if data.len() < 4 {
        return Err(
            LedgerError::InvalidResponse(
                "version response too short - is the IOTA app running?".to_string(),
            ),
        );
    }
    let name = string_from_utf8_lossy(vstd::slice::slice_subrange(data, 3, data.len()));
    Ok(AppVersion { major: data[0], minor: data[1], patch: data[2], name })
}

} // verus!
