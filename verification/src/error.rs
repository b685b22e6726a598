//! Error kinds and the mapping from device status words to them.

use vstd::prelude::*;

verus! {

/// An I/O error of the standard library, carried through unchanged.
#[verifier::external_type_specification]
#[verifier::external_body]
pub struct ExIoError(std::io::Error);

/// Status words the device is known to return.
#[derive(Debug, Clone, Copy, PartialEq, Eq, Structural)]
pub enum StatusWord {
    Success,
    DeviceLocked,
    BlindSigningDisabled,
    NothingReceived,
    UserRejected,
    GeneralError,
    WrongApp,
    AppNotOpen,
}

impl StatusWord {
    /// The numeric status word on the wire.
    pub open spec fn spec_code(self) -> u16 {
        match self {
            StatusWord::Success => 0x9000,
            StatusWord::DeviceLocked => 0x5515,
            StatusWord::BlindSigningDisabled => 0x6808,
            StatusWord::NothingReceived => 0x6982,
            StatusWord::UserRejected => 0x6985,
            StatusWord::GeneralError => 0x6D00,
            StatusWord::WrongApp => 0x6E00,
            StatusWord::AppNotOpen => 0x6E01,
        }
    }

    #[verifier::when_used_as_spec(spec_code)]
    pub fn code(self) -> (c: u16)
        ensures
            c == self.spec_code(),
    {
        match self {
            StatusWord::Success => 0x9000,
            StatusWord::DeviceLocked => 0x5515,
            StatusWord::BlindSigningDisabled => 0x6808,
            StatusWord::NothingReceived => 0x6982,
            StatusWord::UserRejected => 0x6985,
            StatusWord::GeneralError => 0x6D00,
            StatusWord::WrongApp => 0x6E00,
            StatusWord::AppNotOpen => 0x6E01,
        }
    }

    /// True exactly for the success status word `0x9000`.
    pub fn is_success(code: u16) -> (ok: bool)
        ensures
            ok == (code == 0x9000),
    {
        code == StatusWord::Success.code()
    }
}

/// Transport-level errors.
#[derive(Debug)]
pub enum TransportError {
    DeviceNotFound,
    Comm(String),
    ConnectionFailed(String),
    Timeout(u32),
    Io(std::io::Error),
}

/// Errors returned by the library.
#[derive(Debug)]
pub enum LedgerError {
    Transport(TransportError),
    DeviceStatus(u16, &'static str),
    DeviceLocked,
    AppNotOpen,
    WrongApp(String),
    BlindSigningDisabled,
    UserRejected,
    InvalidResponse(String),
    InvalidPath(String),
    BlockProtocol(String),
}

/// What a `LedgerError` says, with its texts as character sequences.
pub enum ErrorView {
    Transport(TransportError),
    DeviceStatus(u16, Seq<char>),
    DeviceLocked,
    AppNotOpen,
    WrongApp(Seq<char>),
    BlindSigningDisabled,
    UserRejected,
    InvalidResponse(Seq<char>),
    InvalidPath(Seq<char>),
    BlockProtocol(Seq<char>),
}

impl View for LedgerError {
    type V = ErrorView;

    open spec fn view(&self) -> ErrorView {
        match *self {
            LedgerError::Transport(e) => ErrorView::Transport(e),
            LedgerError::DeviceStatus(code, tag) => ErrorView::DeviceStatus(code, tag@),
            LedgerError::DeviceLocked => ErrorView::DeviceLocked,
            LedgerError::AppNotOpen => ErrorView::AppNotOpen,
            LedgerError::WrongApp(name) => ErrorView::WrongApp(name@),
            LedgerError::BlindSigningDisabled => ErrorView::BlindSigningDisabled,
            LedgerError::UserRejected => ErrorView::UserRejected,
            LedgerError::InvalidResponse(msg) => ErrorView::InvalidResponse(msg@),
            LedgerError::InvalidPath(msg) => ErrorView::InvalidPath(msg@),
            LedgerError::BlockProtocol(msg) => ErrorView::BlockProtocol(msg@),
        }
    }
}

/// The error that a non-success status word stands for.
///
/// `0x6985` and `0x6D00` both mean a rejection by the user: the device does
/// not tell them apart reliably.
pub open spec fn status_error(code: u16) -> ErrorView {
    if code == 0x5515 {
        ErrorView::DeviceLocked
    } else if code == 0x6808 {
        ErrorView::BlindSigningDisabled
    } else if code == 0x6982 {
        ErrorView::DeviceStatus(code, "nothing received"@)
    } else if code == 0x6985 || code == 0x6D00 {
        ErrorView::UserRejected
    } else if code == 0x6E00 {
        ErrorView::WrongApp("unknown"@)
    } else if code == 0x6E01 {
        ErrorView::AppNotOpen
    } else {
        ErrorView::DeviceStatus(code, "unknown"@)
    }
}

impl LedgerError {
    /// Maps a status word to its error. Defined for every `u16`.
    pub fn from_status(code: u16) -> (e: LedgerError)
        ensures
            e@ == status_error(code),
    {
        if code == StatusWord::DeviceLocked.code() {
            LedgerError::DeviceLocked
        } else if code == StatusWord::BlindSigningDisabled.code() {
            LedgerError::BlindSigningDisabled
        } else if code == StatusWord::NothingReceived.code() {
            LedgerError::DeviceStatus(code, "nothing received")
        } else if code == StatusWord::UserRejected.code() || code == StatusWord::GeneralError.code() {
            LedgerError::UserRejected
        } else if code == StatusWord::WrongApp.code() {
            LedgerError::WrongApp("unknown".to_string())
        } else if code == StatusWord::AppNotOpen.code() {
            LedgerError::AppNotOpen
        } else {
            LedgerError::DeviceStatus(code, "unknown")
        }
    }
}

} // verus!
