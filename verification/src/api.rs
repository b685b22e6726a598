//! The operations a caller sees: `LedgerIota` wraps a transport and offers
//! version query, key derivation, address verification and signing.

use crate::commands;
use crate::commands::get_pubkey::pubkey_outcome;
use crate::commands::get_version::version_outcome;
use crate::commands::sign_tx::{sign_outcome, sign_params};
use crate::error::{ErrorView, LedgerError};
use crate::objects::{encode_objects, objects_wire, ObjectData};
use crate::text::{contains_text, lowercase, str_contains, to_ascii_lowercase};
use crate::transport::Transport;
use crate::types::{version_text, Address, AppVersion, Bip32Path, PublicKey, Signature};
use vstd::prelude::*;
use vstd::string::*;

verus! {

/// Current state of the device from the wallet's point of view.
#[derive(Debug, Clone, PartialEq, Eq)]
pub enum DeviceStatus {
    /// The IOTA application is open and ready.
    Connected,
    /// The device is locked: the user has to enter the PIN.
    Locked,
    /// The device shows its dashboard: no application is open.
    AppClosed,
    /// Another application is open on the device.
    WrongApp(String),
    /// No device was found.
    Disconnected,
}

/// A device status as a mathematical value.
pub enum StatusView {
    Connected,
    Locked,
    AppClosed,
    WrongApp(Seq<char>),
    Disconnected,
}

impl View for DeviceStatus {
    type V = StatusView;

    open spec fn view(&self) -> StatusView {
        match *self {
            DeviceStatus::Connected => StatusView::Connected,
            DeviceStatus::Locked => StatusView::Locked,
            DeviceStatus::AppClosed => StatusView::AppClosed,
            DeviceStatus::WrongApp(name) => StatusView::WrongApp(name@),
            DeviceStatus::Disconnected => StatusView::Disconnected,
        }
    }
}

/// A name is that of the IOTA application when it holds `iota`, in
/// capital or small letters.
pub open spec fn names_iota(name: Seq<char>) -> bool {
    contains_text(lowercase(name), "iota"@)
}

/// Whether `name` is that of the IOTA application.
pub fn is_iota_app(name: &str) -> (yes: bool)
    ensures
        yes == names_iota(name@),
{
    let lower = to_ascii_lowercase(name);
    str_contains(lower.as_str(), "iota")
}

/// A version meets the floor when it is at least 0.9.0, the three numbers
/// compared in order.
pub open spec fn meets_floor(major: u8, minor: u8, patch: u8) -> bool {
    major > 0 || (major == 0 && (minor > 9 || (minor == 9 && patch >= 0)))
}

/// Whether the version is recent enough for this library.
pub fn version_ok(v: &AppVersion) -> (ok: bool)
    ensures
        ok == meets_floor(v.major, v.minor, v.patch),
{
    v.major > 0 || v.minor >= 9
}

/// The message for a version below the floor.
pub open spec fn too_old_text(v: AppVersion) -> Seq<char> {
    "app "@ + version_text(v.name@, v.major, v.minor, v.patch)
        + " is too old - update to at least 0.9.0"@
}

/// What is wrong with the application that answered, if anything: it is
/// not the IOTA application, or its version is below the floor. The name
/// is looked at first.
pub open spec fn app_fault(v: AppVersion) -> Option<ErrorView> {
    if !names_iota(v.name@) {
        Some(ErrorView::WrongApp(v.name@))
    } else if !meets_floor(v.major, v.minor, v.patch) {
        Some(ErrorView::InvalidResponse(too_old_text(v)))
    } else {
        None
    }
}

/// Decides whether to go on with the application that answered: it must
/// be the IOTA application, at a version that meets the floor.
pub fn check_app(version: &AppVersion) -> (r: Result<(), LedgerError>)
    ensures
        match r {
            Ok(_) => app_fault(*version).is_none(),
            Err(e) => app_fault(*version) == Some(e@),
        },
{
    if !is_iota_app(version.name.as_str()) {
        return Err(LedgerError::WrongApp(version.name.clone()));
    }
    if !version_ok(version) {
        let mut msg = "app ".to_string();
        msg.append(version.to_string().as_str());
        msg.append(" is too old - update to at least 0.9.0");
        return Err(LedgerError::InvalidResponse(msg));
    }
    Ok(())
}

/// Decides whether the application that answered after a reconnect is the
/// IOTA application. Another application is refused by its name.
pub fn check_identity(version: AppVersion) -> (r: Result<(), LedgerError>)
    ensures
        match r {
            Ok(_) => names_iota(version.name@),
            Err(e) => !names_iota(version.name@) && e@ == ErrorView::WrongApp(version.name@),
        },
{
    if !is_iota_app(version.name.as_str()) {
        return Err(LedgerError::WrongApp(version.name));
    }
    Ok(())
}

/// What a probe of the device settles by itself: the application answered
/// (connected, or another application by its name), or the device said
/// that it is locked, that no application is open, or that another one is.
pub open spec fn settled_status(probe: Result<AppVersion, LedgerError>) -> Option<StatusView> {
    match probe {
        Ok(v) => if names_iota(v.name@) {
            Some(StatusView::Connected)
        } else {
            Some(StatusView::WrongApp(v.name@))
        },
        Err(LedgerError::DeviceLocked) => Some(StatusView::Locked),
        Err(LedgerError::AppNotOpen) => Some(StatusView::AppClosed),
        Err(LedgerError::WrongApp(name)) => Some(StatusView::WrongApp(name@)),
        Err(_) => None,
    }
}

/// The verdict on a first probe: what it settles; nothing yet where the
/// transport failed; disconnected on any other error.
pub open spec fn first_verdict(probe: Result<AppVersion, LedgerError>) -> Option<StatusView> {
    match settled_status(probe) {
        Some(s) => Some(s),
        None => if probe matches Err(LedgerError::Transport(_)) {
            None
        } else {
            Some(StatusView::Disconnected)
        },
    }
}

/// The verdict on the probe after a reconnect: what it settles; locked on
/// any other error.
pub open spec fn second_verdict(probe: Result<AppVersion, LedgerError>) -> StatusView {
    match settled_status(probe) {
        Some(s) => s,
        None => StatusView::Locked,
    }
}

fn settle(probe: Result<AppVersion, LedgerError>) -> (r: Result<DeviceStatus, LedgerError>)
    ensures
        match r {
            Ok(s) => settled_status(probe) == Some(s@),
            Err(e) => settled_status(probe).is_none() && probe == Err::<AppVersion, LedgerError>(e),
        },
{
    match probe {
        Ok(v) => if is_iota_app(v.name.as_str()) {
            Ok(DeviceStatus::Connected)
        } else {
            Ok(DeviceStatus::WrongApp(v.name))
        },
        Err(LedgerError::DeviceLocked) => Ok(DeviceStatus::Locked),
        Err(LedgerError::AppNotOpen) => Ok(DeviceStatus::AppClosed),
        Err(LedgerError::WrongApp(name)) => Ok(DeviceStatus::WrongApp(name)),
        Err(e) => Err(e),
    }
}

/// Classifies the first probe of the device. `None` means that the
/// transport failed, so that the caller has to look whether the device is
/// there at all.
pub fn classify_first(probe: Result<AppVersion, LedgerError>) -> (r: Option<DeviceStatus>)
    ensures
        match r {
            Some(s) => first_verdict(probe) == Some(s@),
            None => first_verdict(probe).is_none(),
        },
{
    match settle(probe) {
        Ok(s) => Some(s),
        Err(LedgerError::Transport(_)) => None,
        Err(_) => Some(DeviceStatus::Disconnected),
    }
}

/// Classifies the probe made after a successful reconnect.
pub fn classify_second(probe: Result<AppVersion, LedgerError>) -> (s: DeviceStatus)
    ensures
        s@ == second_verdict(probe),
{
    match settle(probe) {
        Ok(s) => s,
        Err(_) => DeviceStatus::Locked,
    }
}

/// What was found out after the first probe failed in the transport.
#[derive(Debug)]
pub enum Recovery {
    /// The physical layer does not see the device.
    Absent,
    /// The device is there, but the transport could not be opened afresh.
    ReconnectFailed,
    /// The transport was opened afresh and the device probed once more.
    Probed(Result<AppVersion, LedgerError>),
}

/// The verdict after a failure of the transport: an absent device is
/// disconnected; a device that is there but cannot be reached is locked;
/// after a reconnect the second probe decides.
pub open spec fn recovery_verdict(r: Recovery) -> StatusView {
    match r {
        Recovery::Absent => StatusView::Disconnected,
        Recovery::ReconnectFailed => StatusView::Locked,
        Recovery::Probed(probe) => second_verdict(probe),
    }
}

/// Classifies the device after the first probe failed in the transport.
pub fn classify_recovery(r: Recovery) -> (s: DeviceStatus)
    ensures
        s@ == recovery_verdict(r),
{
    match r {
        Recovery::Absent => DeviceStatus::Disconnected,
        Recovery::ReconnectFailed => DeviceStatus::Locked,
        Recovery::Probed(probe) => classify_second(probe),
    }
}

/// A probe shows the IOTA application open when the application answered
/// and its name is that of the IOTA application. Any error, and any other
/// name, means that it is not open.
pub open spec fn shows_app(probe: Result<AppVersion, LedgerError>) -> bool {
    probe matches Ok(v) && names_iota(v.name@)
}

/// Whether a probe of the device shows the IOTA application open.
pub fn probe_shows_app(probe: &Result<AppVersion, LedgerError>) -> (open: bool)
    ensures
        open == shows_app(*probe),
{
    match probe {
        Ok(v) => is_iota_app(v.name.as_str()),
        Err(_) => false,
    }
}

/// The bytes signed for a personal message: the intent prefix `[3, 0, 0]`,
/// then the message.
pub fn message_intent(message: &[u8]) -> (intent: Vec<u8>)
    ensures
        intent@ == seq![3u8, 0u8, 0u8] + message@,
{
    let mut intent: Vec<u8> = Vec::new();
    intent.push(3);
    intent.push(0);
    intent.push(0);
    intent.extend_from_slice(message);
    assert(intent@ =~= seq![3u8, 0u8, 0u8] + message@);
    intent
}

/// Some version query answers with the version `v`.
pub open spec fn answers(v: AppVersion) -> bool {
    version_outcome(Ok::<AppVersion, LedgerError>(v))
}

/// What connecting can come back with: success, where the application
/// that answered has no fault; its fault; or the error of the version
/// query.
pub open spec fn connect_outcome(r: Result<(), LedgerError>) -> bool {
    match r {
        Ok(_) => exists|v: AppVersion| #[trigger] answers(v) && app_fault(v).is_none(),
        Err(e) => version_outcome(Err::<AppVersion, LedgerError>(e)) || exists|v: AppVersion| #[trigger]
            answers(v) && app_fault(v) == Some(e@),
    }
}

/// What a probe of the device can come back with.
pub open spec fn probe_outcome(probe: Result<AppVersion, LedgerError>) -> bool {
    version_outcome(probe)
}

/// What can be found out after a failure of the transport. A reconnect is
/// tried only where the device is present, and a second probe is made only
/// after a reconnect.
pub open spec fn recovery_outcome(device_present: bool, r: Recovery) -> bool {
    match r {
        Recovery::Absent => !device_present,
        Recovery::ReconnectFailed => device_present,
        Recovery::Probed(probe) => device_present && probe_outcome(probe),
    }
}

/// The states a status check can report. The first probe settles it,
/// unless the transport failed; then the verdict is that on what the
/// recovery found.
pub open spec fn status_outcome(device_present: bool, s: StatusView) -> bool {
    exists|first: Result<AppVersion, LedgerError>| #[trigger]
        probe_outcome(first) && match first_verdict(first) {
            Some(v) => s == v,
            None => exists|r: Recovery| #[trigger]
                recovery_outcome(device_present, r) && s == recovery_verdict(r),
        }
}

/// High-level interface to the IOTA application over a transport.
pub struct LedgerIota {
    transport: Box<dyn Transport>,
}

impl LedgerIota {
    /// Takes an open transport and makes sure that the IOTA application
    /// answers on it, at a version this library works with. On any failure
    /// the transport is dropped.
    pub fn new(transport: Box<dyn Transport>) -> (r: Result<Self, LedgerError>)
        ensures
            match r {
                Ok(_) => connect_outcome(Ok::<(), LedgerError>(())),
                Err(e) => connect_outcome(Err::<(), LedgerError>(e)),
            },
    {
        let ledger = LedgerIota { transport };
        let version = match ledger.get_version() {
            Ok(v) => v,
            Err(e) => {
                return Err(e);
            },
        };
        assert(answers(version));
        match check_app(&version) {
            Ok(_) => Ok(ledger),
            Err(e) => Err(e),
        }
    }

    /// Wraps a transport without asking the device anything.
    pub fn with_transport(transport: Box<dyn Transport>) -> Self {
        LedgerIota { transport }
    }

    /// Queries the version and the name of the application.
    pub fn get_version(&self) -> (r: Result<AppVersion, LedgerError>)
        ensures
            version_outcome(r),
    {
        commands::get_version::exec(&*self.transport)
    }

    /// Derives the public key and the address of `path`.
    pub fn get_pubkey(&self, path: &Bip32Path) -> (r: Result<(PublicKey, Address), LedgerError>)
        ensures
            pubkey_outcome(path@, r),
    {
        commands::get_pubkey::exec(&*self.transport, path)
    }

    /// Shows the address on the device and waits for the user to confirm.
    pub fn verify_address(&self, path: &Bip32Path) -> (r: Result<
        (PublicKey, Address),
        LedgerError,
    >)
        ensures
            pubkey_outcome(path@, r),
    {
        commands::verify_address::exec(&*self.transport, path)
    }

    /// Signs a personal message. The device signs the message behind the
    /// intent prefix `[3, 0, 0]`.
    pub fn sign_message(&self, message: &[u8], path: &Bip32Path) -> (r: Result<
        Signature,
        LedgerError,
    >)
        ensures
            sign_outcome(sign_params(seq![3u8, 0u8, 0u8] + message@, path@, None), r),
    {
        let intent = message_intent(message);
        self.sign_tx(intent.as_slice(), path, None)
    }

    /// Signs a transaction. With `objects` the device can show the details
    /// of non-standard tokens.
    pub fn sign_tx(&self, tx: &[u8], path: &Bip32Path, objects: Option<&[ObjectData]>) -> (r:
        Result<Signature, LedgerError>)
        ensures
            sign_outcome(
                sign_params(
                    tx@,
                    path@,
                    match objects {
                        Some(list) => Some(objects_wire(list@)),
                        None => None,
                    },
                ),
                r,
            ),
    {
        match objects {
            Some(list) => {
                let encoded = encode_objects(list);
                commands::sign_tx::exec(&*self.transport, tx, path, Some(encoded.as_slice()))
            },
            None => commands::sign_tx::exec(&*self.transport, tx, path, None),
        }
    }

    /// Tells the application to quit. Always succeeds.
    pub fn quit(&self) -> (r: Result<(), LedgerError>)
        ensures
            r is Ok,
    {
        commands::quit::exec(&*self.transport)
    }

    /// Whether the IOTA application answers on the device: the device is
    /// probed once, and the answer is what `shows_app` says of the probe.
    pub fn is_app_open(&self) -> (open: bool)
        ensures
            exists|probe: Result<AppVersion, LedgerError>| #[trigger]
                probe_outcome(probe) && open == shows_app(probe),
    {
        let probe = self.get_version();
        assert(probe_outcome(probe));
        probe_shows_app(&probe)
    }

    /// Probes the device and classifies its state. `device_present` says
    /// whether the physical layer sees the device; it matters only where
    /// the transport fails. Then, with the device present, one reconnect is
    /// tried and the device probed once more; a failed reconnect means
    /// locked. With the device absent the state is disconnected.
    pub fn check_status(&self, device_present: bool) -> (status: DeviceStatus)
        ensures
            status_outcome(device_present, status@),
    {
        let first = self.get_version();
        assert(probe_outcome(first));
        match classify_first(first) {
            Some(status) => status,
            None => {
                let recovery = if !device_present {
                    Recovery::Absent
                } else {
                    match self.transport.reconnect() {
                        Ok(_) => Recovery::Probed(self.get_version()),
                        Err(_) => Recovery::ReconnectFailed,
                    }
                };
                assert(recovery_outcome(device_present, recovery));
                classify_recovery(recovery)
            },
        }
    }

    /// Reconnects the transport and makes sure that the IOTA application
    /// still answers.
    pub fn reconnect(&self) -> (r: Result<(), LedgerError>)
        ensures
            match r {
                Ok(_) => exists|v: AppVersion| #[trigger] answers(v) && names_iota(v.name@),
                Err(e) => e@ is Transport || version_outcome(Err::<AppVersion, LedgerError>(e))
                    || exists|v: AppVersion| #[trigger]
                    answers(v) && !names_iota(v.name@) && e@ == ErrorView::WrongApp(v.name@),
            },
    {
        match self.transport.reconnect() {
            Ok(_) => {},
            Err(e) => {
                return Err(LedgerError::Transport(e));
            },
        }
        let version = match self.get_version() {
            Ok(v) => v,
            Err(e) => {
                return Err(e);
            },
        };
        assert(answers(version));
        check_identity(version)
    }
}

} // verus!
