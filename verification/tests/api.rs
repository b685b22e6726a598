use ledger_iota::api::{
    check_app, check_identity, classify_first, classify_recovery, classify_second, is_iota_app,
    message_intent, probe_shows_app, version_ok, DeviceStatus, LedgerIota, Recovery,
};
use ledger_iota::apdu::{ApduAnswer, ApduCommand};
use ledger_iota::error::{LedgerError, TransportError};
use ledger_iota::objects::{encode_objects, ObjectData, Owner};
use ledger_iota::protocol::chunks::{build_block_chain, hash_block};
use ledger_iota::transport::Transport;
use ledger_iota::types::{AppVersion, Bip32Path};
use std::sync::{Arc, Mutex};

fn version(major: u8, minor: u8, patch: u8) -> AppVersion {
    AppVersion {
        major,
        minor,
        patch,
        name: "iota".into(),
    }
}

#[test]
fn version_ok_exact_minimum() {
    assert!(version_ok(&version(0, 9, 0)));
}

#[test]
fn version_ok_above_minimum() {
    assert!(version_ok(&version(0, 9, 1)));
    assert!(version_ok(&version(0, 10, 0)));
    assert!(version_ok(&version(1, 0, 0)));
}

#[test]
fn version_ok_below_minimum() {
    assert!(!version_ok(&version(0, 8, 9)));
    assert!(!version_ok(&version(0, 8, 255)));
    assert!(!version_ok(&version(0, 0, 0)));
}

#[test]
fn iota_app_names() {
    assert!(is_iota_app("iota"));
    assert!(is_iota_app("IOTA"));
    assert!(is_iota_app("IoTa Rebased"));
    assert!(is_iota_app("my-iota-app"));
    assert!(!is_iota_app(""));
    assert!(!is_iota_app("iot"));
    assert!(!is_iota_app("Bitcoin"));
    assert!(!is_iota_app("i o t a"));
    assert!(!is_iota_app("unknown"));
}

#[test]
fn check_app_decides_in_order() {
    assert!(check_app(&version(0, 9, 0)).is_ok());
    assert!(check_app(&version(1, 0, 0)).is_ok());
    let other = AppVersion {
        major: 0,
        minor: 1,
        patch: 0,
        name: "Bitcoin".into(),
    };
    match check_app(&other) {
        Err(LedgerError::WrongApp(name)) => assert_eq!(name, "Bitcoin"),
        r => panic!("unexpected result: {r:?}"),
    }
    match check_app(&version(0, 8, 255)) {
        Err(LedgerError::InvalidResponse(msg)) => assert_eq!(
            msg,
            "app iota v0.8.255 is too old - update to at least 0.9.0"
        ),
        r => panic!("unexpected result: {r:?}"),
    }
}

#[test]
fn probes_are_classified() {
    assert_eq!(
        classify_first(Ok(version(1, 0, 0))),
        Some(DeviceStatus::Connected)
    );
    let other = AppVersion {
        major: 2,
        minor: 0,
        patch: 0,
        name: "Ethereum".into(),
    };
    assert_eq!(
        classify_first(Ok(other.clone())),
        Some(DeviceStatus::WrongApp("Ethereum".into()))
    );
    assert_eq!(
        classify_first(Err(LedgerError::DeviceLocked)),
        Some(DeviceStatus::Locked)
    );
    assert_eq!(
        classify_first(Err(LedgerError::AppNotOpen)),
        Some(DeviceStatus::AppClosed)
    );
    assert_eq!(
        classify_first(Err(LedgerError::WrongApp("unknown".into()))),
        Some(DeviceStatus::WrongApp("unknown".into()))
    );
    assert_eq!(
        classify_first(Err(LedgerError::Transport(TransportError::DeviceNotFound))),
        None
    );
    assert_eq!(
        classify_first(Err(LedgerError::UserRejected)),
        Some(DeviceStatus::Disconnected)
    );
    assert_eq!(
        classify_first(Err(LedgerError::BlockProtocol("empty response".into()))),
        Some(DeviceStatus::Disconnected)
    );

    assert_eq!(classify_second(Ok(version(1, 0, 0))), DeviceStatus::Connected);
    assert_eq!(
        classify_second(Ok(other)),
        DeviceStatus::WrongApp("Ethereum".into())
    );
    assert_eq!(
        classify_second(Err(LedgerError::DeviceLocked)),
        DeviceStatus::Locked
    );
    assert_eq!(
        classify_second(Err(LedgerError::AppNotOpen)),
        DeviceStatus::AppClosed
    );
    assert_eq!(
        classify_second(Err(LedgerError::Transport(TransportError::Timeout(1)))),
        DeviceStatus::Locked
    );
    assert_eq!(
        classify_second(Err(LedgerError::UserRejected)),
        DeviceStatus::Locked
    );
}

#[test]
fn message_intent_prefix() {
    assert_eq!(message_intent(b""), vec![3, 0, 0]);
    assert_eq!(message_intent(b"Hello"), vec![3, 0, 0, b'H', b'e', b'l', b'l', b'o']);
}

/// A device that answers each exchange from a script; `None` stands for a
/// failing transport.
struct Script {
    responses: Mutex<Vec<Option<Vec<u8>>>>,
    sent: Mutex<Vec<ApduCommand>>,
    can_reconnect: bool,
    reconnects: Mutex<u32>,
}

impl Script {
    fn new(responses: Vec<Option<Vec<u8>>>, can_reconnect: bool) -> Arc<Script> {
        Arc::new(Script {
            responses: Mutex::new(responses),
            sent: Mutex::new(Vec::new()),
            can_reconnect,
            reconnects: Mutex::new(0),
        })
    }
}

/// A handle on a script, to hand to the library while the test keeps the
/// script itself.
struct Handle(Arc<Script>);

fn over(script: &Arc<Script>) -> Box<dyn Transport> {
    Box::new(Handle(script.clone()))
}

impl Transport for Handle {
    fn exchange(&self, cmd: &ApduCommand) -> Result<ApduAnswer, TransportError> {
        self.0.sent.lock().unwrap().push(cmd.clone());
        let mut q = self.0.responses.lock().unwrap();
        if q.is_empty() {
            panic!("Script: no more responses");
        }
        match q.remove(0) {
            Some(raw) => Ok(ApduAnswer::from_raw(raw)),
            None => Err(TransportError::Comm("stale handle".into())),
        }
    }

    fn reconnect(&self) -> Result<(), TransportError> {
        *self.0.reconnects.lock().unwrap() += 1;
        if self.0.can_reconnect {
            Ok(())
        } else {
            Err(TransportError::DeviceNotFound)
        }
    }
}

fn final_ok(payload: &[u8]) -> Option<Vec<u8>> {
    let mut v = vec![0x01];
    v.extend_from_slice(payload);
    v.push(0x90);
    v.push(0x00);
    Some(v)
}

fn version_payload(major: u8, minor: u8, patch: u8, name: &str) -> Vec<u8> {
    let mut v = vec![major, minor, patch];
    v.extend_from_slice(name.as_bytes());
    v
}

#[test]
fn connect_checks_identity_and_floor() {
    let script = Script::new(vec![final_ok(&version_payload(1, 0, 3, "iota"))], false);
    let ledger = LedgerIota::new(over(&script)).unwrap();
    drop(ledger);

    let script = Script::new(vec![final_ok(&version_payload(1, 0, 3, "Bitcoin"))], false);
    match LedgerIota::new(over(&script)) {
        Err(LedgerError::WrongApp(name)) => assert_eq!(name, "Bitcoin"),
        _ => panic!("expected a wrong-application error"),
    }

    let script = Script::new(vec![final_ok(&version_payload(0, 8, 9, "IOTA"))], false);
    match LedgerIota::new(over(&script)) {
        Err(LedgerError::InvalidResponse(msg)) => {
            assert_eq!(msg, "app IOTA v0.8.9 is too old - update to at least 0.9.0")
        }
        _ => panic!("expected a version error"),
    }

    let script = Script::new(vec![Some(vec![0x55, 0x15])], false);
    assert!(matches!(
        LedgerIota::new(over(&script)),
        Err(LedgerError::DeviceLocked)
    ));
}

#[test]
fn get_version_over_a_script() {
    let script = Script::new(vec![final_ok(&version_payload(1, 2, 3, "iota"))], false);
    let ledger = LedgerIota::with_transport(over(&script));
    let v = ledger.get_version().unwrap();
    assert_eq!(v, version(1, 2, 3));
    let sent = script.sent.lock().unwrap();
    assert_eq!(sent.len(), 1);
    assert_eq!(sent[0].ins, 0x00);
    assert_eq!(sent[0].data, vec![0x00]);
}

#[test]
fn get_pubkey_over_a_script() {
    let mut payload = vec![32];
    payload.extend_from_slice(&[0xAA; 32]);
    payload.push(32);
    payload.extend_from_slice(&[0xBB; 32]);
    let path = Bip32Path::iota(0, 0, 0);

    let script = Script::new(vec![final_ok(&payload)], false);
    let ledger = LedgerIota::with_transport(over(&script));
    let (pk, addr) = ledger.get_pubkey(&path).unwrap();
    assert_eq!(pk.0, [0xAA; 32]);
    assert_eq!(addr.0, [0xBB; 32]);
    {
        let sent = script.sent.lock().unwrap();
        assert_eq!(sent[0].ins, 0x02);
        let mut start = vec![0x00];
        start.extend_from_slice(&hash_block(&build_block_chain(&path.serialize())[0]));
        assert_eq!(sent[0].data, start);
    }

    let script = Script::new(vec![final_ok(&payload)], false);
    let ledger = LedgerIota::with_transport(over(&script));
    let (pk, addr) = ledger.verify_address(&path).unwrap();
    assert_eq!(pk.0, [0xAA; 32]);
    assert_eq!(addr.0, [0xBB; 32]);
    assert_eq!(script.sent.lock().unwrap()[0].ins, 0x01);
}

#[test]
fn sign_over_a_script() {
    let path = Bip32Path::iota(0, 0, 0);
    let tx = vec![0x33u8; 250];
    let objects = vec![ObjectData::gas_coin(
        1,
        vec![0u8; 40],
        Owner::Immutable,
        [0u8; 33],
        0,
    )];

    let script = Script::new(vec![final_ok(&[0x5A; 64])], false);
    let ledger = LedgerIota::with_transport(over(&script));
    let sig = ledger.sign_tx(&tx, &path, Some(&objects)).unwrap();
    assert_eq!(sig.0, [0x5A; 64]);
    {
        let sent = script.sent.lock().unwrap();
        assert_eq!(sent[0].ins, 0x03);
        let mut first = vec![250, 0, 0, 0];
        first.extend_from_slice(&tx);
        let mut start = vec![0x00];
        start.extend_from_slice(&hash_block(&build_block_chain(&first)[0]));
        start.extend_from_slice(&hash_block(&build_block_chain(&path.serialize())[0]));
        start.extend_from_slice(&hash_block(
            &build_block_chain(&encode_objects(&objects))[0],
        ));
        assert_eq!(sent[0].data, start);
    }

    let script = Script::new(vec![final_ok(&[0x5B; 64])], false);
    let ledger = LedgerIota::with_transport(over(&script));
    let sig = ledger.sign_message(b"Hello", &path).unwrap();
    assert_eq!(sig.0, [0x5B; 64]);
    {
        let sent = script.sent.lock().unwrap();
        let first = vec![8, 0, 0, 0, 3, 0, 0, b'H', b'e', b'l', b'l', b'o'];
        let mut start = vec![0x00];
        start.extend_from_slice(&hash_block(&build_block_chain(&first)[0]));
        start.extend_from_slice(&hash_block(&build_block_chain(&path.serialize())[0]));
        assert_eq!(sent[0].data, start);
    }
}

#[test]
fn sign_user_rejection() {
    let path = Bip32Path::iota(0, 0, 0);
    let script = Script::new(vec![Some(vec![0x69, 0x85])], false);
    let ledger = LedgerIota::with_transport(over(&script));
    let err = ledger.sign_tx(&[1, 2, 3], &path, None).unwrap_err();
    assert!(matches!(err, LedgerError::UserRejected));
}

#[test]
fn quit_ignores_errors() {
    let script = Script::new(vec![None], false);
    let ledger = LedgerIota::with_transport(over(&script));
    assert!(ledger.quit().is_ok());
    assert_eq!(script.sent.lock().unwrap()[0].ins, 0xFF);

    let script = Script::new(vec![Some(vec![0x6D, 0x00])], false);
    let ledger = LedgerIota::with_transport(over(&script));
    assert!(ledger.quit().is_ok());
}

#[test]
fn app_open_probe() {
    let script = Script::new(vec![final_ok(&version_payload(1, 0, 0, "IOTA"))], false);
    assert!(LedgerIota::with_transport(over(&script)).is_app_open());
    let script = Script::new(vec![final_ok(&version_payload(1, 0, 0, "BOLOS"))], false);
    assert!(!LedgerIota::with_transport(over(&script)).is_app_open());
    let script = Script::new(vec![None], false);
    assert!(!LedgerIota::with_transport(over(&script)).is_app_open());
}

#[test]
fn status_of_an_answering_device() {
    let script = Script::new(vec![final_ok(&version_payload(1, 0, 0, "iota"))], true);
    let ledger = LedgerIota::with_transport(over(&script));
    assert_eq!(ledger.check_status(true), DeviceStatus::Connected);
    assert_eq!(*script.reconnects.lock().unwrap(), 0);

    let script = Script::new(vec![final_ok(&version_payload(1, 0, 0, "BOLOS"))], true);
    let ledger = LedgerIota::with_transport(over(&script));
    assert_eq!(
        ledger.check_status(false),
        DeviceStatus::WrongApp("BOLOS".into())
    );

    let script = Script::new(vec![Some(vec![0x55, 0x15])], true);
    assert_eq!(
        LedgerIota::with_transport(over(&script)).check_status(true),
        DeviceStatus::Locked
    );
    let script = Script::new(vec![Some(vec![0x6E, 0x01])], true);
    assert_eq!(
        LedgerIota::with_transport(over(&script)).check_status(true),
        DeviceStatus::AppClosed
    );
    let script = Script::new(vec![Some(vec![0x6E, 0x00])], true);
    assert_eq!(
        LedgerIota::with_transport(over(&script)).check_status(true),
        DeviceStatus::WrongApp("unknown".into())
    );
    let script = Script::new(vec![Some(vec![0x69, 0x85])], true);
    assert_eq!(
        LedgerIota::with_transport(over(&script)).check_status(true),
        DeviceStatus::Disconnected
    );
}

#[test]
fn status_after_a_transport_failure() {
    // device absent
    let script = Script::new(vec![None], true);
    assert_eq!(
        LedgerIota::with_transport(over(&script)).check_status(false),
        DeviceStatus::Disconnected
    );
    assert_eq!(*script.reconnects.lock().unwrap(), 0);

    // device present, reconnect fails
    let script = Script::new(vec![None], false);
    assert_eq!(
        LedgerIota::with_transport(over(&script)).check_status(true),
        DeviceStatus::Locked
    );
    assert_eq!(*script.reconnects.lock().unwrap(), 1);

    // device present, reconnect succeeds, second probe settles
    let script = Script::new(
        vec![None, final_ok(&version_payload(1, 0, 0, "iota"))],
        true,
    );
    assert_eq!(
        LedgerIota::with_transport(over(&script)).check_status(true),
        DeviceStatus::Connected
    );
    assert_eq!(*script.reconnects.lock().unwrap(), 1);

    // second probe fails too: locked, and no further reconnect
    let script = Script::new(vec![None, None], true);
    assert_eq!(
        LedgerIota::with_transport(over(&script)).check_status(true),
        DeviceStatus::Locked
    );
    assert_eq!(*script.reconnects.lock().unwrap(), 1);
    let script = Script::new(vec![None, Some(vec![0x69, 0x85])], true);
    assert_eq!(
        LedgerIota::with_transport(over(&script)).check_status(true),
        DeviceStatus::Locked
    );
}

#[test]
fn reconnect_revalidates_identity() {
    let script = Script::new(vec![final_ok(&version_payload(1, 0, 0, "iota"))], true);
    assert!(LedgerIota::with_transport(over(&script)).reconnect().is_ok());

    let script = Script::new(vec![final_ok(&version_payload(1, 0, 0, "BOLOS"))], true);
    match LedgerIota::with_transport(over(&script)).reconnect() {
        Err(LedgerError::WrongApp(name)) => assert_eq!(name, "BOLOS"),
        r => panic!("unexpected result: {r:?}"),
    }

    let script = Script::new(vec![], false);
    assert!(matches!(
        LedgerIota::with_transport(over(&script)).reconnect(),
        Err(LedgerError::Transport(TransportError::DeviceNotFound))
    ));
}

struct NoReconnect;

impl Transport for NoReconnect {
    fn exchange(&self, _cmd: &ApduCommand) -> Result<ApduAnswer, TransportError> {
        Err(TransportError::Timeout(30_000))
    }
}

#[test]
fn reconnect_is_unsupported_by_default() {
    match NoReconnect.reconnect() {
        Err(TransportError::Comm(msg)) => assert_eq!(msg, "reconnect not supported"),
        r => panic!("unexpected result: {r:?}"),
    }
}

#[test]
fn transport_without_reconnect() {
    let ledger = LedgerIota::with_transport(Box::new(NoReconnect));
    assert!(matches!(
        ledger.get_version(),
        Err(LedgerError::Transport(TransportError::Timeout(30_000)))
    ));
    assert!(matches!(
        ledger.reconnect(),
        Err(LedgerError::Transport(TransportError::Comm(_)))
    ));
    assert_eq!(ledger.check_status(false), DeviceStatus::Disconnected);
    assert_eq!(ledger.check_status(true), DeviceStatus::Locked);
}

#[test]
fn probe_shows_the_app_only_by_its_name() {
    assert!(probe_shows_app(&Ok(version(1, 0, 0))));
    assert!(probe_shows_app(&Ok(version(0, 0, 0))));
    let shouting = AppVersion {
        major: 1,
        minor: 0,
        patch: 0,
        name: "IOTA Rebased".into(),
    };
    assert!(probe_shows_app(&Ok(shouting)));
    let other = AppVersion {
        major: 1,
        minor: 0,
        patch: 0,
        name: "BOLOS".into(),
    };
    assert!(!probe_shows_app(&Ok(other)));
    assert!(!probe_shows_app(&Err(LedgerError::DeviceLocked)));
    assert!(!probe_shows_app(&Err(LedgerError::WrongApp("iota".into()))));
    assert!(!probe_shows_app(&Err(LedgerError::Transport(
        TransportError::DeviceNotFound
    ))));
}

#[test]
fn identity_is_checked_by_name_alone() {
    assert!(check_identity(version(1, 0, 0)).is_ok());
    // the version floor is no matter here
    assert!(check_identity(version(0, 0, 1)).is_ok());
    let shouting = AppVersion {
        major: 0,
        minor: 1,
        patch: 0,
        name: "My IOTA".into(),
    };
    assert!(check_identity(shouting).is_ok());
    for name in ["BOLOS", "", "Bitcoin", "iot a"] {
        let other = AppVersion {
            major: 9,
            minor: 9,
            patch: 9,
            name: name.into(),
        };
        match check_identity(other) {
            Err(LedgerError::WrongApp(found)) => assert_eq!(found, name),
            r => panic!("unexpected result: {r:?}"),
        }
    }
}

#[test]
fn recovery_is_classified() {
    assert_eq!(
        classify_recovery(Recovery::Absent),
        DeviceStatus::Disconnected
    );
    assert_eq!(
        classify_recovery(Recovery::ReconnectFailed),
        DeviceStatus::Locked
    );
    assert_eq!(
        classify_recovery(Recovery::Probed(Ok(version(1, 0, 0)))),
        DeviceStatus::Connected
    );
    let other = AppVersion {
        major: 1,
        minor: 0,
        patch: 0,
        name: "BOLOS".into(),
    };
    assert_eq!(
        classify_recovery(Recovery::Probed(Ok(other))),
        DeviceStatus::WrongApp("BOLOS".into())
    );
    assert_eq!(
        classify_recovery(Recovery::Probed(Err(LedgerError::DeviceLocked))),
        DeviceStatus::Locked
    );
    assert_eq!(
        classify_recovery(Recovery::Probed(Err(LedgerError::AppNotOpen))),
        DeviceStatus::AppClosed
    );
    assert_eq!(
        classify_recovery(Recovery::Probed(Err(LedgerError::WrongApp("unknown".into())))),
        DeviceStatus::WrongApp("unknown".into())
    );
    assert_eq!(
        classify_recovery(Recovery::Probed(Err(LedgerError::Transport(
            TransportError::Timeout(30_000)
        )))),
        DeviceStatus::Locked
    );
    assert_eq!(
        classify_recovery(Recovery::Probed(Err(LedgerError::UserRejected))),
        DeviceStatus::Locked
    );
}

#[test]
fn status_check_reconnects_and_probes_at_most_once_more() {
    // transport fails on every exchange, reconnect succeeds: two probes,
    // one reconnect, then the verdict
    let script = Script::new(vec![None, None, None], true);
    let ledger = LedgerIota::with_transport(over(&script));
    assert_eq!(ledger.check_status(true), DeviceStatus::Locked);
    assert_eq!(*script.reconnects.lock().unwrap(), 1);
    assert_eq!(script.sent.lock().unwrap().len(), 2);

    // absent device: one probe, no reconnect
    let script = Script::new(vec![None, None], true);
    let ledger = LedgerIota::with_transport(over(&script));
    assert_eq!(ledger.check_status(false), DeviceStatus::Disconnected);
    assert_eq!(*script.reconnects.lock().unwrap(), 0);
    assert_eq!(script.sent.lock().unwrap().len(), 1);

    // failed reconnect: one probe, one reconnect
    let script = Script::new(vec![None, None], false);
    let ledger = LedgerIota::with_transport(over(&script));
    assert_eq!(ledger.check_status(true), DeviceStatus::Locked);
    assert_eq!(*script.reconnects.lock().unwrap(), 1);
    assert_eq!(script.sent.lock().unwrap().len(), 1);
}

#[test]
fn reconnect_hands_on_each_outcome() {
    // reconnect fails: its error, and no probe
    let script = Script::new(vec![final_ok(&version_payload(1, 0, 0, "iota"))], false);
    let ledger = LedgerIota::with_transport(over(&script));
    assert!(matches!(
        ledger.reconnect(),
        Err(LedgerError::Transport(TransportError::DeviceNotFound))
    ));
    assert!(script.sent.lock().unwrap().is_empty());

    // probe fails: its error unchanged
    let script = Script::new(vec![Some(vec![0x55, 0x15])], true);
    let ledger = LedgerIota::with_transport(over(&script));
    assert!(matches!(ledger.reconnect(), Err(LedgerError::DeviceLocked)));
    let script = Script::new(vec![None], true);
    let ledger = LedgerIota::with_transport(over(&script));
    assert!(matches!(
        ledger.reconnect(),
        Err(LedgerError::Transport(TransportError::Comm(_)))
    ));

    // a version below the floor is no fault here
    let script = Script::new(vec![final_ok(&version_payload(0, 1, 0, "IOTA"))], true);
    let ledger = LedgerIota::with_transport(over(&script));
    assert!(ledger.reconnect().is_ok());
}
