use ledger_iota::apdu::{ApduAnswer, ApduCommand, Instruction};

#[test]
fn serialize_empty_data() {
    let cmd = ApduCommand::new(0x42);
    let buf = cmd.serialize();
    assert_eq!(buf, vec![0x00, 0x42, 0x00, 0x00, 0x00]);
}

#[test]
fn serialize_with_data() {
    let cmd = ApduCommand::with_data(0x01, vec![0xAA, 0xBB]);
    let buf = cmd.serialize();
    assert_eq!(buf, vec![0x00, 0x01, 0x00, 0x00, 0x02, 0xAA, 0xBB]);
}

#[test]
fn serialize_max_255_bytes() {
    let cmd = ApduCommand::with_data(0x01, vec![0xFF; 255]);
    let buf = cmd.serialize();
    assert_eq!(buf.len(), 5 + 255);
    assert_eq!(buf[4], 255); // LC byte
}

#[test]
fn retcode_empty_response() {
    let ans = ApduAnswer::from_raw(vec![]);
    assert_eq!(ans.retcode(), 0);
}

#[test]
fn retcode_single_byte() {
    let ans = ApduAnswer::from_raw(vec![0x90]);
    assert_eq!(ans.retcode(), 0);
}

#[test]
fn retcode_just_status_word() {
    let ans = ApduAnswer::from_raw(vec![0x90, 0x00]);
    assert_eq!(ans.retcode(), 0x9000);
}

#[test]
fn retcode_with_payload() {
    let ans = ApduAnswer::from_raw(vec![0x01, 0x02, 0x03, 0x69, 0x85]);
    assert_eq!(ans.retcode(), 0x6985);
}

#[test]
fn data_empty_response() {
    let ans = ApduAnswer::from_raw(vec![]);
    assert!(ans.data().is_empty());
}

#[test]
fn data_single_byte() {
    let ans = ApduAnswer::from_raw(vec![0x90]);
    assert!(ans.data().is_empty());
}

#[test]
fn data_just_status_word() {
    let ans = ApduAnswer::from_raw(vec![0x90, 0x00]);
    assert!(ans.data().is_empty());
}

#[test]
fn data_strips_status_word() {
    let ans = ApduAnswer::from_raw(vec![0xAA, 0xBB, 0xCC, 0x90, 0x00]);
    assert_eq!(ans.data(), &[0xAA, 0xBB, 0xCC]);
}

#[test]
fn retcode_is_big_endian() {
    let ans = ApduAnswer::from_raw(vec![0x12, 0x34]);
    assert_eq!(ans.retcode(), 0x1234);
    let ans = ApduAnswer::from_raw(vec![0xFF, 0xFF, 0xFF]);
    assert_eq!(ans.retcode(), 0xFFFF);
    assert_eq!(ans.data(), &[0xFF]);
}

#[test]
fn frame_round_trip() {
    for len in [0usize, 1, 2, 100, 254, 255] {
        let data: Vec<u8> = (0..len).map(|i| (i * 7 % 251) as u8).collect();
        let cmd = ApduCommand::with_data(0x03, data.clone());
        let back = ApduCommand::deserialize(&cmd.serialize()).unwrap();
        assert_eq!(back.cla, 0);
        assert_eq!(back.ins, 0x03);
        assert_eq!(back.p1, 0);
        assert_eq!(back.p2, 0);
        assert_eq!(back.data, data);
    }
}

#[test]
fn deserialize_rejects_malformed_frames() {
    assert!(ApduCommand::deserialize(&[]).is_none());
    assert!(ApduCommand::deserialize(&[0, 1, 0, 0]).is_none());
    assert!(ApduCommand::deserialize(&[0, 1, 0, 0, 2, 0xAA]).is_none());
    assert!(ApduCommand::deserialize(&[0, 1, 0, 0, 1, 0xAA, 0xBB]).is_none());
    let cmd = ApduCommand::deserialize(&[9, 8, 7, 6, 1, 0xAA]).unwrap();
    assert_eq!((cmd.cla, cmd.ins, cmd.p1, cmd.p2), (9, 8, 7, 6));
    assert_eq!(cmd.data, vec![0xAA]);
}

#[test]
fn instruction_codes() {
    assert_eq!(Instruction::GetVersion.code(), 0x00);
    assert_eq!(Instruction::VerifyAddress.code(), 0x01);
    assert_eq!(Instruction::GetPubkey.code(), 0x02);
    assert_eq!(Instruction::SignTx.code(), 0x03);
    assert_eq!(Instruction::Quit.code(), 0xFF);
}
