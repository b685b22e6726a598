use ledger_iota::apdu::{ApduAnswer, ApduCommand, Instruction};
use ledger_iota::error::{LedgerError, TransportError};
use ledger_iota::protocol::chunks::{build_block_chain, hash_block, sha256};
use ledger_iota::protocol::{execute, Action, HashIndex, Session};
use ledger_iota::transport::Transport;
use std::sync::Mutex;

const RESULT_ACCUMULATING: u8 = 0x00;
const RESULT_FINAL: u8 = 0x01;
const GET_CHUNK: u8 = 0x02;
const PUT_CHUNK: u8 = 0x03;

/// Mock transport that returns a sequence of pre-built responses and keeps
/// what it was sent.
struct MockTransport {
    responses: Mutex<Vec<Vec<u8>>>,
    sent: Mutex<Vec<ApduCommand>>,
}

impl MockTransport {
    fn new(responses: Vec<Vec<u8>>) -> Self {
        Self {
            responses: Mutex::new(responses),
            sent: Mutex::new(Vec::new()),
        }
    }

    fn sent(&self) -> Vec<ApduCommand> {
        self.sent.lock().unwrap().clone()
    }
}

impl Transport for MockTransport {
    fn exchange(&self, cmd: &ApduCommand) -> Result<ApduAnswer, TransportError> {
        self.sent.lock().unwrap().push(cmd.clone());
        let mut q = self.responses.lock().unwrap();
        if q.is_empty() {
            panic!("MockTransport: no more responses");
        }
        Ok(ApduAnswer::from_raw(q.remove(0)))
    }
}

/// Build a raw response: `[payload][SW1][SW2]`
fn apdu_ok(payload: &[u8]) -> Vec<u8> {
    let mut v = payload.to_vec();
    v.push(0x90);
    v.push(0x00);
    v
}

#[test]
fn result_final_no_params() {
    // Device immediately returns ResultFinal with payload "hello"
    let mut payload = vec![RESULT_FINAL];
    payload.extend_from_slice(b"hello");
    let transport = MockTransport::new(vec![apdu_ok(&payload)]);

    let result = execute(&transport, Instruction::GetVersion, &[]).unwrap();
    assert_eq!(result, b"hello");
}

#[test]
fn result_final_empty_payload() {
    let payload = vec![RESULT_FINAL];
    let transport = MockTransport::new(vec![apdu_ok(&payload)]);

    let result = execute(&transport, Instruction::GetVersion, &[]).unwrap();
    assert!(result.is_empty());
}

#[test]
fn result_accumulating_then_final() {
    // First response: ResultAccumulating with "part1"
    let mut resp1 = vec![RESULT_ACCUMULATING];
    resp1.extend_from_slice(b"part1");

    // Second response: ResultFinal with "part2"
    let mut resp2 = vec![RESULT_FINAL];
    resp2.extend_from_slice(b"part2");

    let transport = MockTransport::new(vec![apdu_ok(&resp1), apdu_ok(&resp2)]);

    let result = execute(&transport, Instruction::GetVersion, &[]).unwrap();
    assert_eq!(result, b"part1part2");
}

#[test]
fn get_chunk_serves_block_from_params() {
    // Provide a small param so there's one block in the index
    let param = b"test_data".to_vec();
    let blocks = build_block_chain(&param);
    let hash = hash_block(&blocks[0]);

    // Device asks for that block hash, then returns ResultFinal
    let mut get_chunk = vec![GET_CHUNK];
    get_chunk.extend_from_slice(&hash);

    let mut final_resp = vec![RESULT_FINAL];
    final_resp.extend_from_slice(b"ok");

    let transport = MockTransport::new(vec![apdu_ok(&get_chunk), apdu_ok(&final_resp)]);

    let result = execute(&transport, Instruction::GetVersion, &[param]).unwrap();
    assert_eq!(result, b"ok");
}

#[test]
fn get_chunk_unknown_hash_sends_failure() {
    // Device asks for a hash we don't have
    let mut get_chunk = vec![GET_CHUNK];
    get_chunk.extend_from_slice(&[0xAA; 32]); // unknown hash

    // After failure response, device returns ResultFinal
    let mut final_resp = vec![RESULT_FINAL];
    final_resp.extend_from_slice(b"done");

    let transport = MockTransport::new(vec![apdu_ok(&get_chunk), apdu_ok(&final_resp)]);

    let result = execute(&transport, Instruction::GetVersion, &[]).unwrap();
    assert_eq!(result, b"done");
}

#[test]
fn get_chunk_too_short_errors() {
    // GetChunk with only 10 bytes of hash (need 32)
    let mut get_chunk = vec![GET_CHUNK];
    get_chunk.extend_from_slice(&[0xBB; 10]);

    let transport = MockTransport::new(vec![apdu_ok(&get_chunk)]);

    let err = execute(&transport, Instruction::GetVersion, &[]).unwrap_err();
    assert!(matches!(err, LedgerError::BlockProtocol(_)));
}

#[test]
fn put_chunk_stores_and_can_be_retrieved() {
    let chunk_data = b"device_pushed_this";
    let chunk_hash = sha256(chunk_data);

    // 1. Device pushes a chunk
    let mut put_msg = vec![PUT_CHUNK];
    put_msg.extend_from_slice(chunk_data);

    // 2. Device asks for the chunk back by hash
    let mut get_msg = vec![GET_CHUNK];
    get_msg.extend_from_slice(&chunk_hash);

    // 3. Device returns final
    let mut final_resp = vec![RESULT_FINAL];
    final_resp.extend_from_slice(b"ok");

    let transport = MockTransport::new(vec![
        apdu_ok(&put_msg),
        apdu_ok(&get_msg),
        apdu_ok(&final_resp),
    ]);

    let result = execute(&transport, Instruction::GetVersion, &[]).unwrap();
    assert_eq!(result, b"ok");
}

#[test]
fn unknown_message_type_errors() {
    let payload = vec![0xFF]; // not a known device message
    let transport = MockTransport::new(vec![apdu_ok(&payload)]);

    let err = execute(&transport, Instruction::GetVersion, &[]).unwrap_err();
    assert!(matches!(err, LedgerError::BlockProtocol(_)));
}

#[test]
fn empty_response_with_error_status() {
    // Empty payload + error status word (0x6985 = UserRejected)
    let transport = MockTransport::new(vec![vec![0x69, 0x85]]);

    let err = execute(&transport, Instruction::GetVersion, &[]).unwrap_err();
    assert!(matches!(err, LedgerError::UserRejected));
}

#[test]
fn empty_response_with_success_status_still_errors() {
    // Empty payload + 0x9000: no data means protocol error
    let transport = MockTransport::new(vec![vec![0x90, 0x00]]);

    let err = execute(&transport, Instruction::GetVersion, &[]).unwrap_err();
    assert!(matches!(err, LedgerError::BlockProtocol(_)));
}

struct FailTransport;

impl Transport for FailTransport {
    fn exchange(&self, _cmd: &ApduCommand) -> Result<ApduAnswer, TransportError> {
        Err(TransportError::Timeout(5000))
    }
}

#[test]
fn transport_error_propagates() {
    let err = execute(&FailTransport, Instruction::GetVersion, &[]).unwrap_err();
    assert!(matches!(err, LedgerError::Transport(_)));
}

#[test]
fn transport_error_is_handed_on_unchanged() {
    let err = execute(&FailTransport, Instruction::GetVersion, &[]).unwrap_err();
    assert!(matches!(
        err,
        LedgerError::Transport(TransportError::Timeout(5000))
    ));
}

#[test]
fn start_message_lists_head_hashes() {
    let first = vec![0x11u8; 400];
    let second = b"short".to_vec();
    let payload = vec![RESULT_FINAL];
    let transport = MockTransport::new(vec![apdu_ok(&payload)]);
    execute(&transport, Instruction::SignTx, &[first.clone(), second.clone()]).unwrap();

    let sent = transport.sent();
    assert_eq!(sent.len(), 1);
    assert_eq!(sent[0].cla, 0);
    assert_eq!(sent[0].ins, 0x03);
    assert_eq!(sent[0].p1, 0);
    assert_eq!(sent[0].p2, 0);
    let mut expected = vec![0x00u8];
    expected.extend_from_slice(&hash_block(&build_block_chain(&first)[0]));
    expected.extend_from_slice(&hash_block(&build_block_chain(&second)[0]));
    assert_eq!(sent[0].data, expected);
}

#[test]
fn accumulating_is_acknowledged_once() {
    let mut resp1 = vec![RESULT_ACCUMULATING];
    resp1.extend_from_slice(b"part1");
    let mut resp2 = vec![RESULT_FINAL];
    resp2.extend_from_slice(b"part2");
    let transport = MockTransport::new(vec![apdu_ok(&resp1), apdu_ok(&resp2)]);
    let result = execute(&transport, Instruction::GetVersion, &[]).unwrap();
    assert_eq!(result, b"part1part2");
    let sent = transport.sent();
    assert_eq!(sent.len(), 2);
    assert_eq!(sent[0].data, vec![0x00]);
    assert_eq!(sent[1].data, vec![0x04]);
}

#[test]
fn known_block_is_served_whole() {
    let param = b"test_data".to_vec();
    let blocks = build_block_chain(&param);
    assert_eq!(blocks.len(), 1);
    let hash = hash_block(&blocks[0]);
    let mut get_chunk = vec![GET_CHUNK];
    get_chunk.extend_from_slice(&hash);
    let mut final_resp = vec![RESULT_FINAL];
    final_resp.extend_from_slice(b"ok");
    let transport = MockTransport::new(vec![apdu_ok(&get_chunk), apdu_ok(&final_resp)]);
    let result = execute(&transport, Instruction::GetVersion, &[param]).unwrap();
    assert_eq!(result, b"ok");

    let sent = transport.sent();
    assert_eq!(sent.len(), 2);
    let mut expected = vec![0x01u8];
    expected.extend_from_slice(&[0u8; 32]);
    expected.extend_from_slice(b"test_data");
    assert_eq!(sent[1].data, expected);
}

#[test]
fn unknown_block_is_answered_with_failure_tag() {
    let mut get_chunk = vec![GET_CHUNK];
    get_chunk.extend_from_slice(&[0xAA; 32]);
    let final_resp = vec![RESULT_FINAL];
    let transport = MockTransport::new(vec![apdu_ok(&get_chunk), apdu_ok(&final_resp)]);
    execute(&transport, Instruction::GetVersion, &[]).unwrap();
    let sent = transport.sent();
    assert_eq!(sent[1].data, vec![0x02]);
}

#[test]
fn pushed_chunk_is_acknowledged_and_served_raw() {
    let chunk_data = b"device_pushed_this";
    let chunk_hash = sha256(chunk_data);
    let mut put_msg = vec![PUT_CHUNK];
    put_msg.extend_from_slice(chunk_data);
    let mut get_msg = vec![GET_CHUNK];
    get_msg.extend_from_slice(&chunk_hash);
    let final_resp = vec![RESULT_FINAL];
    let transport = MockTransport::new(vec![
        apdu_ok(&put_msg),
        apdu_ok(&get_msg),
        apdu_ok(&final_resp),
    ]);
    execute(&transport, Instruction::GetVersion, &[]).unwrap();
    let sent = transport.sent();
    assert_eq!(sent.len(), 3);
    assert_eq!(sent[1].data, vec![0x03]);
    let mut expected = vec![0x01u8];
    expected.extend_from_slice(chunk_data);
    assert_eq!(sent[2].data, expected);
}

#[test]
fn later_blocks_of_a_chain_are_served() {
    let param = vec![0x5Au8; 400];
    let blocks = build_block_chain(&param);
    let mut responses = Vec::new();
    for block in &blocks {
        let mut get_chunk = vec![GET_CHUNK];
        get_chunk.extend_from_slice(&hash_block(block));
        responses.push(apdu_ok(&get_chunk));
    }
    responses.push(apdu_ok(&[RESULT_FINAL]));
    let transport = MockTransport::new(responses);
    execute(&transport, Instruction::SignTx, &[param]).unwrap();
    let sent = transport.sent();
    assert_eq!(sent.len(), 4);
    for (i, block) in blocks.iter().enumerate() {
        let mut expected = vec![0x01u8];
        expected.extend_from_slice(&block.serialize());
        assert_eq!(sent[i + 1].data, expected);
    }
}

#[test]
fn empty_response_without_status_is_a_protocol_error() {
    for raw in [vec![], vec![0x00, 0x00], vec![0x90]] {
        let transport = MockTransport::new(vec![raw]);
        let err = execute(&transport, Instruction::GetVersion, &[]).unwrap_err();
        match err {
            LedgerError::BlockProtocol(msg) => assert_eq!(msg, "empty response"),
            other => panic!("unexpected error: {other:?}"),
        }
    }
}

#[test]
fn empty_response_maps_each_status() {
    let transport = MockTransport::new(vec![vec![0x55, 0x15]]);
    let err = execute(&transport, Instruction::GetVersion, &[]).unwrap_err();
    assert!(matches!(err, LedgerError::DeviceLocked));
    let transport = MockTransport::new(vec![vec![0x12, 0x34]]);
    let err = execute(&transport, Instruction::GetVersion, &[]).unwrap_err();
    assert!(matches!(err, LedgerError::DeviceStatus(0x1234, "unknown")));
}

#[test]
fn protocol_error_messages() {
    let transport = MockTransport::new(vec![apdu_ok(&[0xAB])]);
    match execute(&transport, Instruction::GetVersion, &[]).unwrap_err() {
        LedgerError::BlockProtocol(msg) => assert_eq!(msg, "unknown device message type: 0xAB"),
        other => panic!("unexpected error: {other:?}"),
    }
    let transport = MockTransport::new(vec![apdu_ok(&[0x04])]);
    match execute(&transport, Instruction::GetVersion, &[]).unwrap_err() {
        LedgerError::BlockProtocol(msg) => assert_eq!(msg, "unknown device message type: 0x04"),
        other => panic!("unexpected error: {other:?}"),
    }
    let mut short = vec![GET_CHUNK];
    short.extend_from_slice(&[0; 31]);
    let transport = MockTransport::new(vec![apdu_ok(&short)]);
    match execute(&transport, Instruction::GetVersion, &[]).unwrap_err() {
        LedgerError::BlockProtocol(msg) => assert_eq!(msg, "GET_CHUNK response too short"),
        other => panic!("unexpected error: {other:?}"),
    }
}

#[test]
fn session_steps() {
    let params = vec![b"abc".to_vec()];
    let (mut session, start) = Session::start(&params);
    assert_eq!(start.len(), 33);
    assert_eq!(start[0], 0x00);

    let mut acc = vec![RESULT_ACCUMULATING];
    acc.extend_from_slice(b"xy");
    match session.step(&ApduAnswer::from_raw(apdu_ok(&acc))) {
        Action::Send(reply) => assert_eq!(reply, vec![0x04]),
        other => panic!("unexpected action: {other:?}"),
    }
    match session.step(&ApduAnswer::from_raw(apdu_ok(&[RESULT_FINAL, b'z']))) {
        Action::Finish => {}
        other => panic!("unexpected action: {other:?}"),
    }
    assert_eq!(session.into_result(), b"xyz");
}

#[test]
fn hash_index_replaces_and_finds() {
    let mut index = HashIndex::new();
    assert!(index.get(&[1; 32]).is_none());
    index.insert([1; 32], vec![1]);
    index.insert([2; 32], vec![2]);
    index.insert([1; 32], vec![3]);
    assert_eq!(index.get(&[1; 32]), Some(&vec![3]));
    assert_eq!(index.get(&[2; 32]), Some(&vec![2]));
    assert!(index.get(&[3; 32]).is_none());
}

#[test]
fn block_index_is_asked_before_pushed_data() {
    // The device pushes data whose digest equals the digest of an indexed
    // block only if the bytes are the serialized block itself: then both
    // stores hold the same digest, and the block index answers.
    let param = b"p".to_vec();
    let block = &build_block_chain(&param)[0];
    let wire = block.serialize();
    let hash = hash_block(block);
    assert_eq!(hash, sha256(&wire));
    let mut put_msg = vec![PUT_CHUNK];
    put_msg.extend_from_slice(&wire);
    let mut get_msg = vec![GET_CHUNK];
    get_msg.extend_from_slice(&hash);
    let transport = MockTransport::new(vec![
        apdu_ok(&put_msg),
        apdu_ok(&get_msg),
        apdu_ok(&[RESULT_FINAL]),
    ]);
    execute(&transport, Instruction::GetVersion, &[param]).unwrap();
    let sent = transport.sent();
    let mut expected = vec![0x01u8];
    expected.extend_from_slice(&wire);
    assert_eq!(sent[2].data, expected);
}
