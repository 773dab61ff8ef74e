//! The synchronization protocol: strict ordering and the codecs.

use runh::protocol::{
    decode_pid_le, decode_u64_le, encode_length_prefixed, encode_pid_le, encode_u64_le,
    check_prestart_ack, OrchHandshake, OrchStage, ProtocolError, MSG_ACK_PRESTART_HOOKS,
    MSG_ALIVE, MSG_READY_TO_EXEC, MSG_REQ_PRESTART_HOOKS,
};

#[test]
fn handshake_happy_path() {
    let mut h = OrchHandshake::new();
    assert_eq!(h.stage, OrchStage::AwaitAlive);
    h.on_alive_byte(MSG_ALIVE).unwrap();
    assert_eq!(h.stage, OrchStage::AwaitPid);
    let pid = h.on_pid_bytes(&vec![0x39, 0x05, 0x00, 0x00]).unwrap();
    assert_eq!(pid, 1337);
    assert_eq!(h.stage, OrchStage::AwaitHookRequest);
    h.on_hook_request_byte(MSG_REQ_PRESTART_HOOKS).unwrap();
    assert_eq!(h.stage, OrchStage::AwaitReady);
    h.on_ready_byte(MSG_READY_TO_EXEC).unwrap();
    assert_eq!(h.stage, OrchStage::Done);
}

#[test]
fn later_steps_before_alive_are_protocol_violations() {
    // Feeding the bytes of steps 3-6 to a fresh handshake must be
    // detected, not silently accepted.
    let mut h = OrchHandshake::new();
    assert_eq!(h.on_pid_bytes(&vec![0, 0, 0, 0]).unwrap_err(), ProtocolError::OutOfOrder);
    assert_eq!(
        h.on_hook_request_byte(MSG_REQ_PRESTART_HOOKS).unwrap_err(),
        ProtocolError::OutOfOrder
    );
    assert_eq!(h.on_ready_byte(MSG_READY_TO_EXEC).unwrap_err(), ProtocolError::OutOfOrder);
    assert_eq!(h.stage, OrchStage::AwaitAlive);
}

#[test]
fn wrong_bytes_are_protocol_violations() {
    let mut h = OrchHandshake::new();
    assert_eq!(h.on_alive_byte(0x77).unwrap_err(), ProtocolError::UnexpectedByte);
    h.on_alive_byte(MSG_ALIVE).unwrap();
    h.on_pid_bytes(&vec![1, 0, 0, 0]).unwrap();
    assert_eq!(h.on_hook_request_byte(0x00).unwrap_err(), ProtocolError::UnexpectedByte);
    h.on_hook_request_byte(MSG_REQ_PRESTART_HOOKS).unwrap();
    assert_eq!(h.on_ready_byte(MSG_REQ_PRESTART_HOOKS).unwrap_err(), ProtocolError::UnexpectedByte);
}

#[test]
fn ready_before_hook_request_is_rejected() {
    let mut h = OrchHandshake::new();
    h.on_alive_byte(MSG_ALIVE).unwrap();
    h.on_pid_bytes(&vec![1, 0, 0, 0]).unwrap();
    assert_eq!(h.on_ready_byte(MSG_READY_TO_EXEC).unwrap_err(), ProtocolError::OutOfOrder);
}

#[test]
fn u64_codec_round_trips() {
    for x in [0u64, 1, 255, 256, 0xDEAD_BEEF, u64::MAX] {
        let b = encode_u64_le(x);
        assert_eq!(b.len(), 8);
        assert_eq!(decode_u64_le(&b), x);
    }
    assert_eq!(encode_u64_le(0x0102030405060708), vec![8, 7, 6, 5, 4, 3, 2, 1]);
}

#[test]
fn pid_codec_round_trips() {
    for x in [0i32, 1, 1337, i32::MAX, -1, i32::MIN] {
        let b = encode_pid_le(x);
        assert_eq!(b.len(), 4);
        assert_eq!(decode_pid_le(&b), x);
    }
}

#[test]
fn length_prefix_framing() {
    let payload: Vec<u8> = b"/some/rootfs".to_vec();
    let framed = encode_length_prefixed(&payload);
    assert_eq!(framed.len(), 8 + payload.len());
    assert_eq!(&framed[0..8], &[12, 0, 0, 0, 0, 0, 0, 0]);
    assert_eq!(&framed[8..], payload.as_slice());
}

#[test]
fn prestart_ack_check() {
    assert!(check_prestart_ack(MSG_ACK_PRESTART_HOOKS).is_ok());
    assert_eq!(check_prestart_ack(MSG_ALIVE).unwrap_err(), ProtocolError::UnexpectedByte);
}

#[test]
fn fifo_release_byte() {
    assert!(runh::fifo_byte_ok(0));
    assert!(!runh::fifo_byte_ok(1));
    assert!(!runh::fifo_byte_ok(0xFF));
}
