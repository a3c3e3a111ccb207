//! Keepalive driver: interval clamping, the failure cascade, and the
//! heartbeat body.

use std::time::Duration;
use futu::keepalive::clamp_interval_secs;
use futu::keepalive::encode_keepalive_request;
use futu::keepalive::KeepaliveState;
use futu::keepalive::KeepaliveStep;
use futu::keepalive::KEEPALIVE_MAX_FAILURES;
use futu::keepalive::PROTO_ID_KEEP_ALIVE;

fn read_varint(b: &[u8], pos: usize) -> (u64, usize) {
    let mut value: u64 = 0;
    let mut shift = 0;
    let mut p = pos;
    loop {
        let byte = b[p];
        value |= ((byte & 0x7f) as u64) << shift;
        p += 1;
        if byte < 0x80 {
            return (value, p);
        }
        shift += 7;
    }
}

#[test]
fn keepalive_test_proto_id_constant() {
    assert_eq!(PROTO_ID_KEEP_ALIVE, 1004);
}

#[test]
fn test_keepalive_request_encode_decode() {
    let encoded = encode_keepalive_request(1718400000);
    // Field 1, length-delimited: the sub-record.
    let (key, p) = read_varint(&encoded, 0);
    assert_eq!(key, (1 << 3) | 2);
    let (len, p) = read_varint(&encoded, p);
    assert_eq!(p + len as usize, encoded.len());
    // Inside: field 1, varint: the timestamp.
    let (inner_key, p) = read_varint(&encoded, p);
    assert_eq!(inner_key, 1 << 3);
    let (time, p) = read_varint(&encoded, p);
    assert_eq!(time, 1718400000);
    assert_eq!(p, encoded.len());
}

#[test]
fn keepalive_body_carries_negative_time() {
    // A pre-epoch clock still encodes: ten bytes of sign extension.
    let encoded = encode_keepalive_request(-1);
    let (_, p) = read_varint(&encoded, 0);
    let (_, p) = read_varint(&encoded, p);
    let (_, p) = read_varint(&encoded, p);
    let (time, _) = read_varint(&encoded, p);
    assert_eq!(time, u64::MAX);
}

#[test]
fn test_interval_minimum_clamp() {
    assert_eq!(Duration::from_secs(clamp_interval_secs(0)), Duration::from_secs(1));
    assert_eq!(Duration::from_secs(clamp_interval_secs(-5)), Duration::from_secs(1));
    assert_eq!(Duration::from_secs(clamp_interval_secs(10)), Duration::from_secs(10));
}

#[test]
fn three_consecutive_failures_terminate() {
    let mut state = KeepaliveState::new();
    assert_eq!(state.record_send(false), KeepaliveStep::Continue);
    assert_eq!(state.record_send(false), KeepaliveStep::Continue);
    assert_eq!(state.record_send(false), KeepaliveStep::Terminate);
    assert_eq!(state.consecutive_failures, KEEPALIVE_MAX_FAILURES);
}

#[test]
fn success_resets_the_failure_count() {
    let mut state = KeepaliveState::new();
    assert_eq!(state.record_send(false), KeepaliveStep::Continue);
    assert_eq!(state.record_send(false), KeepaliveStep::Continue);
    assert_eq!(state.record_send(true), KeepaliveStep::Continue);
    assert_eq!(state.consecutive_failures, 0);
    // The cascade starts over after the successful send.
    assert_eq!(state.record_send(false), KeepaliveStep::Continue);
    assert_eq!(state.record_send(false), KeepaliveStep::Continue);
    assert_eq!(state.record_send(false), KeepaliveStep::Terminate);
}
