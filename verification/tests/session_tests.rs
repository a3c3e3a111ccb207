//! Connection state: serial numbers, outbound encryption, inbound
//! decryption and the mid-session plaintext downgrade.

use futu::codec::FutuMessage;
use futu::session::ConnectionError;
use futu::session::ConnectionState;

fn frame(proto_id: u32, serial_no: u32, body: Vec<u8>) -> FutuMessage {
    FutuMessage {
        proto_id,
        serial_no,
        body,
    }
}

#[test]
fn serial_numbers_start_at_one_and_grow() {
    let mut state = ConnectionState::new();
    let s1 = state.next_serial();
    let s2 = state.next_serial();
    let s3 = state.next_serial();
    assert_eq!(s1, 1);
    assert_eq!(s2, 2);
    assert_eq!(s3, 3);
    assert!(s1 >= 1 && s1 < s2 && s2 < s3);
}

#[test]
fn plaintext_passthrough_without_cipher() {
    let mut state = ConnectionState::new();
    let sent = state.prepare_send(b"as is");
    assert_eq!(sent, b"as is");
    let got = state.process_inbound(frame(3004, 9, b"reply".to_vec())).unwrap();
    assert_eq!(got.body, b"reply");
}

#[test]
fn encrypted_send_and_receive_round_trip() {
    let mut state = ConnectionState::new();
    state.set_cipher(&[0x2Au8; 16]);
    let wire_body = state.prepare_send(b"order data");
    assert_eq!(wire_body.len() % 16, 0);
    assert_ne!(wire_body, b"order data");
    let got = state.process_inbound(frame(2202, 5, wire_body)).unwrap();
    assert_eq!(got.proto_id, 2202);
    assert_eq!(got.serial_no, 5);
    assert_eq!(got.body, b"order data");
}

#[test]
fn encryption_downgrade_on_unaligned_body() {
    let mut state = ConnectionState::new();
    state.set_cipher(&[0x01u8; 16]);
    // A 13-byte body cannot be AES-ECB output: the gateway is speaking
    // plaintext, so the cipher is dropped...
    let body13: Vec<u8> = (0..13).collect();
    let got = state.process_inbound(frame(3005, 0, body13.clone())).unwrap();
    assert_eq!(got.body, body13);
    // ...and later frames pass through unmodified, even block-aligned ones.
    let body16 = vec![0x55u8; 16];
    let got2 = state.process_inbound(frame(3005, 0, body16.clone())).unwrap();
    assert_eq!(got2.body, body16);
    // Sends are now plaintext too.
    assert_eq!(state.prepare_send(b"plain"), b"plain");
}

#[test]
fn empty_body_never_touches_the_cipher() {
    let mut state = ConnectionState::new();
    state.set_cipher(&[0x01u8; 16]);
    let got = state.process_inbound(frame(1004, 2, Vec::new())).unwrap();
    assert!(got.body.is_empty());
    // The cipher stays active: an aligned garbage body now fails to decrypt.
    let got2 = state.process_inbound(frame(1004, 3, vec![0u8; 16]));
    assert!(matches!(got2, Err(ConnectionError::Decryption(_))));
}

#[test]
fn conn_id_is_stored_and_read_back() {
    let mut state = ConnectionState::new();
    assert_eq!(state.conn_id(), 0);
    state.set_conn_id(424242);
    assert_eq!(state.conn_id(), 424242);
}
