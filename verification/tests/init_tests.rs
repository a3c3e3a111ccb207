//! Handshake: request body layout, reply parsing, the reply judgement,
//! and init idempotence.

use futu::client::ClientCore;
use futu::codec::FutuMessage;
use futu::init::encode_init_request;
use futu::init::parse_init_response;
use futu::init::parse_init_s2c;
use futu::init::validate_init_reply;
use futu::init::InitConnectResponse;
use futu::init::InitError;
use futu::init::PROTO_ID_GET_GLOBAL_STATE;
use futu::init::PROTO_ID_INIT_CONNECT;
use futu::wire::wire64_of_i32;
use futu::wire::write_len_field;
use futu::wire::write_varint_field;

fn read_varint(b: &[u8], pos: usize) -> (u64, usize) {
    let mut value: u64 = 0;
    let mut shift = 0;
    let mut p = pos;
    loop {
        let byte = b[p];
        value |= ((byte & 0x7f) as u64) << shift;
        p += 1;
        if byte < 0x80 {
            return (value, p);
        }
        shift += 7;
    }
}

fn read_field(b: &[u8], pos: usize) -> (u64, u64, Option<Vec<u8>>, usize) {
    let (key, p) = read_varint(b, pos);
    let field = key >> 3;
    match key & 7 {
        0 => {
            let (v, p) = read_varint(b, p);
            (field, v, None, p)
        }
        2 => {
            let (len, p) = read_varint(b, p);
            let end = p + len as usize;
            (field, 0, Some(b[p..end].to_vec()), end)
        }
        wt => panic!("unexpected wire type {}", wt),
    }
}

fn frame(proto_id: u32, serial_no: u32, body: Vec<u8>) -> FutuMessage {
    FutuMessage {
        proto_id,
        serial_no,
        body,
    }
}

fn success_reply_body(aes_key: &[u8], keep_alive_interval: i32) -> Vec<u8> {
    let mut s2c: Vec<u8> = Vec::new();
    write_varint_field(&mut s2c, 1, wire64_of_i32(500));
    write_varint_field(&mut s2c, 2, 12345);
    write_varint_field(&mut s2c, 3, 99);
    write_len_field(&mut s2c, 4, aes_key);
    write_varint_field(&mut s2c, 5, wire64_of_i32(keep_alive_interval));
    let mut body: Vec<u8> = Vec::new();
    write_varint_field(&mut body, 1, 0);
    write_len_field(&mut body, 2, b"success");
    write_len_field(&mut body, 4, &s2c);
    body
}

#[test]
fn init_test_proto_id_constant() {
    assert_eq!(PROTO_ID_INIT_CONNECT, 1001);
}

#[test]
fn test_get_global_state_proto_id() {
    assert_eq!(PROTO_ID_GET_GLOBAL_STATE, 1002);
}

#[test]
fn test_init_connect_request_encode_decode() {
    let encoded = encode_init_request(100, b"test_client", false);
    // The whole body is one length-delimited field: the sub-record.
    let (field, _, c2s, end) = read_field(&encoded, 0);
    assert_eq!(field, 1);
    assert_eq!(end, encoded.len());
    let c2s = c2s.unwrap();

    let (f1, client_ver, _, p) = read_field(&c2s, 0);
    assert_eq!((f1, client_ver), (1, 100));
    let (f2, _, client_id, p) = read_field(&c2s, p);
    assert_eq!(f2, 2);
    assert_eq!(client_id.unwrap(), b"test_client");
    let (f3, recv_notify, _, p) = read_field(&c2s, p);
    assert_eq!((f3, recv_notify), (3, 1));
    let (f4, enc_algo, _, p) = read_field(&c2s, p);
    assert_eq!(f4, 4);
    assert_eq!(enc_algo as i64, -1);
    let (f5, push_fmt, _, p) = read_field(&c2s, p);
    assert_eq!((f5, push_fmt), (5, 0));
    let (f6, _, language, p) = read_field(&c2s, p);
    assert_eq!(f6, 6);
    assert_eq!(language.unwrap(), b"Rust");
    assert_eq!(p, c2s.len());
}

#[test]
fn init_request_encryption_selector() {
    let encoded = encode_init_request(100, b"id", true);
    let (_, _, c2s, _) = read_field(&encoded, 0);
    let c2s = c2s.unwrap();
    let (_, _, _, p) = read_field(&c2s, 0);
    let (_, _, _, p) = read_field(&c2s, p);
    let (_, _, _, p) = read_field(&c2s, p);
    let (f4, enc_algo, _, _) = read_field(&c2s, p);
    assert_eq!(f4, 4);
    // 0 asks for AES-ECB.
    assert_eq!(enc_algo, 0);
}

#[test]
fn test_init_connect_response_success() {
    let body = success_reply_body(b"0123456789abcdef", 10);
    let decoded = parse_init_response(&body).unwrap();
    assert_eq!(decoded.ret_type, 0);
    assert_eq!(decoded.ret_msg.as_deref(), Some(b"success".as_slice()));
    let s2c = parse_init_s2c(decoded.s2c.as_deref().unwrap()).unwrap();
    assert_eq!(s2c.server_ver, 500);
    assert_eq!(s2c.login_user_id, 12345);
    assert_eq!(s2c.conn_id, 99);
    assert_eq!(s2c.conn_aes_key, b"0123456789abcdef");
    assert_eq!(s2c.keep_alive_interval, 10);
}

#[test]
fn test_init_connect_response_error() {
    let mut body: Vec<u8> = Vec::new();
    write_varint_field(&mut body, 1, wire64_of_i32(-1));
    write_len_field(&mut body, 2, b"invalid client");
    write_varint_field(&mut body, 3, 1001);
    let decoded = parse_init_response(&body).unwrap();
    assert_eq!(decoded.ret_type, -1);
    assert_eq!(decoded.ret_msg.as_deref(), Some(b"invalid client".as_slice()));
    assert!(decoded.s2c.is_none());
}

#[test]
fn validate_rejects_wrong_proto() {
    let reply = frame(1004, 1, success_reply_body(b"0123456789abcdef", 10));
    match validate_init_reply(&reply, false) {
        Err(InitError::UnexpectedProto(p)) => assert_eq!(p, 1004),
        _ => panic!("expected an unexpected-proto error"),
    }
}

#[test]
fn validate_rejects_malformed_body() {
    let reply = frame(1001, 1, vec![0xFF]);
    assert!(matches!(
        validate_init_reply(&reply, false),
        Err(InitError::Decode(_))
    ));
}

#[test]
fn validate_surfaces_server_error() {
    let mut body: Vec<u8> = Vec::new();
    write_varint_field(&mut body, 1, wire64_of_i32(-1));
    write_len_field(&mut body, 2, b"invalid client");
    let reply = frame(1001, 1, body);
    match validate_init_reply(&reply, false) {
        Err(InitError::ServerError { ret_type, msg }) => {
            assert_eq!(ret_type, -1);
            assert_eq!(msg, "invalid client");
        }
        _ => panic!("expected a server error"),
    }
}

#[test]
fn validate_requires_the_sub_record() {
    let mut body: Vec<u8> = Vec::new();
    write_varint_field(&mut body, 1, 0);
    let reply = frame(1001, 1, body);
    assert!(matches!(
        validate_init_reply(&reply, false),
        Err(InitError::MissingS2C)
    ));
}

#[test]
fn validate_installs_cipher_on_16_byte_key() {
    let reply = frame(1001, 1, success_reply_body(b"0123456789abcdef", 10));
    let (resp, key) = validate_init_reply(&reply, true).unwrap();
    assert_eq!(resp.server_ver, 500);
    assert_eq!(resp.login_user_id, 12345);
    assert_eq!(resp.conn_id, 99);
    assert_eq!(resp.conn_aes_key, "0123456789abcdef");
    assert_eq!(resp.keep_alive_interval, 10);
    assert_eq!(key.as_deref(), Some(b"0123456789abcdef".as_slice()));
}

#[test]
fn validate_skips_cipher_on_short_key() {
    // A key of any length but 16 leaves the session unencrypted.
    let reply = frame(1001, 1, success_reply_body(b"short", 10));
    let (resp, key) = validate_init_reply(&reply, true).unwrap();
    assert_eq!(resp.conn_aes_key, "short");
    assert!(key.is_none());
}

#[test]
fn validate_skips_cipher_when_not_requested() {
    let reply = frame(1001, 1, success_reply_body(b"0123456789abcdef", 10));
    let (_, key) = validate_init_reply(&reply, false).unwrap();
    assert!(key.is_none());
}

#[test]
fn init_is_idempotent_through_the_cache() {
    let mut core = ClientCore::new();
    assert!(core.cached_init().is_none());
    let resp = InitConnectResponse {
        server_ver: 500,
        login_user_id: 12345,
        conn_id: 99,
        conn_aes_key: "0123456789abcdef".to_string(),
        keep_alive_interval: 10,
    };
    core.complete_init(resp);
    // A second init finds the cached response and sends nothing.
    let first = core.cached_init().expect("cached after init").clone();
    assert_eq!(first.conn_id, 99);
    let second = core.cached_init().expect("still cached").clone();
    assert_eq!(second.server_ver, first.server_ver);
    assert_eq!(second.conn_id, first.conn_id);
    assert_eq!(second.conn_aes_key, first.conn_aes_key);
    assert_eq!(second.keep_alive_interval, first.keep_alive_interval);
}
