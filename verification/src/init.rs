//! The handshake: building the InitConnect request body, reading the reply
//! body, and the decisions the lifecycle takes on it (proto check, server
//! return code, cipher installation).  Sending and receiving the frames
//! happens outside the library.

use vstd::prelude::*;
use vstd::string::StringExecFns;
use crate::codec::FutuMessage;
use crate::session::ConnectionError;
use crate::wire::read_varint;
use crate::wire::sp_varint;
use crate::wire::spec_len_field;
use crate::wire::spec_varint_field;
use crate::wire::spec_wire64_of_i32;
use crate::wire::wire64_of_i32;
use crate::wire::write_len_field;
use crate::wire::write_varint_field;

verus! {

/// Proto id of the InitConnect handshake exchange.
pub const PROTO_ID_INIT_CONNECT: u32 = 1001;

/// Proto id of the global-state query.
pub const PROTO_ID_GET_GLOBAL_STATE: u32 = 1002;

/// The programming-language tag the request advertises, as UTF-8 bytes.
pub open spec fn spec_language_tag() -> Seq<u8> {
    seq![82u8, 117u8, 115u8, 116u8]
}

/// The handshake sub-record: client version, client id, the
/// receive-notifications flag, the encryption selector (0 asks for
/// AES-ECB, -1 for none), the push format selector (0, tagged fields),
/// and the language tag.
pub open spec fn spec_init_c2s(client_ver: i32, client_id: Seq<u8>, enable_encryption: bool) -> Seq<
    u8,
> {
    spec_varint_field(1, spec_wire64_of_i32(client_ver)) + spec_len_field(2, client_id)
        + spec_varint_field(3, 1) + spec_varint_field(
        4,
        if enable_encryption {
            0u64
        } else {
            spec_wire64_of_i32(-1i32)
        },
    ) + spec_varint_field(5, 0) + spec_len_field(6, spec_language_tag())
}

/// The full request body: the sub-record as its first field.
pub open spec fn spec_init_request_body(
    client_ver: i32,
    client_id: Seq<u8>,
    enable_encryption: bool,
) -> Seq<u8> {
    spec_len_field(1, spec_init_c2s(client_ver, client_id, enable_encryption))
}

/// Build the InitConnect request body.
pub fn encode_init_request(client_ver: i32, client_id: &[u8], enable_encryption: bool) -> (r: Vec<
    u8,
>)
    requires
        client_id@.len() <= u64::MAX,
    ensures
        r@ == spec_init_request_body(client_ver, client_id@, enable_encryption),
{
    let mut c2s: Vec<u8> = Vec::new();
    write_varint_field(&mut c2s, 1, wire64_of_i32(client_ver));
    write_len_field(&mut c2s, 2, client_id);
    write_varint_field(&mut c2s, 3, 1);
    let enc_algo: u64 = if enable_encryption {
        0
    } else {
        wire64_of_i32(-1i32)
    };
    write_varint_field(&mut c2s, 4, enc_algo);
    write_varint_field(&mut c2s, 5, 0);
    let tag: Vec<u8> = vec![82u8, 117u8, 115u8, 116u8];
    assert(tag@ =~= spec_language_tag());
    let tag_len = tag.len();
    assert(tag@.len() == tag_len <= u64::MAX);
    write_len_field(&mut c2s, 6, tag.as_slice());
    assert(c2s@ =~= spec_init_c2s(client_ver, client_id@, enable_encryption));
    let c2s_len = c2s.len();
    assert(c2s@.len() == c2s_len <= u64::MAX);
    let mut out: Vec<u8> = Vec::new();
    write_len_field(&mut out, 1, c2s.as_slice());
    out
}

/// A varint read back as a signed 32-bit value.  The wire carries signed
/// 32-bit integers sign-extended to 64 bits, so exactly the values in
/// `0 ..= i32::MAX` and `2^64 - 2^31 ..= 2^64 - 1` are images of an i32;
/// anything else makes the field malformed.
pub open spec fn sp_i32_of_varint(v: nat) -> Option<i32> {
    if v <= 0x7fff_ffff {
        Some(v as i32)
    } else if 0xffff_ffff_8000_0000 <= v <= 0xffff_ffff_ffff_ffff {
        Some((v - 0x1_0000_0000_0000_0000) as i32)
    } else {
        None
    }
}

/// A varint read back as an unsigned 64-bit value.
pub open spec fn sp_u64_of_varint(v: nat) -> Option<u64> {
    if v <= 0xffff_ffff_ffff_ffff {
        Some(v as u64)
    } else {
        None
    }
}

/// Read a 64-bit varint value back as a signed 32-bit value.
fn i32_of_varint(v: u64) -> (r: Option<i32>)
    ensures
        r == sp_i32_of_varint(v as nat),
{
    if v <= 0x7fff_ffff {
        Some(v as i32)
    } else if v >= 0xffff_ffff_8000_0000 {
        let dist = (u64::MAX - v) as i64;
        let neg: i64 = -(dist + 1);
        assert(neg == v as int - 0x1_0000_0000_0000_0000);
        Some(neg as i32)
    } else {
        None
    }
}

/// The sub-record of a successful handshake reply, as parsed off the wire:
/// numeric fields and the raw key bytes.  Missing fields keep their
/// defaults (zero, empty).
pub struct InitS2c {
    pub server_ver: i32,
    pub login_user_id: u64,
    pub conn_id: u64,
    pub conn_aes_key: Vec<u8>,
    pub keep_alive_interval: i32,
}

/// Mathematical image of `InitS2c`.
pub struct InitS2cView {
    pub server_ver: i32,
    pub login_user_id: u64,
    pub conn_id: u64,
    pub conn_aes_key: Seq<u8>,
    pub keep_alive_interval: i32,
}

impl View for InitS2c {
    type V = InitS2cView;

    open spec fn view(&self) -> InitS2cView {
        InitS2cView {
            server_ver: self.server_ver,
            login_user_id: self.login_user_id,
            conn_id: self.conn_id,
            conn_aes_key: self.conn_aes_key@,
            keep_alive_interval: self.keep_alive_interval,
        }
    }
}

/// Parse the sub-record's fields from `pos` on, folding them into `acc`:
/// server version (1), login user id (2), connection id (3), the session
/// key (4) and the keepalive interval (5); unknown fields are skipped.
/// `None` on truncated or out-of-range input.
pub open spec fn sp_parse_s2c(b: Seq<u8>, pos: int, acc: InitS2cView) -> Option<InitS2cView>
    decreases b.len() - pos,
{
    if pos == b.len() {
        Some(acc)
    } else if pos < 0 || pos > b.len() {
        None
    } else {
        match sp_varint(b, pos) {
            None => None,
            Some((key, p)) => {
                if key > u64::MAX || !(pos < p <= b.len()) {
                    None
                } else {
                    let field = key / 8;
                    let wt = key % 8;
                    if wt == 0 {
                        match sp_varint(b, p) {
                            None => None,
                            Some((v, p2)) => {
                                if v > u64::MAX || !(p < p2 <= b.len()) {
                                    None
                                } else if field == 1 {
                                    match sp_i32_of_varint(v) {
                                        None => None,
                                        Some(x) => sp_parse_s2c(
                                            b,
                                            p2,
                                            InitS2cView { server_ver: x, ..acc },
                                        ),
                                    }
                                } else if field == 2 {
                                    match sp_u64_of_varint(v) {
                                        None => None,
                                        Some(x) => sp_parse_s2c(
                                            b,
                                            p2,
                                            InitS2cView { login_user_id: x, ..acc },
                                        ),
                                    }
                                } else if field == 3 {
                                    match sp_u64_of_varint(v) {
                                        None => None,
                                        Some(x) => sp_parse_s2c(
                                            b,
                                            p2,
                                            InitS2cView { conn_id: x, ..acc },
                                        ),
                                    }
                                } else if field == 5 {
                                    match sp_i32_of_varint(v) {
                                        None => None,
                                        Some(x) => sp_parse_s2c(
                                            b,
                                            p2,
                                            InitS2cView { keep_alive_interval: x, ..acc },
                                        ),
                                    }
                                } else {
                                    sp_parse_s2c(b, p2, acc)
                                }
                            },
                        }
                    } else if wt == 2 {
                        match sp_varint(b, p) {
                            None => None,
                            Some((len, p2)) => {
                                if !(p < p2 <= b.len()) || len > b.len() - p2 {
                                    None
                                } else {
                                    let end = p2 + len;
                                    if field == 4 {
                                        sp_parse_s2c(
                                            b,
                                            end,
                                            InitS2cView { conn_aes_key: b.subrange(p2, end), ..acc },
                                        )
                                    } else {
                                        sp_parse_s2c(b, end, acc)
                                    }
                                }
                            },
                        }
                    } else if wt == 1 {
                        if b.len() - p >= 8 {
                            sp_parse_s2c(b, p + 8, acc)
                        } else {
                            None
                        }
                    } else if wt == 5 {
                        if b.len() - p >= 4 {
                            sp_parse_s2c(b, p + 4, acc)
                        } else {
                            None
                        }
                    } else {
                        None
                    }
                }
            },
        }
    }
}

/// Exec mirror of `sp_parse_s2c`.
fn parse_s2c_fields(b: &[u8], pos: usize, acc: InitS2c) -> (r: Option<InitS2c>)
    requires
        pos <= b@.len(),
    ensures
        match r {
            Some(s) => sp_parse_s2c(b@, pos as int, acc@) == Some(s@),
            None => sp_parse_s2c(b@, pos as int, acc@) is None,
        },
    decreases b@.len() - pos,
{
    if pos == b.len() {
        return Some(acc);
    }
    match read_varint(b, pos) {
        None => None,
        Some((key, p)) => {
            proof {
                crate::wire::lemma_sp_varint_advances(b@, pos as int);
            }
            let field = key / 8;
            let wt = key % 8;
            if wt == 0 {
                match read_varint(b, p) {
                    None => None,
                    Some((v, p2)) => {
                        proof {
                            crate::wire::lemma_sp_varint_advances(b@, p as int);
                        }
                        if field == 1 {
                            match i32_of_varint(v) {
                                None => None,
                                Some(x) => parse_s2c_fields(
                                    b,
                                    p2,
                                    InitS2c { server_ver: x, ..acc },
                                ),
                            }
                        } else if field == 2 {
                            parse_s2c_fields(b, p2, InitS2c { login_user_id: v, ..acc })
                        } else if field == 3 {
                            parse_s2c_fields(b, p2, InitS2c { conn_id: v, ..acc })
                        } else if field == 5 {
                            match i32_of_varint(v) {
                                None => None,
                                Some(x) => parse_s2c_fields(
                                    b,
                                    p2,
                                    InitS2c { keep_alive_interval: x, ..acc },
                                ),
                            }
                        } else {
                            parse_s2c_fields(b, p2, acc)
                        }
                    },
                }
            } else if wt == 2 {
                match read_varint(b, p) {
                    None => None,
                    Some((len, p2)) => {
                        proof {
                            crate::wire::lemma_sp_varint_advances(b@, p as int);
                        }
                        if len > (b.len() - p2) as u64 {
                            None
                        } else {
                            let end = p2 + len as usize;
                            if field == 4 {
                                let key_bytes = vstd::slice::slice_to_vec(
                                    vstd::slice::slice_subrange(b, p2, end),
                                );
                                parse_s2c_fields(b, end, InitS2c { conn_aes_key: key_bytes, ..acc })
                            } else {
                                parse_s2c_fields(b, end, acc)
                            }
                        }
                    },
                }
            } else if wt == 1 {
                if b.len() - p >= 8 {
                    parse_s2c_fields(b, p + 8, acc)
                } else {
                    None
                }
            } else if wt == 5 {
                if b.len() - p >= 4 {
                    parse_s2c_fields(b, p + 4, acc)
                } else {
                    None
                }
            } else {
                None
            }
        },
    }
}

/// Parse a whole sub-record body.
pub fn parse_init_s2c(b: &[u8]) -> (r: Option<InitS2c>)
    ensures
        match r {
            Some(s) => sp_parse_s2c(b@, 0, sp_s2c_default()) == Some(s@),
            None => sp_parse_s2c(b@, 0, sp_s2c_default()) is None,
        },
{
    parse_s2c_fields(
        b,
        0,
        InitS2c {
            server_ver: 0,
            login_user_id: 0,
            conn_id: 0,
            conn_aes_key: Vec::new(),
            keep_alive_interval: 0,
        },
    )
}

/// The sub-record before any field was read: zeros and an empty key.
pub open spec fn sp_s2c_default() -> InitS2cView {
    InitS2cView {
        server_ver: 0,
        login_user_id: 0,
        conn_id: 0,
        conn_aes_key: Seq::empty(),
        keep_alive_interval: 0,
    }
}

/// The top level of the handshake reply, as parsed off the wire: the
/// return code (1), the optional message (2) and the optional sub-record
/// bytes (4).
pub struct InitResponseRaw {
    pub ret_type: i32,
    pub ret_msg: Option<Vec<u8>>,
    pub s2c: Option<Vec<u8>>,
}

/// Mathematical image of `InitResponseRaw`.
pub struct InitResponseRawView {
    pub ret_type: i32,
    pub ret_msg: Option<Seq<u8>>,
    pub s2c: Option<Seq<u8>>,
}

impl View for InitResponseRaw {
    type V = InitResponseRawView;

    open spec fn view(&self) -> InitResponseRawView {
        InitResponseRawView {
            ret_type: self.ret_type,
            ret_msg: match self.ret_msg {
                Some(ref v) => Some(v@),
                None => None,
            },
            s2c: match self.s2c {
                Some(ref v) => Some(v@),
                None => None,
            },
        }
    }
}

/// Parse the reply's top-level fields from `pos` on, folding them into
/// `acc`; unknown fields are skipped.  `None` on truncated or
/// out-of-range input.
pub open spec fn sp_parse_response(b: Seq<u8>, pos: int, acc: InitResponseRawView) -> Option<
    InitResponseRawView,
>
    decreases b.len() - pos,
{
    if pos == b.len() {
        Some(acc)
    } else if pos < 0 || pos > b.len() {
        None
    } else {
        match sp_varint(b, pos) {
            None => None,
            Some((key, p)) => {
                if key > u64::MAX || !(pos < p <= b.len()) {
                    None
                } else {
                    let field = key / 8;
                    let wt = key % 8;
                    if wt == 0 {
                        match sp_varint(b, p) {
                            None => None,
                            Some((v, p2)) => {
                                if v > u64::MAX || !(p < p2 <= b.len()) {
                                    None
                                } else if field == 1 {
                                    match sp_i32_of_varint(v) {
                                        None => None,
                                        Some(x) => sp_parse_response(
                                            b,
                                            p2,
                                            InitResponseRawView { ret_type: x, ..acc },
                                        ),
                                    }
                                } else {
                                    sp_parse_response(b, p2, acc)
                                }
                            },
                        }
                    } else if wt == 2 {
                        match sp_varint(b, p) {
                            None => None,
                            Some((len, p2)) => {
                                if !(p < p2 <= b.len()) || len > b.len() - p2 {
                                    None
                                } else {
                                    let end = p2 + len;
                                    if field == 2 {
                                        sp_parse_response(
                                            b,
                                            end,
                                            InitResponseRawView {
                                                ret_msg: Some(b.subrange(p2, end)),
                                                ..acc
                                            },
                                        )
                                    } else if field == 4 {
                                        sp_parse_response(
                                            b,
                                            end,
                                            InitResponseRawView {
                                                s2c: Some(b.subrange(p2, end)),
                                                ..acc
                                            },
                                        )
                                    } else {
                                        sp_parse_response(b, end, acc)
                                    }
                                }
                            },
                        }
                    } else if wt == 1 {
                        if b.len() - p >= 8 {
                            sp_parse_response(b, p + 8, acc)
                        } else {
                            None
                        }
                    } else if wt == 5 {
                        if b.len() - p >= 4 {
                            sp_parse_response(b, p + 4, acc)
                        } else {
                            None
                        }
                    } else {
                        None
                    }
                }
            },
        }
    }
}

/// Exec mirror of `sp_parse_response`.
fn parse_response_fields(b: &[u8], pos: usize, acc: InitResponseRaw) -> (r: Option<InitResponseRaw>)
    requires
        pos <= b@.len(),
    ensures
        match r {
            Some(s) => sp_parse_response(b@, pos as int, acc@) == Some(s@),
            None => sp_parse_response(b@, pos as int, acc@) is None,
        },
    decreases b@.len() - pos,
{
    if pos == b.len() {
        return Some(acc);
    }
    match read_varint(b, pos) {
        None => None,
        Some((key, p)) => {
            proof {
                crate::wire::lemma_sp_varint_advances(b@, pos as int);
            }
            let field = key / 8;
            let wt = key % 8;
            if wt == 0 {
                match read_varint(b, p) {
                    None => None,
                    Some((v, p2)) => {
                        proof {
                            crate::wire::lemma_sp_varint_advances(b@, p as int);
                        }
                        if field == 1 {
                            match i32_of_varint(v) {
                                None => None,
                                Some(x) => parse_response_fields(
                                    b,
                                    p2,
                                    InitResponseRaw { ret_type: x, ..acc },
                                ),
                            }
                        } else {
                            parse_response_fields(b, p2, acc)
                        }
                    },
                }
            } else if wt == 2 {
                match read_varint(b, p) {
                    None => None,
                    Some((len, p2)) => {
                        proof {
                            crate::wire::lemma_sp_varint_advances(b@, p as int);
                        }
                        if len > (b.len() - p2) as u64 {
                            None
                        } else {
                            let end = p2 + len as usize;
                            if field == 2 {
                                let bytes = vstd::slice::slice_to_vec(
                                    vstd::slice::slice_subrange(b, p2, end),
                                );
                                parse_response_fields(
                                    b,
                                    end,
                                    InitResponseRaw { ret_msg: Some(bytes), ..acc },
                                )
                            } else if field == 4 {
                                let bytes = vstd::slice::slice_to_vec(
                                    vstd::slice::slice_subrange(b, p2, end),
                                );
                                parse_response_fields(
                                    b,
                                    end,
                                    InitResponseRaw { s2c: Some(bytes), ..acc },
                                )
                            } else {
                                parse_response_fields(b, end, acc)
                            }
                        }
                    },
                }
            } else if wt == 1 {
                if b.len() - p >= 8 {
                    parse_response_fields(b, p + 8, acc)
                } else {
                    None
                }
            } else if wt == 5 {
                if b.len() - p >= 4 {
                    parse_response_fields(b, p + 4, acc)
                } else {
                    None
                }
            } else {
                None
            }
        },
    }
}

/// The reply before any field was read.
pub open spec fn sp_response_default() -> InitResponseRawView {
    InitResponseRawView { ret_type: 0, ret_msg: None, s2c: None }
}

/// Parse a whole handshake reply body.
pub fn parse_init_response(b: &[u8]) -> (r: Option<InitResponseRaw>)
    ensures
        match r {
            Some(s) => sp_parse_response(b@, 0, sp_response_default()) == Some(s@),
            None => sp_parse_response(b@, 0, sp_response_default()) is None,
        },
{
    parse_response_fields(b, 0, InitResponseRaw { ret_type: 0, ret_msg: None, s2c: None })
}

/// The text decoded from a byte sequence when it is valid UTF-8, as
/// `String::from_utf8` computes it; nothing when it is not.
pub uninterp spec fn utf8_decoded(bytes: Seq<u8>) -> Option<Seq<char>>;

/// Relies on `String::from_utf8`: succeeds exactly on valid UTF-8, and the
/// decoded text is a function of the bytes alone.
#[verifier::external_body]
fn bytes_to_string(b: Vec<u8>) -> (r: Option<String>)
    ensures
        match r {
            Some(s) => utf8_decoded(b@) == Some(s@),
            None => utf8_decoded(b@) is None,
        },
{
    String::from_utf8(b).ok()
}

/// The handshake reply's payload.
#[derive(Debug, Clone)]
pub struct InitConnectResponse {
    pub server_ver: i32,
    pub login_user_id: u64,
    pub conn_id: u64,
    pub conn_aes_key: String,
    pub keep_alive_interval: i32,
}

#[derive(Debug)]
pub enum InitError {
    Connection(ConnectionError),
    UnexpectedProto(u32),
    Decode(String),
    ServerError { ret_type: i32, msg: String },
    MissingS2C,
}

/// What the lifecycle concludes from a handshake reply frame.
pub enum HandshakeCheck {
    /// The reply's proto id is not the request's.
    WrongProto(u32),
    /// The body, or a text field in it, cannot be read.
    Malformed,
    /// The gateway rejected the handshake (non-zero return code).
    Rejected { ret_type: i32, msg: Seq<char> },
    /// A success reply without the mandatory sub-record.
    NoS2c,
    /// A valid success reply: the parsed sub-record, and the cipher key to
    /// install when encryption was requested and the key has 16 bytes.
    Accepted { s2c: InitS2cView, key_text: Seq<char>, cipher_key: Option<Seq<u8>> },
}

/// The full judgement of a handshake reply frame: proto id first, then
/// the body's fields, then every text field, then the return code, then
/// the sub-record's presence.  The cipher key is installed exactly when
/// encryption was requested and the returned key has exactly 16 bytes; a
/// key of any other length downgrades to plaintext without failing.
pub open spec fn sp_validate_init_reply(f: crate::codec::FrameView, enable_encryption: bool) -> HandshakeCheck {
    if f.proto_id != PROTO_ID_INIT_CONNECT {
        HandshakeCheck::WrongProto(f.proto_id)
    } else {
        match sp_parse_response(f.body, 0, sp_response_default()) {
            None => HandshakeCheck::Malformed,
            Some(resp) => {
                let msg_text = match resp.ret_msg {
                    Some(bytes) => utf8_decoded(bytes),
                    None => Some(Seq::empty()),
                };
                if msg_text is None {
                    HandshakeCheck::Malformed
                } else {
                    match resp.s2c {
                        Some(s2c_bytes) => match sp_parse_s2c(s2c_bytes, 0, sp_s2c_default()) {
                            None => HandshakeCheck::Malformed,
                            Some(s2c) => match utf8_decoded(s2c.conn_aes_key) {
                                None => HandshakeCheck::Malformed,
                                Some(key_text) => {
                                    if resp.ret_type != 0 {
                                        HandshakeCheck::Rejected {
                                            ret_type: resp.ret_type,
                                            msg: msg_text.unwrap(),
                                        }
                                    } else {
                                        HandshakeCheck::Accepted {
                                            s2c,
                                            key_text,
                                            cipher_key: if enable_encryption
                                                && s2c.conn_aes_key.len() == 16 {
                                                Some(s2c.conn_aes_key)
                                            } else {
                                                None
                                            },
                                        }
                                    }
                                },
                            },
                        },
                        None => {
                            if resp.ret_type != 0 {
                                HandshakeCheck::Rejected {
                                    ret_type: resp.ret_type,
                                    msg: msg_text.unwrap(),
                                }
                            } else {
                                HandshakeCheck::NoS2c
                            }
                        },
                    }
                }
            },
        }
    }
}

/// Judge a handshake reply frame.  On acceptance, returns the response
/// record and the cipher key to install, if any; each error comes exactly
/// when `sp_validate_init_reply` says it does.
pub fn validate_init_reply(msg: &FutuMessage, enable_encryption: bool) -> (r: Result<
    (InitConnectResponse, Option<Vec<u8>>),
    InitError,
>)
    ensures
        match r {
            Ok((resp, cipher_key)) => sp_validate_init_reply(msg@, enable_encryption)
                matches HandshakeCheck::Accepted { s2c, key_text, cipher_key: ck } && {
                &&& resp.server_ver == s2c.server_ver
                &&& resp.login_user_id == s2c.login_user_id
                &&& resp.conn_id == s2c.conn_id
                &&& resp.conn_aes_key@ == key_text
                &&& resp.keep_alive_interval == s2c.keep_alive_interval
                &&& match cipher_key {
                    Some(k) => ck == Some(k@) && k@.len() == 16,
                    None => ck is None,
                }
            },
            Err(InitError::UnexpectedProto(p)) => sp_validate_init_reply(msg@, enable_encryption)
                == HandshakeCheck::WrongProto(p),
            Err(InitError::Decode(_)) => sp_validate_init_reply(msg@, enable_encryption)
                is Malformed,
            Err(InitError::ServerError { ret_type, msg: m }) => sp_validate_init_reply(
                msg@,
                enable_encryption,
            ) matches HandshakeCheck::Rejected { ret_type: rt, msg: mt } && ret_type == rt && m@
                == mt,
            Err(InitError::MissingS2C) => sp_validate_init_reply(msg@, enable_encryption) is NoS2c,
            Err(InitError::Connection(_)) => false,
        },
{
    if msg.proto_id != PROTO_ID_INIT_CONNECT {
        return Err(InitError::UnexpectedProto(msg.proto_id));
    }
    let resp = match parse_init_response(msg.body.as_slice()) {
        Some(r) => r,
        None => {
            return Err(InitError::Decode(decode_error_text()));
        },
    };
    let msg_text: String = match resp.ret_msg {
        Some(bytes) => match bytes_to_string(bytes) {
            Some(s) => s,
            None => {
                return Err(InitError::Decode(decode_error_text()));
            },
        },
        None => String::new(),
    };
    match resp.s2c {
        Some(s2c_bytes) => {
            let s2c = match parse_init_s2c(s2c_bytes.as_slice()) {
                Some(s) => s,
                None => {
                    return Err(InitError::Decode(decode_error_text()));
                },
            };
            let key_len = s2c.conn_aes_key.len();
            let ghost key_bytes = s2c.conn_aes_key@;
            let cipher_key: Option<Vec<u8>> = if enable_encryption && key_len == 16 {
                let mut k: Vec<u8> = Vec::new();
                k.extend_from_slice(s2c.conn_aes_key.as_slice());
                proof {
                    assert(k@ =~= key_bytes);
                }
                Some(k)
            } else {
                None
            };
            let key_text = match bytes_to_string(s2c.conn_aes_key) {
                Some(s) => s,
                None => {
                    return Err(InitError::Decode(decode_error_text()));
                },
            };
            if resp.ret_type != 0 {
                return Err(InitError::ServerError { ret_type: resp.ret_type, msg: msg_text });
            }
            Ok(
                (
                    InitConnectResponse {
                        server_ver: s2c.server_ver,
                        login_user_id: s2c.login_user_id,
                        conn_id: s2c.conn_id,
                        conn_aes_key: key_text,
                        keep_alive_interval: s2c.keep_alive_interval,
                    },
                    cipher_key,
                ),
            )
        },
        None => {
            if resp.ret_type != 0 {
                return Err(InitError::ServerError { ret_type: resp.ret_type, msg: msg_text });
            }
            Err(InitError::MissingS2C)
        },
    }
}

/// The text carried by a `Decode` error.
fn decode_error_text() -> (r: String) {
    String::from_str("invalid handshake body")
}

} // verus!
