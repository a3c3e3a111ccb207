//! Framing codec: translate between a byte stream and a sequence of frames.

use vstd::prelude::*;
use crate::digest::sha1_bytes;
use crate::header::HEADER_SIZE;
use crate::header::MAGIC_0;
use crate::header::MAGIC_1;
use crate::header::HeaderError;
use crate::header::HeaderView;
use crate::header::PacketHeader;
use crate::header::spec_header_bytes;
use crate::header::spec_magic_ok;
use crate::header::spec_parse_header;
use vstd::bytes::u32_from_le_bytes;
use vstd::slice::slice_subrange;
use vstd::slice::slice_to_vec;

verus! {

/// Maximum allowed body size (100 MB); larger declared bodies are rejected
/// so a corrupted length field cannot exhaust memory.
pub const MAX_BODY_SIZE: u32 = 100_000_000;

/// A framed message consisting of the routing fields and the body.
#[derive(Debug, Clone)]
pub struct FutuMessage {
    pub proto_id: u32,
    pub serial_no: u32,
    pub body: Vec<u8>,
}

/// Mathematical image of a `FutuMessage`.
pub struct FrameView {
    pub proto_id: u32,
    pub serial_no: u32,
    pub body: Seq<u8>,
}

impl View for FutuMessage {
    type V = FrameView;

    open spec fn view(&self) -> FrameView {
        FrameView { proto_id: self.proto_id, serial_no: self.serial_no, body: self.body@ }
    }
}

impl FutuMessage {
    /// An exact copy of the frame: same routing fields, same body bytes.
    pub fn duplicate(&self) -> (r: FutuMessage)
        ensures
            r@ == self@,
    {
        let mut body: Vec<u8> = Vec::new();
        body.extend_from_slice(self.body.as_slice());
        proof {
            assert(body@ =~= self.body@);
        }
        FutuMessage { proto_id: self.proto_id, serial_no: self.serial_no, body }
    }
}

/// A frame the codec will accept: the body fits under the size cap.
pub open spec fn frame_wf(f: FrameView) -> bool {
    f.body.len() <= MAX_BODY_SIZE
}

/// The full wire image of a frame: 44-byte header (format and version bytes
/// zero, checksum over the body as given) followed by the body.
pub open spec fn spec_encode_frame(f: FrameView) -> Seq<u8> {
    spec_header_bytes(
        HeaderView {
            proto_id: f.proto_id,
            proto_fmt_type: 0u8,
            proto_ver: 0u8,
            serial_no: f.serial_no,
            body_len: f.body.len() as u32,
            body_sha1: sha1_bytes(f.body),
        },
    ) + f.body
}

/// What decoding the front of a buffer yields.
pub enum SpecDecoded {
    /// No complete frame yet; the buffer is left untouched.
    NeedMore,
    /// The first two bytes are not the magic.
    BadMagic,
    /// The header declares a body above `MAX_BODY_SIZE`.
    TooLarge(u32),
    /// A complete frame whose checksum does not match; header and body
    /// are consumed, `rest` remains.
    BadChecksum { proto_id: u32, serial_no: u32, rest: Seq<u8> },
    /// A complete, checksummed frame, with `rest` remaining in the buffer.
    Frame { frame: FrameView, rest: Seq<u8> },
}

/// Decode one frame from the front of `b`.
pub open spec fn spec_decode(b: Seq<u8>) -> SpecDecoded {
    if b.len() < 44 {
        SpecDecoded::NeedMore
    } else if !spec_magic_ok(b) {
        SpecDecoded::BadMagic
    } else {
        let h = spec_parse_header(b);
        if h.body_len > MAX_BODY_SIZE {
            SpecDecoded::TooLarge(h.body_len)
        } else if b.len() < 44 + h.body_len {
            SpecDecoded::NeedMore
        } else {
            let body = b.subrange(44, 44 + h.body_len);
            let rest = b.subrange(44 + h.body_len, b.len() as int);
            if h.body_sha1 == sha1_bytes(body) {
                SpecDecoded::Frame {
                    frame: FrameView { proto_id: h.proto_id, serial_no: h.serial_no, body },
                    rest,
                }
            } else {
                SpecDecoded::BadChecksum { proto_id: h.proto_id, serial_no: h.serial_no, rest }
            }
        }
    }
}

#[derive(Debug)]
pub enum CodecError {
    Header(HeaderError),
    Io(String),
    BodyTooLarge(u32),
    ChecksumMismatch { proto_id: u32, serial_no: u32 },
}

/// Codec for the length-delimited, SHA-1-checksummed wire protocol.
pub struct FutuCodec;

impl FutuCodec {
    /// Try to decode one frame from the front of `src`.  Returns `Ok(None)`
    /// and leaves `src` untouched while no complete frame is present;
    /// consumes exactly one frame otherwise.
    pub fn decode(&mut self, src: &mut Vec<u8>) -> (r: Result<Option<FutuMessage>, CodecError>)
        ensures
            ({
                let d = spec_decode(old(src)@);
                match r {
                    Ok(None) => d is NeedMore && final(src)@ == old(src)@,
                    Ok(Some(m)) => {
                        &&& d matches SpecDecoded::Frame { frame, rest } && m@ == frame
                            && final(src)@ == rest
                        &&& frame_wf(m@)
                    },
                    Err(CodecError::Header(HeaderError::InvalidMagic)) => d is BadMagic
                        && final(src)@ == old(src)@,
                    Err(CodecError::BodyTooLarge(n)) => d matches SpecDecoded::TooLarge(l) && n == l
                        && final(src)@ == old(src)@,
                    Err(CodecError::ChecksumMismatch { proto_id, serial_no }) => d
                        matches SpecDecoded::BadChecksum { proto_id: p, serial_no: s, rest }
                        && proto_id == p && serial_no == s && final(src)@ == rest,
                    _ => false,
                }
            }),
    {
        if src.len() < HEADER_SIZE {
            return Ok(None);
        }
        // Peek at the header without consuming anything.
        if src[0] != MAGIC_0 || src[1] != MAGIC_1 {
            return Err(CodecError::Header(HeaderError::InvalidMagic));
        }
        let declared_len = u32_from_le_bytes(slice_subrange(src.as_slice(), 12, 16));
        if declared_len > MAX_BODY_SIZE {
            return Err(CodecError::BodyTooLarge(declared_len));
        }
        let body_len = declared_len as usize;
        let total_len = HEADER_SIZE + body_len;
        if src.len() < total_len {
            return Ok(None);
        }
        // A full frame is present: consume the header, then the body.
        let header = match PacketHeader::decode(src) {
            Ok(h) => h,
            Err(e) => {
                return Err(CodecError::Header(e));
            },
        };
        let body = slice_to_vec(slice_subrange(src.as_slice(), 0, body_len));
        let tail = src.split_off(body_len);
        *src = tail;
        proof {
            assert(body@ =~= old(src)@.subrange(44, 44 + header@.body_len));
            assert(src@ =~= old(src)@.subrange(44 + header@.body_len, old(src)@.len() as int));
        }
        if !header.verify_body(body.as_slice()) {
            return Err(
                CodecError::ChecksumMismatch {
                    proto_id: header.proto_id,
                    serial_no: header.serial_no,
                },
            );
        }
        Ok(Some(FutuMessage { proto_id: header.proto_id, serial_no: header.serial_no, body }))
    }

    /// Append the wire image of `item` to `dst`: a header built over the
    /// body as given (callers pre-encrypt when a cipher is active), then
    /// the body itself.
    pub fn encode(&mut self, item: FutuMessage, dst: &mut Vec<u8>) -> (r: Result<(), CodecError>)
        requires
            frame_wf(item@),
            old(dst)@.len() + 44 + item@.body.len() <= usize::MAX,
        ensures
            r is Ok,
            final(dst)@ == old(dst)@ + spec_encode_frame(item@),
            final(dst)@.len() == old(dst)@.len() + 44 + item@.body.len(),
    {
        let header = PacketHeader::new(item.proto_id, item.serial_no, item.body.as_slice());
        header.encode(dst);
        dst.extend_from_slice(item.body.as_slice());
        assert(dst@ =~= old(dst)@ + spec_encode_frame(item@));
        Ok(())
    }
}

/// Encoding then decoding yields the frame back, with whatever followed it
/// in the buffer untouched: one decode step over `encode(f) + rest`
/// produces exactly `f` and leaves `rest`.
pub proof fn lemma_decode_encode(f: FrameView, rest: Seq<u8>)
    requires
        frame_wf(f),
    ensures
        spec_encode_frame(f).len() == 44 + f.body.len(),
        spec_decode(spec_encode_frame(f) + rest) == (SpecDecoded::Frame { frame: f, rest }),
{
    let h = HeaderView {
        proto_id: f.proto_id,
        proto_fmt_type: 0u8,
        proto_ver: 0u8,
        serial_no: f.serial_no,
        body_len: f.body.len() as u32,
        body_sha1: sha1_bytes(f.body),
    };
    crate::header::lemma_parse_header_bytes(h, f.body + rest);
    let b = spec_encode_frame(f) + rest;
    assert(b =~= spec_header_bytes(h) + (f.body + rest));
    assert(spec_parse_header(b) == h);
    assert(b.subrange(44, 44 + h.body_len) =~= f.body);
    assert(b.subrange(44 + h.body_len, b.len() as int) =~= rest);
}

/// Checksum tampering is caught: a buffer carrying a frame's header but a
/// body whose digest differs (one flipped byte does that, though SHA-1's
/// collision resistance lies outside this model) decodes to exactly
/// `ChecksumMismatch` with the frame's routing fields, and the corrupted
/// frame is never emitted.
pub proof fn lemma_tampered_body_is_rejected(f: FrameView, body2: Seq<u8>)
    requires
        frame_wf(f),
        body2.len() == f.body.len(),
        sha1_bytes(body2) != sha1_bytes(f.body),
    ensures
        ({
            let h = HeaderView {
                proto_id: f.proto_id,
                proto_fmt_type: 0u8,
                proto_ver: 0u8,
                serial_no: f.serial_no,
                body_len: f.body.len() as u32,
                body_sha1: sha1_bytes(f.body),
            };
            spec_decode(spec_header_bytes(h) + body2) == (SpecDecoded::BadChecksum {
                proto_id: f.proto_id,
                serial_no: f.serial_no,
                rest: Seq::<u8>::empty(),
            })
        }),
{
    let h = HeaderView {
        proto_id: f.proto_id,
        proto_fmt_type: 0u8,
        proto_ver: 0u8,
        serial_no: f.serial_no,
        body_len: f.body.len() as u32,
        body_sha1: sha1_bytes(f.body),
    };
    crate::header::lemma_parse_header_bytes(h, body2);
    let b = spec_header_bytes(h) + body2;
    assert(spec_parse_header(b) == h);
    assert(b.subrange(44, 44 + h.body_len) =~= body2);
    assert(b.subrange(44 + h.body_len, b.len() as int) =~= Seq::<u8>::empty());
}

/// Encoding then decoding a lone frame yields it back and empties the buffer.
pub proof fn lemma_decode_encode_exact(f: FrameView)
    requires
        frame_wf(f),
    ensures
        spec_decode(spec_encode_frame(f)) == (SpecDecoded::Frame {
            frame: f,
            rest: Seq::<u8>::empty(),
        }),
{
    lemma_decode_encode(f, Seq::<u8>::empty());
    assert(spec_encode_frame(f) + Seq::<u8>::empty() =~= spec_encode_frame(f));
}

/// Decoder idempotence on partial input: any strict prefix of one encoded
/// frame decodes to "need more".  (The exec decoder then leaves the buffer
/// unchanged, by its postcondition.)
pub proof fn lemma_decode_short_prefix(f: FrameView, n: int)
    requires
        frame_wf(f),
        0 <= n < spec_encode_frame(f).len(),
    ensures
        spec_decode(spec_encode_frame(f).take(n)) == SpecDecoded::NeedMore,
{
    lemma_decode_encode(f, Seq::<u8>::empty());
    let e = spec_encode_frame(f);
    let p = e.take(n);
    if n >= 44 {
        let h = HeaderView {
            proto_id: f.proto_id,
            proto_fmt_type: 0u8,
            proto_ver: 0u8,
            serial_no: f.serial_no,
            body_len: f.body.len() as u32,
            body_sha1: sha1_bytes(f.body),
        };
        crate::header::lemma_parse_header_bytes(h, f.body);
        assert(e =~= spec_header_bytes(h) + f.body);
        assert(p.subrange(2, 6) =~= e.subrange(2, 6));
        assert(p.subrange(8, 12) =~= e.subrange(8, 12));
        assert(p.subrange(12, 16) =~= e.subrange(12, 16));
        assert(p.subrange(16, 36) =~= e.subrange(16, 36));
        assert(spec_parse_header(p) == spec_parse_header(e));
        assert(spec_parse_header(e) == h);
    }
}

} // verus!
