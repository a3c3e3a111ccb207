//! The 44-byte frame header: magic, routing fields, body length and
//! body checksum, followed by 8 reserved zero bytes.

use vstd::prelude::*;
use vstd::bytes::spec_u32_from_le_bytes;
use vstd::bytes::spec_u32_to_le_bytes;
use vstd::bytes::lemma_auto_spec_u32_to_from_le_bytes;
use vstd::bytes::u32_from_le_bytes;
use vstd::bytes::u32_to_le_bytes;
use vstd::slice::slice_subrange;
use vstd::slice::slice_to_vec;
use crate::digest::sha1_bytes;
use crate::digest::body_digest;

verus! {

/// Number of bytes a header occupies on the wire.
pub const HEADER_SIZE: usize = 44;

/// First magic byte, `b'F'`.
pub const MAGIC_0: u8 = 0x46;

/// Second magic byte, `b'T'`.
pub const MAGIC_1: u8 = 0x54;

/// One decoded frame header.  `body_sha1` always holds exactly 20 bytes
/// (see `HeaderView::wf`).
#[derive(Debug, Clone)]
pub struct PacketHeader {
    pub proto_id: u32,
    pub proto_fmt_type: u8,
    pub proto_ver: u8,
    pub serial_no: u32,
    pub body_len: u32,
    pub body_sha1: Vec<u8>,
}

/// Mathematical image of a `PacketHeader`.
pub struct HeaderView {
    pub proto_id: u32,
    pub proto_fmt_type: u8,
    pub proto_ver: u8,
    pub serial_no: u32,
    pub body_len: u32,
    pub body_sha1: Seq<u8>,
}

impl HeaderView {
    /// The checksum field carries a full SHA-1 digest.
    pub open spec fn wf(self) -> bool {
        self.body_sha1.len() == 20
    }
}

impl View for PacketHeader {
    type V = HeaderView;

    open spec fn view(&self) -> HeaderView {
        HeaderView {
            proto_id: self.proto_id,
            proto_fmt_type: self.proto_fmt_type,
            proto_ver: self.proto_ver,
            serial_no: self.serial_no,
            body_len: self.body_len,
            body_sha1: self.body_sha1@,
        }
    }
}

/// The wire image of a header: magic, proto_id (LE), format byte, version
/// byte, serial_no (LE), body_len (LE), 20 checksum bytes, 8 reserved zeros.
pub open spec fn spec_header_bytes(h: HeaderView) -> Seq<u8> {
    seq![MAGIC_0, MAGIC_1] + spec_u32_to_le_bytes(h.proto_id)
        + seq![h.proto_fmt_type, h.proto_ver] + spec_u32_to_le_bytes(h.serial_no)
        + spec_u32_to_le_bytes(h.body_len) + h.body_sha1
        + seq![0u8, 0u8, 0u8, 0u8, 0u8, 0u8, 0u8, 0u8]
}

/// Do the first two bytes carry the magic?
pub open spec fn spec_magic_ok(b: Seq<u8>) -> bool
    recommends
        b.len() >= 2,
{
    b[0] == MAGIC_0 && b[1] == MAGIC_1
}

/// The header read back from the first 44 bytes of `b`.
pub open spec fn spec_parse_header(b: Seq<u8>) -> HeaderView
    recommends
        b.len() >= 44,
{
    HeaderView {
        proto_id: spec_u32_from_le_bytes(b.subrange(2, 6)),
        proto_fmt_type: b[6],
        proto_ver: b[7],
        serial_no: spec_u32_from_le_bytes(b.subrange(8, 12)),
        body_len: spec_u32_from_le_bytes(b.subrange(12, 16)),
        body_sha1: b.subrange(16, 36),
    }
}

/// A well-formed header's wire image is 44 bytes long, carries the magic,
/// and parses back to the header itself, whatever follows it in the buffer.
pub proof fn lemma_parse_header_bytes(h: HeaderView, rest: Seq<u8>)
    requires
        h.wf(),
    ensures
        spec_header_bytes(h).len() == 44,
        spec_magic_ok(spec_header_bytes(h) + rest),
        spec_parse_header(spec_header_bytes(h) + rest) == h,
{
    lemma_auto_spec_u32_to_from_le_bytes();
    let b = spec_header_bytes(h) + rest;
    assert(b.subrange(2, 6) =~= spec_u32_to_le_bytes(h.proto_id));
    assert(b.subrange(8, 12) =~= spec_u32_to_le_bytes(h.serial_no));
    assert(b.subrange(12, 16) =~= spec_u32_to_le_bytes(h.body_len));
    assert(b.subrange(16, 36) =~= h.body_sha1);
}

#[derive(Debug, PartialEq, Eq, Structural)]
pub enum HeaderError {
    InsufficientData,
    InvalidMagic,
}

impl PacketHeader {
    /// Build the header for a body about to be sent: format and version
    /// bytes are fixed to 0 and the checksum is the body's SHA-1 digest.
    pub fn new(proto_id: u32, serial_no: u32, body: &[u8]) -> (r: PacketHeader)
        requires
            body@.len() <= u32::MAX,
        ensures
            r@ == (HeaderView {
                proto_id,
                proto_fmt_type: 0u8,
                proto_ver: 0u8,
                serial_no,
                body_len: body@.len() as u32,
                body_sha1: sha1_bytes(body@),
            }),
            r@.wf(),
    {
        let body_sha1 = body_digest(body);
        PacketHeader {
            proto_id,
            proto_fmt_type: 0,
            proto_ver: 0,
            serial_no,
            body_len: body.len() as u32,
            body_sha1,
        }
    }

    /// Append the 44-byte wire image of this header to `buf`.
    pub fn encode(&self, buf: &mut Vec<u8>)
        requires
            self@.wf(),
            old(buf)@.len() + 44 <= usize::MAX,
        ensures
            final(buf)@ == old(buf)@ + spec_header_bytes(self@),
            final(buf)@.len() == old(buf)@.len() + 44,
    {
        buf.push(MAGIC_0);
        buf.push(MAGIC_1);
        let mut t = u32_to_le_bytes(self.proto_id);
        buf.append(&mut t);
        buf.push(self.proto_fmt_type);
        buf.push(self.proto_ver);
        let mut t = u32_to_le_bytes(self.serial_no);
        buf.append(&mut t);
        let mut t = u32_to_le_bytes(self.body_len);
        buf.append(&mut t);
        buf.extend_from_slice(self.body_sha1.as_slice());
        buf.push(0);
        buf.push(0);
        buf.push(0);
        buf.push(0);
        buf.push(0);
        buf.push(0);
        buf.push(0);
        buf.push(0);
        proof {
            lemma_auto_spec_u32_to_from_le_bytes();
        }
        assert(buf@ =~= old(buf)@ + spec_header_bytes(self@));
    }

    /// Read one header from the front of `buf`, consuming its 44 bytes on
    /// success and leaving `buf` untouched on failure.
    pub fn decode(buf: &mut Vec<u8>) -> (r: Result<PacketHeader, HeaderError>)
        ensures
            old(buf)@.len() < 44 ==> r == Err::<PacketHeader, HeaderError>(
                HeaderError::InsufficientData,
            ) && final(buf)@ == old(buf)@,
            old(buf)@.len() >= 44 && !spec_magic_ok(old(buf)@) ==> r == Err::<
                PacketHeader,
                HeaderError,
            >(HeaderError::InvalidMagic) && final(buf)@ == old(buf)@,
            old(buf)@.len() >= 44 && spec_magic_ok(old(buf)@) ==> (match r {
                Ok(h) => h@ == spec_parse_header(old(buf)@) && h@.wf() && final(buf)@ == old(
                    buf,
                )@.subrange(44, old(buf)@.len() as int),
                Err(_) => false,
            }),
    {
        if buf.len() < HEADER_SIZE {
            return Err(HeaderError::InsufficientData);
        }
        if buf[0] != MAGIC_0 || buf[1] != MAGIC_1 {
            return Err(HeaderError::InvalidMagic);
        }
        let proto_id = u32_from_le_bytes(slice_subrange(buf.as_slice(), 2, 6));
        let proto_fmt_type = buf[6];
        let proto_ver = buf[7];
        let serial_no = u32_from_le_bytes(slice_subrange(buf.as_slice(), 8, 12));
        let body_len = u32_from_le_bytes(slice_subrange(buf.as_slice(), 12, 16));
        let body_sha1 = slice_to_vec(slice_subrange(buf.as_slice(), 16, 36));
        let tail = buf.split_off(HEADER_SIZE);
        *buf = tail;
        Ok(PacketHeader { proto_id, proto_fmt_type, proto_ver, serial_no, body_len, body_sha1 })
    }

    /// Does the stored checksum match the SHA-1 digest of `body`?
    pub fn verify_body(&self, body: &[u8]) -> (r: bool)
        requires
            self@.wf(),
        ensures
            r == (self@.body_sha1 == sha1_bytes(body@)),
    {
        let d = body_digest(body);
        let mut i: usize = 0;
        let mut same = true;
        while i < 20
            invariant
                i <= 20,
                d@ == sha1_bytes(body@),
                d@.len() == 20,
                self@.body_sha1.len() == 20,
                same == (forall|j: int| 0 <= j < i ==> self@.body_sha1[j] == d@[j]),
            decreases 20 - i,
        {
            if self.body_sha1[i] != d[i] {
                same = false;
            }
            i += 1;
        }
        proof {
            if same {
                assert(self@.body_sha1 =~= sha1_bytes(body@));
            }
        }
        same
    }
}

} // verus!
