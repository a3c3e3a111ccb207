//! Tagged-field body encoding (the protocol-buffers wire format), as far
//! as the core's own messages need it: base-128 varints, field keys, and
//! length-delimited fields.  Bodies of domain messages stay opaque; only
//! the handshake and the keepalive heartbeat are built and read here.

use vstd::prelude::*;

verus! {

/// The base-128 varint image of `n`: seven value bits per byte, least
/// significant group first, high bit set on every byte but the last.
pub open spec fn spec_varint(n: u64) -> Seq<u8>
    decreases n,
{
    if n < 128 {
        seq![n as u8]
    } else {
        seq![(n % 128 + 128) as u8] + spec_varint(n / 128)
    }
}

/// Append the varint image of `n` to `buf`.
pub fn write_varint(buf: &mut Vec<u8>, n: u64)
    ensures
        final(buf)@ == old(buf)@ + spec_varint(n),
{
    let mut v = n;
    while v >= 128
        invariant
            buf@ + spec_varint(v) == old(buf)@ + spec_varint(n),
        decreases v,
    {
        let ghost prev = buf@;
        let ghost vprev = v;
        buf.push((v % 128 + 128) as u8);
        v = v / 128;
        proof {
            assert(spec_varint(vprev) == seq![(vprev % 128 + 128) as u8] + spec_varint(
                vprev / 128,
            ));
            assert(buf@ + spec_varint(v) =~= prev + spec_varint(vprev));
        }
    }
    let ghost prev = buf@;
    let ghost vlast = v;
    buf.push(v as u8);
    proof {
        assert(spec_varint(vlast) == seq![vlast as u8]);
        assert(buf@ =~= prev + spec_varint(vlast));
        assert(buf@ =~= old(buf)@ + spec_varint(n));
    }
}

/// The key introducing a field: field number and wire type packed in one
/// varint.
pub open spec fn spec_field_key(field: u64, wire_type: u64) -> Seq<u8>
    recommends
        field <= u32::MAX,
        wire_type < 8,
{
    spec_varint((field * 8 + wire_type) as u64)
}

/// A varint-valued field (wire type 0): key, then the value.
pub open spec fn spec_varint_field(field: u64, value: u64) -> Seq<u8>
    recommends
        field <= u32::MAX,
{
    spec_field_key(field, 0) + spec_varint(value)
}

/// A length-delimited field (wire type 2): key, byte length, then the
/// bytes themselves.
pub open spec fn spec_len_field(field: u64, data: Seq<u8>) -> Seq<u8>
    recommends
        field <= u32::MAX,
        data.len() <= u64::MAX,
{
    spec_field_key(field, 2) + spec_varint(data.len() as u64) + data
}

/// Append a varint-valued field.
pub fn write_varint_field(buf: &mut Vec<u8>, field: u32, value: u64)
    ensures
        final(buf)@ == old(buf)@ + spec_varint_field(field as u64, value),
{
    write_varint(buf, (field as u64) * 8);
    write_varint(buf, value);
    assert(buf@ =~= old(buf)@ + spec_varint_field(field as u64, value));
}

/// Append a length-delimited field.
pub fn write_len_field(buf: &mut Vec<u8>, field: u32, data: &[u8])
    requires
        data@.len() <= u64::MAX,
    ensures
        final(buf)@ == old(buf)@ + spec_len_field(field as u64, data@),
{
    write_varint(buf, (field as u64) * 8 + 2);
    write_varint(buf, data.len() as u64);
    buf.extend_from_slice(data);
    assert(buf@ =~= old(buf)@ + spec_len_field(field as u64, data@));
}

/// The 64-bit two's-complement image a signed 64-bit value takes on the
/// wire.
pub open spec fn spec_wire64_of_i64(v: i64) -> u64 {
    v as u64
}

/// The 64-bit image of a signed 32-bit value: sign-extended first, as the
/// tagged-field encoding prescribes for 32-bit integers.
pub open spec fn spec_wire64_of_i32(v: i32) -> u64 {
    (v as i64) as u64
}

/// Sign-extend a 32-bit value to its 64-bit wire image.
pub fn wire64_of_i32(v: i32) -> (r: u64)
    ensures
        r == spec_wire64_of_i32(v),
{
    (v as i64) as u64
}

/// The wire image of a 64-bit value.
pub fn wire64_of_i64(v: i64) -> (r: u64)
    ensures
        r == spec_wire64_of_i64(v),
{
    v as u64
}

/// One varint read from `b` at `pos`: the decoded value (as an unbounded
/// natural: overlong inputs are the field readers' concern) and the
/// position just past it, or nothing when the bytes run out first.
pub open spec fn sp_varint(b: Seq<u8>, pos: int) -> Option<(nat, int)>
    decreases b.len() - pos,
{
    if pos < 0 || pos >= b.len() {
        None
    } else if b[pos] < 128 {
        Some((b[pos] as nat, pos + 1))
    } else {
        match sp_varint(b, pos + 1) {
            None => None,
            Some((v, p)) => Some((((b[pos] - 128) + 128 * v) as nat, p)),
        }
    }
}

/// A parsed varint always advances and stays inside the buffer.
pub proof fn lemma_sp_varint_advances(b: Seq<u8>, pos: int)
    requires
        sp_varint(b, pos) is Some,
    ensures
        pos < sp_varint(b, pos).unwrap().1 <= b.len(),
    decreases b.len() - pos,
{
    if !(pos < 0 || pos >= b.len()) && b[pos] >= 128 {
        lemma_sp_varint_advances(b, pos + 1);
    }
}

/// Reading at a later position is reading the dropped-prefix buffer at
/// the correspondingly earlier position.
proof fn lemma_sp_varint_shift(s: Seq<u8>, pos: int)
    requires
        pos >= 1,
        s.len() >= 1,
    ensures
        sp_varint(s, pos) == (match sp_varint(s.skip(1), pos - 1) {
            None => None,
            Some((v, p)) => Some((v, p + 1)),
        }),
    decreases s.len() - pos,
{
    if !(pos < 0 || pos >= s.len()) {
        assert(s.skip(1)[pos - 1] == s[pos]);
        if s[pos] >= 128 {
            lemma_sp_varint_shift(s, pos + 1);
        }
    }
}

/// A varint written by `spec_varint` reads back as the value it encodes,
/// whatever follows it in the buffer.
pub proof fn lemma_varint_round_trip(n: u64, rest: Seq<u8>)
    ensures
        spec_varint(n).len() >= 1,
        sp_varint(spec_varint(n) + rest, 0) == Some((n as nat, spec_varint(n).len() as int)),
    decreases n,
{
    let b = spec_varint(n) + rest;
    if n < 128 {
        assert(b[0] == n as u8);
    } else {
        let b0 = (n % 128 + 128) as u8;
        assert(spec_varint(n) == seq![b0] + spec_varint(n / 128));
        assert(b[0] == b0);
        lemma_varint_round_trip(n / 128, rest);
        lemma_sp_varint_shift(b, 1);
        assert(b.skip(1) =~= spec_varint(n / 128) + rest);
        let inner = sp_varint(spec_varint(n / 128) + rest, 0);
        assert(inner == Some(((n / 128) as nat, spec_varint(n / 128).len() as int)));
        assert(((b0 - 128) + 128 * ((n / 128) as nat)) as nat == n as nat);
        assert(sp_varint(b, 0) == Some((n as nat, spec_varint(n).len() as int)));
    }
}

/// Read one varint from `b` at `pos`.  Returns the value and the position
/// just past it; `None` when the bytes run out or the value does not fit
/// in 64 bits.
pub fn read_varint(b: &[u8], pos: usize) -> (r: Option<(u64, usize)>)
    ensures
        match r {
            Some((v, p)) => sp_varint(b@, pos as int) == Some((v as nat, p as int)),
            None => sp_varint(b@, pos as int) is None || sp_varint(b@, pos as int).unwrap().0
                > u64::MAX,
        },
    decreases b@.len() - pos,
{
    if pos >= b.len() {
        return None;
    }
    let byte = b[pos];
    if byte < 128 {
        Some((byte as u64, pos + 1))
    } else {
        match read_varint(b, pos + 1) {
            None => {
                proof {
                    let sp = sp_varint(b@, (pos + 1) as int);
                    if sp is Some {
                        let v = sp.unwrap().0;
                        assert(sp_varint(b@, pos as int).unwrap().0 == ((byte - 128) + 128
                            * v) as nat);
                    }
                }
                None
            },
            Some((v, p)) => {
                let low = (byte - 128) as u64;
                if v <= (u64::MAX - low) / 128 {
                    Some((low + 128 * v, p))
                } else {
                    None
                }
            },
        }
    }
}

} // verus!
