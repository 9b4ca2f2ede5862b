//! Little-endian wire primitives.
//!
//! Fixed-width integers are laid down least-significant byte first; booleans
//! take one byte (zero is false, anything else is true).  Each primitive has
//! a spec-level byte image (`wire_*`), a spec-level parser (`parse_*`) that
//! consumes a prefix of a byte sequence, and exec encode/decode functions
//! proved against those specs.

use vstd::bytes::*;
use vstd::prelude::*;
use vstd::slice::slice_subrange;
use vstd::slice::slice_to_vec;
use vstd::utf8::decode_utf8;
use vstd::utf8::encode_utf8;
use vstd::utf8::encode_utf8_decode_utf8;
use vstd::utf8::encode_utf8_valid_utf8;
use vstd::utf8::valid_utf8;

verus! {

// ---------------------------------------------------------------------------
// Byte images
// ---------------------------------------------------------------------------
pub open spec fn wire_u8(v: u8) -> Seq<u8> {
    seq![v]
}

pub open spec fn wire_u16(v: u16) -> Seq<u8> {
    spec_u16_to_le_bytes(v)
}

pub open spec fn wire_u32(v: u32) -> Seq<u8> {
    spec_u32_to_le_bytes(v)
}

pub open spec fn wire_u64(v: u64) -> Seq<u8> {
    spec_u64_to_le_bytes(v)
}

pub open spec fn wire_u128(v: u128) -> Seq<u8> {
    spec_u128_to_le_bytes(v)
}

pub open spec fn wire_i8(v: i8) -> Seq<u8> {
    seq![v as u8]
}

pub open spec fn wire_i16(v: i16) -> Seq<u8> {
    spec_u16_to_le_bytes(v as u16)
}

pub open spec fn wire_i32(v: i32) -> Seq<u8> {
    spec_u32_to_le_bytes(v as u32)
}

pub open spec fn wire_i64(v: i64) -> Seq<u8> {
    spec_u64_to_le_bytes(v as u64)
}

pub open spec fn wire_i128(v: i128) -> Seq<u8> {
    spec_u128_to_le_bytes(v as u128)
}

pub open spec fn wire_bool(v: bool) -> Seq<u8> {
    seq![if v { 1u8 } else { 0u8 }]
}

// ---------------------------------------------------------------------------
// Prefix parsers
// ---------------------------------------------------------------------------
pub open spec fn parse_u8(b: Seq<u8>) -> Option<(u8, Seq<u8>)> {
    if b.len() >= 1 {
        Some((b[0], b.skip(1)))
    } else {
        None
    }
}

pub open spec fn parse_u16(b: Seq<u8>) -> Option<(u16, Seq<u8>)> {
    if b.len() >= 2 {
        Some((spec_u16_from_le_bytes(b.take(2)), b.skip(2)))
    } else {
        None
    }
}

pub open spec fn parse_u32(b: Seq<u8>) -> Option<(u32, Seq<u8>)> {
    if b.len() >= 4 {
        Some((spec_u32_from_le_bytes(b.take(4)), b.skip(4)))
    } else {
        None
    }
}

pub open spec fn parse_u64(b: Seq<u8>) -> Option<(u64, Seq<u8>)> {
    if b.len() >= 8 {
        Some((spec_u64_from_le_bytes(b.take(8)), b.skip(8)))
    } else {
        None
    }
}

pub open spec fn parse_u128(b: Seq<u8>) -> Option<(u128, Seq<u8>)> {
    if b.len() >= 16 {
        Some((spec_u128_from_le_bytes(b.take(16)), b.skip(16)))
    } else {
        None
    }
}

pub open spec fn parse_i8(b: Seq<u8>) -> Option<(i8, Seq<u8>)> {
    if b.len() >= 1 {
        Some((b[0] as i8, b.skip(1)))
    } else {
        None
    }
}

pub open spec fn parse_i16(b: Seq<u8>) -> Option<(i16, Seq<u8>)> {
    if b.len() >= 2 {
        Some((spec_u16_from_le_bytes(b.take(2)) as i16, b.skip(2)))
    } else {
        None
    }
}

pub open spec fn parse_i32(b: Seq<u8>) -> Option<(i32, Seq<u8>)> {
    if b.len() >= 4 {
        Some((spec_u32_from_le_bytes(b.take(4)) as i32, b.skip(4)))
    } else {
        None
    }
}

pub open spec fn parse_i64(b: Seq<u8>) -> Option<(i64, Seq<u8>)> {
    if b.len() >= 8 {
        Some((spec_u64_from_le_bytes(b.take(8)) as i64, b.skip(8)))
    } else {
        None
    }
}

pub open spec fn parse_i128(b: Seq<u8>) -> Option<(i128, Seq<u8>)> {
    if b.len() >= 16 {
        Some((spec_u128_from_le_bytes(b.take(16)) as i128, b.skip(16)))
    } else {
        None
    }
}

pub open spec fn parse_bool(b: Seq<u8>) -> Option<(bool, Seq<u8>)> {
    if b.len() >= 1 {
        Some((b[0] != 0, b.skip(1)))
    } else {
        None
    }
}

// ---------------------------------------------------------------------------
// Encoders
// ---------------------------------------------------------------------------
pub fn encode_u8(v: u8, buf: &mut Vec<u8>)
    ensures
        final(buf)@ == old(buf)@ + wire_u8(v),
{
    buf.push(v);
    proof {
        assert(buf@ =~= old(buf)@ + wire_u8(v));
    }
}

pub fn encode_u16(v: u16, buf: &mut Vec<u8>)
    ensures
        final(buf)@ == old(buf)@ + wire_u16(v),
{
    let mut bytes = u16_to_le_bytes(v);
    buf.append(&mut bytes);
}

pub fn encode_u32(v: u32, buf: &mut Vec<u8>)
    ensures
        final(buf)@ == old(buf)@ + wire_u32(v),
{
    let mut bytes = u32_to_le_bytes(v);
    buf.append(&mut bytes);
}

pub fn encode_u64(v: u64, buf: &mut Vec<u8>)
    ensures
        final(buf)@ == old(buf)@ + wire_u64(v),
{
    let mut bytes = u64_to_le_bytes(v);
    buf.append(&mut bytes);
}

pub fn encode_u128(v: u128, buf: &mut Vec<u8>)
    ensures
        final(buf)@ == old(buf)@ + wire_u128(v),
{
    let mut bytes = u128_to_le_bytes(v);
    buf.append(&mut bytes);
}

pub fn encode_i8(v: i8, buf: &mut Vec<u8>)
    ensures
        final(buf)@ == old(buf)@ + wire_i8(v),
{
    encode_u8(v as u8, buf);
}

pub fn encode_i16(v: i16, buf: &mut Vec<u8>)
    ensures
        final(buf)@ == old(buf)@ + wire_i16(v),
{
    encode_u16(v as u16, buf);
}

pub fn encode_i32(v: i32, buf: &mut Vec<u8>)
    ensures
        final(buf)@ == old(buf)@ + wire_i32(v),
{
    encode_u32(v as u32, buf);
}

pub fn encode_i64(v: i64, buf: &mut Vec<u8>)
    ensures
        final(buf)@ == old(buf)@ + wire_i64(v),
{
    encode_u64(v as u64, buf);
}

pub fn encode_i128(v: i128, buf: &mut Vec<u8>)
    ensures
        final(buf)@ == old(buf)@ + wire_i128(v),
{
    encode_u128(v as u128, buf);
}

pub fn encode_bool(v: bool, buf: &mut Vec<u8>)
    ensures
        final(buf)@ == old(buf)@ + wire_bool(v),
{
    encode_u8(if v { 1 } else { 0 }, buf);
}

// ---------------------------------------------------------------------------
// Decoders
// ---------------------------------------------------------------------------
pub fn decode_u8(buffer: &[u8]) -> (r: Option<(u8, &[u8])>)
    ensures
        match r {
            Some(p) => parse_u8(buffer@) == Some((p.0, p.1@)),
            None => parse_u8(buffer@) is None,
        },
{
    if buffer.len() < 1 {
        return None;
    }
    let v = buffer[0];
    let rest = slice_subrange(buffer, 1, buffer.len());
    Some((v, rest))
}

pub fn decode_u16(buffer: &[u8]) -> (r: Option<(u16, &[u8])>)
    ensures
        match r {
            Some(p) => parse_u16(buffer@) == Some((p.0, p.1@)),
            None => parse_u16(buffer@) is None,
        },
{
    if buffer.len() < 2 {
        return None;
    }
    let head = slice_subrange(buffer, 0, 2);
    let v = u16_from_le_bytes(head);
    let rest = slice_subrange(buffer, 2, buffer.len());
    Some((v, rest))
}

pub fn decode_u32(buffer: &[u8]) -> (r: Option<(u32, &[u8])>)
    ensures
        match r {
            Some(p) => parse_u32(buffer@) == Some((p.0, p.1@)),
            None => parse_u32(buffer@) is None,
        },
{
    if buffer.len() < 4 {
        return None;
    }
    let head = slice_subrange(buffer, 0, 4);
    let v = u32_from_le_bytes(head);
    let rest = slice_subrange(buffer, 4, buffer.len());
    Some((v, rest))
}

pub fn decode_u64(buffer: &[u8]) -> (r: Option<(u64, &[u8])>)
    ensures
        match r {
            Some(p) => parse_u64(buffer@) == Some((p.0, p.1@)),
            None => parse_u64(buffer@) is None,
        },
{
    if buffer.len() < 8 {
        return None;
    }
    let head = slice_subrange(buffer, 0, 8);
    let v = u64_from_le_bytes(head);
    let rest = slice_subrange(buffer, 8, buffer.len());
    Some((v, rest))
}

pub fn decode_u128(buffer: &[u8]) -> (r: Option<(u128, &[u8])>)
    ensures
        match r {
            Some(p) => parse_u128(buffer@) == Some((p.0, p.1@)),
            None => parse_u128(buffer@) is None,
        },
{
    if buffer.len() < 16 {
        return None;
    }
    let head = slice_subrange(buffer, 0, 16);
    let v = u128_from_le_bytes(head);
    let rest = slice_subrange(buffer, 16, buffer.len());
    Some((v, rest))
}

pub fn decode_i8(buffer: &[u8]) -> (r: Option<(i8, &[u8])>)
    ensures
        match r {
            Some(p) => parse_i8(buffer@) == Some((p.0, p.1@)),
            None => parse_i8(buffer@) is None,
        },
{
    match decode_u8(buffer) {
        Some((v, rest)) => Some((v as i8, rest)),
        None => None,
    }
}

pub fn decode_i16(buffer: &[u8]) -> (r: Option<(i16, &[u8])>)
    ensures
        match r {
            Some(p) => parse_i16(buffer@) == Some((p.0, p.1@)),
            None => parse_i16(buffer@) is None,
        },
{
    match decode_u16(buffer) {
        Some((v, rest)) => Some((v as i16, rest)),
        None => None,
    }
}

pub fn decode_i32(buffer: &[u8]) -> (r: Option<(i32, &[u8])>)
    ensures
        match r {
            Some(p) => parse_i32(buffer@) == Some((p.0, p.1@)),
            None => parse_i32(buffer@) is None,
        },
{
    match decode_u32(buffer) {
        Some((v, rest)) => Some((v as i32, rest)),
        None => None,
    }
}

pub fn decode_i64(buffer: &[u8]) -> (r: Option<(i64, &[u8])>)
    ensures
        match r {
            Some(p) => parse_i64(buffer@) == Some((p.0, p.1@)),
            None => parse_i64(buffer@) is None,
        },
{
    match decode_u64(buffer) {
        Some((v, rest)) => Some((v as i64, rest)),
        None => None,
    }
}

pub fn decode_i128(buffer: &[u8]) -> (r: Option<(i128, &[u8])>)
    ensures
        match r {
            Some(p) => parse_i128(buffer@) == Some((p.0, p.1@)),
            None => parse_i128(buffer@) is None,
        },
{
    match decode_u128(buffer) {
        Some((v, rest)) => Some((v as i128, rest)),
        None => None,
    }
}

pub fn decode_bool(buffer: &[u8]) -> (r: Option<(bool, &[u8])>)
    ensures
        match r {
            Some(p) => parse_bool(buffer@) == Some((p.0, p.1@)),
            None => parse_bool(buffer@) is None,
        },
{
    match decode_u8(buffer) {
        Some((v, rest)) => Some((v > 0, rest)),
        None => None,
    }
}

// ---------------------------------------------------------------------------
// Round trips: parsing an image recovers the value and leaves the tail.
// ---------------------------------------------------------------------------
pub proof fn lemma_parse_wire_u8(v: u8, tail: Seq<u8>)
    ensures
        parse_u8(wire_u8(v) + tail) == Some((v, tail)),
{
    assert((wire_u8(v) + tail).skip(1) =~= tail);
}

pub proof fn lemma_parse_wire_u16(v: u16, tail: Seq<u8>)
    ensures
        parse_u16(wire_u16(v) + tail) == Some((v, tail)),
{
    lemma_auto_spec_u16_to_from_le_bytes();
    assert((wire_u16(v) + tail).take(2) =~= wire_u16(v));
    assert((wire_u16(v) + tail).skip(2) =~= tail);
}

pub proof fn lemma_parse_wire_u32(v: u32, tail: Seq<u8>)
    ensures
        parse_u32(wire_u32(v) + tail) == Some((v, tail)),
{
    lemma_auto_spec_u32_to_from_le_bytes();
    assert((wire_u32(v) + tail).take(4) =~= wire_u32(v));
    assert((wire_u32(v) + tail).skip(4) =~= tail);
}

pub proof fn lemma_parse_wire_u64(v: u64, tail: Seq<u8>)
    ensures
        parse_u64(wire_u64(v) + tail) == Some((v, tail)),
{
    lemma_auto_spec_u64_to_from_le_bytes();
    assert((wire_u64(v) + tail).take(8) =~= wire_u64(v));
    assert((wire_u64(v) + tail).skip(8) =~= tail);
}

pub proof fn lemma_parse_wire_u128(v: u128, tail: Seq<u8>)
    ensures
        parse_u128(wire_u128(v) + tail) == Some((v, tail)),
{
    lemma_auto_spec_u128_to_from_le_bytes();
    assert((wire_u128(v) + tail).take(16) =~= wire_u128(v));
    assert((wire_u128(v) + tail).skip(16) =~= tail);
}

pub proof fn lemma_parse_wire_i8(v: i8, tail: Seq<u8>)
    ensures
        parse_i8(wire_i8(v) + tail) == Some((v, tail)),
{
    lemma_parse_wire_u8(v as u8, tail);
    assert(wire_i8(v) == wire_u8(v as u8));
    assert((v as u8) as i8 == v) by (bit_vector);
}

pub proof fn lemma_parse_wire_i16(v: i16, tail: Seq<u8>)
    ensures
        parse_i16(wire_i16(v) + tail) == Some((v, tail)),
{
    lemma_parse_wire_u16(v as u16, tail);
    assert(wire_i16(v) == wire_u16(v as u16));
    assert((v as u16) as i16 == v) by (bit_vector);
}

pub proof fn lemma_parse_wire_i32(v: i32, tail: Seq<u8>)
    ensures
        parse_i32(wire_i32(v) + tail) == Some((v, tail)),
{
    lemma_parse_wire_u32(v as u32, tail);
    assert(wire_i32(v) == wire_u32(v as u32));
    assert((v as u32) as i32 == v) by (bit_vector);
}

pub proof fn lemma_parse_wire_i64(v: i64, tail: Seq<u8>)
    ensures
        parse_i64(wire_i64(v) + tail) == Some((v, tail)),
{
    lemma_parse_wire_u64(v as u64, tail);
    assert(wire_i64(v) == wire_u64(v as u64));
    assert((v as u64) as i64 == v) by (bit_vector);
}

pub proof fn lemma_parse_wire_i128(v: i128, tail: Seq<u8>)
    ensures
        parse_i128(wire_i128(v) + tail) == Some((v, tail)),
{
    lemma_parse_wire_u128(v as u128, tail);
    assert(wire_i128(v) == wire_u128(v as u128));
    assert((v as u128) as i128 == v) by (bit_vector);
}

pub proof fn lemma_parse_wire_bool(v: bool, tail: Seq<u8>)
    ensures
        parse_bool(wire_bool(v) + tail) == Some((v, tail)),
{
    assert((wire_bool(v) + tail).skip(1) =~= tail);
}

// ---------------------------------------------------------------------------
// Image lengths
// ---------------------------------------------------------------------------
pub proof fn lemma_wire_u16_len(v: u16)
    ensures
        wire_u16(v).len() == 2,
{
    lemma_auto_spec_u16_to_from_le_bytes();
}

pub proof fn lemma_wire_u32_len(v: u32)
    ensures
        wire_u32(v).len() == 4,
{
    lemma_auto_spec_u32_to_from_le_bytes();
}

pub proof fn lemma_wire_u64_len(v: u64)
    ensures
        wire_u64(v).len() == 8,
{
    lemma_auto_spec_u64_to_from_le_bytes();
}

pub proof fn lemma_wire_u128_len(v: u128)
    ensures
        wire_u128(v).len() == 16,
{
    lemma_auto_spec_u128_to_from_le_bytes();
}

// ---------------------------------------------------------------------------
// Pointer-sized integers: fixed at eight bytes on the wire.  A decoded value
// that does not fit the machine's pointer width is rejected.
// ---------------------------------------------------------------------------
pub open spec fn wire_usize(v: usize) -> Seq<u8> {
    spec_u64_to_le_bytes(v as u64)
}

pub open spec fn wire_isize(v: isize) -> Seq<u8> {
    spec_u64_to_le_bytes((v as i64) as u64)
}

pub open spec fn parse_usize(b: Seq<u8>) -> Option<(usize, Seq<u8>)> {
    match parse_u64(b) {
        Some((v, rest)) => if v <= usize::MAX {
            Some((v as usize, rest))
        } else {
            None
        },
        None => None,
    }
}

pub open spec fn parse_isize(b: Seq<u8>) -> Option<(isize, Seq<u8>)> {
    match parse_i64(b) {
        Some((v, rest)) => if isize::MIN <= v <= isize::MAX {
            Some((v as isize, rest))
        } else {
            None
        },
        None => None,
    }
}

pub fn encode_usize(v: usize, buf: &mut Vec<u8>)
    ensures
        final(buf)@ == old(buf)@ + wire_usize(v),
{
    encode_u64(v as u64, buf);
}

pub fn encode_isize(v: isize, buf: &mut Vec<u8>)
    ensures
        final(buf)@ == old(buf)@ + wire_isize(v),
{
    encode_i64(v as i64, buf);
}

pub fn decode_usize(buffer: &[u8]) -> (r: Option<(usize, &[u8])>)
    ensures
        match r {
            Some(p) => parse_usize(buffer@) == Some((p.0, p.1@)),
            None => parse_usize(buffer@) is None,
        },
{
    match decode_u64(buffer) {
        Some((v, rest)) => if v <= usize::MAX as u64 {
            Some((v as usize, rest))
        } else {
            None
        },
        None => None,
    }
}

pub fn decode_isize(buffer: &[u8]) -> (r: Option<(isize, &[u8])>)
    ensures
        match r {
            Some(p) => parse_isize(buffer@) == Some((p.0, p.1@)),
            None => parse_isize(buffer@) is None,
        },
{
    match decode_i64(buffer) {
        Some((v, rest)) => if isize::MIN as i64 <= v && v <= isize::MAX as i64 {
            Some((v as isize, rest))
        } else {
            None
        },
        None => None,
    }
}

pub proof fn lemma_parse_wire_usize(v: usize, tail: Seq<u8>)
    ensures
        parse_usize(wire_usize(v) + tail) == Some((v, tail)),
{
    lemma_parse_wire_u64(v as u64, tail);
}

pub proof fn lemma_parse_wire_isize(v: isize, tail: Seq<u8>)
    ensures
        parse_isize(wire_isize(v) + tail) == Some((v, tail)),
{
    lemma_parse_wire_i64(v as i64, tail);
    assert(wire_isize(v) == wire_i64(v as i64));
}

// ---------------------------------------------------------------------------
// Strings: an eight-byte little-endian byte count, then the UTF-8 bytes.
// Decoding rejects byte sequences that are not valid UTF-8.
// ---------------------------------------------------------------------------
pub open spec fn wire_str(s: Seq<char>) -> Seq<u8> {
    wire_u64(encode_utf8(s).len() as u64) + encode_utf8(s)
}

pub open spec fn parse_str(b: Seq<u8>) -> Option<(Seq<char>, Seq<u8>)> {
    match parse_u64(b) {
        Some((len, rest)) => if rest.len() >= len && valid_utf8(rest.take(len as int)) {
            Some((decode_utf8(rest.take(len as int)), rest.skip(len as int)))
        } else {
            None
        },
        None => None,
    }
}

/// Relies on `core::str::from_utf8`: it succeeds exactly on valid UTF-8 and
/// returns the string whose bytes are the input, here copied to an owned
/// `String`.
#[verifier::external_body]
fn utf8_to_string(bytes: &[u8]) -> (r: Option<String>)
    ensures
        match r {
            Some(s) => valid_utf8(bytes@) && s@ == decode_utf8(bytes@),
            None => !valid_utf8(bytes@),
        },
{
    match core::str::from_utf8(bytes) {
        Ok(s) => Some(s.to_owned()),
        Err(_) => None,
    }
}

pub fn encode_str(s: &str, buf: &mut Vec<u8>)
    ensures
        final(buf)@ == old(buf)@ + wire_str(s@),
{
    let bytes = s.as_bytes();
    encode_u64(bytes.len() as u64, buf);
    let mut content = slice_to_vec(bytes);
    buf.append(&mut content);
    proof {
        assert(final(buf)@ =~= old(buf)@ + wire_str(s@));
    }
}

pub fn decode_str(buffer: &[u8]) -> (r: Option<(String, &[u8])>)
    ensures
        match r {
            Some(p) => parse_str(buffer@) == Some((p.0@, p.1@)),
            None => parse_str(buffer@) is None,
        },
{
    let (len64, rest) = match decode_u64(buffer) {
        Some(p) => p,
        None => {
            return None;
        },
    };
    if len64 > rest.len() as u64 {
        return None;
    }
    let len = len64 as usize;
    let content = slice_subrange(rest, 0, len);
    let tail = slice_subrange(rest, len, rest.len());
    match utf8_to_string(content) {
        Some(s) => Some((s, tail)),
        None => None,
    }
}

// ---------------------------------------------------------------------------
// Eight booleans packed into one byte, first element in the most significant
// bit.
// ---------------------------------------------------------------------------
pub open spec fn pack_bools(a: Seq<bool>) -> u8
    recommends
        a.len() == 8,
{
    (if a[0] {
        0x80u8
    } else {
        0u8
    }) | (if a[1] {
        0x40u8
    } else {
        0u8
    }) | (if a[2] {
        0x20u8
    } else {
        0u8
    }) | (if a[3] {
        0x10u8
    } else {
        0u8
    }) | (if a[4] {
        0x08u8
    } else {
        0u8
    }) | (if a[5] {
        0x04u8
    } else {
        0u8
    }) | (if a[6] {
        0x02u8
    } else {
        0u8
    }) | (if a[7] {
        0x01u8
    } else {
        0u8
    })
}

pub open spec fn unpack_bools(x: u8) -> Seq<bool> {
    seq![
        x & 0x80 != 0,
        x & 0x40 != 0,
        x & 0x20 != 0,
        x & 0x10 != 0,
        x & 0x08 != 0,
        x & 0x04 != 0,
        x & 0x02 != 0,
        x & 0x01 != 0,
    ]
}

pub open spec fn wire_bool8(a: Seq<bool>) -> Seq<u8> {
    seq![pack_bools(a)]
}

pub open spec fn parse_bool8(b: Seq<u8>) -> Option<(Seq<bool>, Seq<u8>)> {
    if b.len() >= 1 {
        Some((unpack_bools(b[0]), b.skip(1)))
    } else {
        None
    }
}

pub fn encode_bool8(a: &[bool; 8], buf: &mut Vec<u8>)
    ensures
        final(buf)@ == old(buf)@ + wire_bool8(a@),
{
    let byte: u8 = (if a[0] {
        0x80u8
    } else {
        0u8
    }) | (if a[1] {
        0x40u8
    } else {
        0u8
    }) | (if a[2] {
        0x20u8
    } else {
        0u8
    }) | (if a[3] {
        0x10u8
    } else {
        0u8
    }) | (if a[4] {
        0x08u8
    } else {
        0u8
    }) | (if a[5] {
        0x04u8
    } else {
        0u8
    }) | (if a[6] {
        0x02u8
    } else {
        0u8
    }) | (if a[7] {
        0x01u8
    } else {
        0u8
    });
    encode_u8(byte, buf);
}

pub fn decode_bool8(buffer: &[u8]) -> (r: Option<([bool; 8], &[u8])>)
    ensures
        match r {
            Some(p) => parse_bool8(buffer@) == Some((p.0@, p.1@)),
            None => parse_bool8(buffer@) is None,
        },
{
    match decode_u8(buffer) {
        Some((x, rest)) => {
            let arr: [bool; 8] = [
                x & 0x80 != 0,
                x & 0x40 != 0,
                x & 0x20 != 0,
                x & 0x10 != 0,
                x & 0x08 != 0,
                x & 0x04 != 0,
                x & 0x02 != 0,
                x & 0x01 != 0,
            ];
            proof {
                assert(arr@ =~= unpack_bools(x));
            }
            Some((arr, rest))
        },
        None => None,
    }
}

/// Each bit of the packed byte reads back as the boolean it was packed from.
proof fn lemma_pack_bits(
    b0: bool,
    b1: bool,
    b2: bool,
    b3: bool,
    b4: bool,
    b5: bool,
    b6: bool,
    b7: bool,
)
    by (bit_vector)
    ensures
        ((((if b0 {
            0x80u8
        } else {
            0u8
        }) | (if b1 {
            0x40u8
        } else {
            0u8
        }) | (if b2 {
            0x20u8
        } else {
            0u8
        }) | (if b3 {
            0x10u8
        } else {
            0u8
        }) | (if b4 {
            0x08u8
        } else {
            0u8
        }) | (if b5 {
            0x04u8
        } else {
            0u8
        }) | (if b6 {
            0x02u8
        } else {
            0u8
        }) | (if b7 {
            0x01u8
        } else {
            0u8
        })) & 0x80u8) != 0) == b0,
        ((((if b0 {
            0x80u8
        } else {
            0u8
        }) | (if b1 {
            0x40u8
        } else {
            0u8
        }) | (if b2 {
            0x20u8
        } else {
            0u8
        }) | (if b3 {
            0x10u8
        } else {
            0u8
        }) | (if b4 {
            0x08u8
        } else {
            0u8
        }) | (if b5 {
            0x04u8
        } else {
            0u8
        }) | (if b6 {
            0x02u8
        } else {
            0u8
        }) | (if b7 {
            0x01u8
        } else {
            0u8
        })) & 0x40u8) != 0) == b1,
        ((((if b0 {
            0x80u8
        } else {
            0u8
        }) | (if b1 {
            0x40u8
        } else {
            0u8
        }) | (if b2 {
            0x20u8
        } else {
            0u8
        }) | (if b3 {
            0x10u8
        } else {
            0u8
        }) | (if b4 {
            0x08u8
        } else {
            0u8
        }) | (if b5 {
            0x04u8
        } else {
            0u8
        }) | (if b6 {
            0x02u8
        } else {
            0u8
        }) | (if b7 {
            0x01u8
        } else {
            0u8
        })) & 0x20u8) != 0) == b2,
        ((((if b0 {
            0x80u8
        } else {
            0u8
        }) | (if b1 {
            0x40u8
        } else {
            0u8
        }) | (if b2 {
            0x20u8
        } else {
            0u8
        }) | (if b3 {
            0x10u8
        } else {
            0u8
        }) | (if b4 {
            0x08u8
        } else {
            0u8
        }) | (if b5 {
            0x04u8
        } else {
            0u8
        }) | (if b6 {
            0x02u8
        } else {
            0u8
        }) | (if b7 {
            0x01u8
        } else {
            0u8
        })) & 0x10u8) != 0) == b3,
        ((((if b0 {
            0x80u8
        } else {
            0u8
        }) | (if b1 {
            0x40u8
        } else {
            0u8
        }) | (if b2 {
            0x20u8
        } else {
            0u8
        }) | (if b3 {
            0x10u8
        } else {
            0u8
        }) | (if b4 {
            0x08u8
        } else {
            0u8
        }) | (if b5 {
            0x04u8
        } else {
            0u8
        }) | (if b6 {
            0x02u8
        } else {
            0u8
        }) | (if b7 {
            0x01u8
        } else {
            0u8
        })) & 0x08u8) != 0) == b4,
        ((((if b0 {
            0x80u8
        } else {
            0u8
        }) | (if b1 {
            0x40u8
        } else {
            0u8
        }) | (if b2 {
            0x20u8
        } else {
            0u8
        }) | (if b3 {
            0x10u8
        } else {
            0u8
        }) | (if b4 {
            0x08u8
        } else {
            0u8
        }) | (if b5 {
            0x04u8
        } else {
            0u8
        }) | (if b6 {
            0x02u8
        } else {
            0u8
        }) | (if b7 {
            0x01u8
        } else {
            0u8
        })) & 0x04u8) != 0) == b5,
        ((((if b0 {
            0x80u8
        } else {
            0u8
        }) | (if b1 {
            0x40u8
        } else {
            0u8
        }) | (if b2 {
            0x20u8
        } else {
            0u8
        }) | (if b3 {
            0x10u8
        } else {
            0u8
        }) | (if b4 {
            0x08u8
        } else {
            0u8
        }) | (if b5 {
            0x04u8
        } else {
            0u8
        }) | (if b6 {
            0x02u8
        } else {
            0u8
        }) | (if b7 {
            0x01u8
        } else {
            0u8
        })) & 0x02u8) != 0) == b6,
        ((((if b0 {
            0x80u8
        } else {
            0u8
        }) | (if b1 {
            0x40u8
        } else {
            0u8
        }) | (if b2 {
            0x20u8
        } else {
            0u8
        }) | (if b3 {
            0x10u8
        } else {
            0u8
        }) | (if b4 {
            0x08u8
        } else {
            0u8
        }) | (if b5 {
            0x04u8
        } else {
            0u8
        }) | (if b6 {
            0x02u8
        } else {
            0u8
        }) | (if b7 {
            0x01u8
        } else {
            0u8
        })) & 0x01u8) != 0) == b7,
{
}

pub proof fn lemma_parse_wire_bool8(a: Seq<bool>, tail: Seq<u8>)
    requires
        a.len() == 8,
    ensures
        parse_bool8(wire_bool8(a) + tail) == Some((a, tail)),
{
    lemma_pack_bits(a[0], a[1], a[2], a[3], a[4], a[5], a[6], a[7]);
    assert((wire_bool8(a) + tail)[0] == pack_bools(a));
    assert((wire_bool8(a) + tail).skip(1) =~= tail);
    assert(unpack_bools(pack_bools(a)) =~= a);
}

pub proof fn lemma_parse_wire_str(s: Seq<char>, tail: Seq<u8>)
    requires
        encode_utf8(s).len() <= u64::MAX,
    ensures
        parse_str(wire_str(s) + tail) == Some((s, tail)),
{
    let utf8 = encode_utf8(s);
    let n = utf8.len() as u64;
    lemma_parse_wire_u64(n, utf8 + tail);
    assert(wire_str(s) + tail =~= wire_u64(n) + (utf8 + tail));
    assert((utf8 + tail).take(n as int) =~= utf8);
    assert((utf8 + tail).skip(n as int) =~= tail);
    encode_utf8_valid_utf8(s);
    encode_utf8_decode_utf8(s);
}

} // verus!
