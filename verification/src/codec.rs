//! Frame codec: decodes one exact 9-byte request frame into a typed message
//! and encodes the 4-byte big-endian reply integer.
//!
//! A request frame is one tag byte followed by two signed big-endian 32-bit
//! integers. Tag `0x49` (`'I'`) is an insert, `0x51` (`'Q'`) is a query, and
//! every other tag is malformed. Both integers are decoded unconditionally;
//! only their interpretation depends on the tag.

use vstd::prelude::*;

verus! {

/// Tag byte of an insert frame, the character `I`.
pub const TAG_INSERT: u8 = 0x49;

/// Tag byte of a query frame, the character `Q`.
pub const TAG_QUERY: u8 = 0x51;

/// One decoded 9-byte request frame.
pub enum Message {
    /// Record `price` for `timestamp`.
    Insert { timestamp: i32, price: i32 },
    /// Ask for the mean price over `min_time..=max_time`.
    Query { min_time: i32, max_time: i32 },
    /// The tag byte is neither an insert nor a query.
    Malformed,
}

/// Unsigned value of four big-endian base-256 digits.
pub open spec fn be_u32(b: Seq<u8>) -> int
    recommends
        b.len() == 4,
{
    b[0] * 0x100_0000 + b[1] * 0x1_0000 + b[2] * 0x100 + b[3]
}

/// Two's-complement signed value of four big-endian bytes.
pub open spec fn be_i32(b: Seq<u8>) -> int
    recommends
        b.len() == 4,
{
    if b[0] >= 0x80 {
        be_u32(b) - 0x1_0000_0000
    } else {
        be_u32(b)
    }
}

/// The message held by one 9-byte frame.
pub open spec fn spec_decode(frame: Seq<u8>) -> Message
    recommends
        frame.len() == 9,
{
    let a = be_i32(frame.subrange(1, 5));
    let b = be_i32(frame.subrange(5, 9));
    if frame[0] == TAG_INSERT {
        Message::Insert { timestamp: a as i32, price: b as i32 }
    } else if frame[0] == TAG_QUERY {
        Message::Query { min_time: a as i32, max_time: b as i32 }
    } else {
        Message::Malformed
    }
}

/// The four big-endian bytes of the two's-complement representation of `v`.
pub open spec fn spec_encode_i32(v: int) -> Seq<u8>
    recommends
        -0x8000_0000 <= v < 0x8000_0000,
{
    let u = if v < 0 {
        v + 0x1_0000_0000
    } else {
        v
    };
    seq![
        (u / 0x100_0000) as u8,
        ((u / 0x1_0000) % 0x100) as u8,
        ((u / 0x100) % 0x100) as u8,
        (u % 0x100) as u8,
    ]
}

/// Reads a signed big-endian 32-bit integer from four bytes.
pub fn decode_i32_be(b: &[u8]) -> (v: i32)
    requires
        b@.len() == 4,
    ensures
        v as int == be_i32(b@),
{
    let b0 = b[0];
    let u: u64 = (b0 as u64) * 0x100_0000 + (b[1] as u64) * 0x1_0000 + (b[2] as u64) * 0x100 + (
    b[3] as u64);
    let w: i64 = if b0 >= 0x80 {
        (u as i64) - 0x1_0000_0000
    } else {
        u as i64
    };
    w as i32
}

/// Decodes one 9-byte frame into its message.
pub fn decode_frame(frame: &[u8]) -> (m: Message)
    requires
        frame@.len() == 9,
    ensures
        m == spec_decode(frame@),
{
    let tag = frame[0];
    let a = decode_i32_be(vstd::slice::slice_subrange(frame, 1, 5));
    let b = decode_i32_be(vstd::slice::slice_subrange(frame, 5, 9));
    if tag == TAG_INSERT {
        Message::Insert { timestamp: a, price: b }
    } else if tag == TAG_QUERY {
        Message::Query { min_time: a, max_time: b }
    } else {
        Message::Malformed
    }
}

/// Writes `v` as four big-endian bytes of its two's-complement representation.
pub fn encode_i32_be(v: i32) -> (r: Vec<u8>)
    ensures
        r@ == spec_encode_i32(v as int),
        r@.len() == 4,
{
    let u: u32 = if v < 0 {
        ((v as i64) + 0x1_0000_0000) as u32
    } else {
        v as u32
    };
    let mut r: Vec<u8> = Vec::new();
    r.push((u / 0x100_0000) as u8);
    r.push(((u / 0x1_0000) % 0x100) as u8);
    r.push(((u / 0x100) % 0x100) as u8);
    r.push((u % 0x100) as u8);
    proof {
        assert(r@ =~= spec_encode_i32(v as int));
    }
    r
}

} // verus!
