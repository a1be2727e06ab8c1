//! The fixed-width number codec of expression literals.
//!
//! Every number takes eight bytes, most significant byte first. A signed integer is first
//! shifted up by 2^63; the bit pattern of a double is first mapped as [`order_encode_f64`] says.
use vstd::prelude::*;

verus! {

/// The most significant bit of a 64-bit word.
pub const SIGN_MARK: u64 = 0x8000_0000_0000_0000;

/// The number of bytes of an encoded number.
pub const NUMBER_LEN: usize = 8;

/// The input holds fewer bytes than an encoded number takes.
#[derive(Clone, Copy, Debug, PartialEq, Eq, Structural)]
pub struct UnexpectedEof;

/// The number that the first eight bytes of `data` denote, most significant byte first.
pub open spec fn be_value(data: Seq<u8>) -> int {
    data[0] * 0x0100_0000_0000_0000 + data[1] * 0x0001_0000_0000_0000 + data[2]
        * 0x0000_0100_0000_0000 + data[3] * 0x0000_0001_0000_0000 + data[4] * 0x0100_0000 + data[5]
        * 0x0001_0000 + data[6] * 0x0100 + data[7]
}

/// The eight bytes of `v`, most significant byte first.
pub open spec fn be_bytes(v: u64) -> Seq<u8> {
    seq![
        (v / 0x0100_0000_0000_0000) as u8,
        (v / 0x0001_0000_0000_0000 % 256) as u8,
        (v / 0x0000_0100_0000_0000 % 256) as u8,
        (v / 0x0000_0001_0000_0000 % 256) as u8,
        (v / 0x0100_0000 % 256) as u8,
        (v / 0x0001_0000 % 256) as u8,
        (v / 0x0100 % 256) as u8,
        (v % 256) as u8,
    ]
}

/// What decoding an unsigned integer from `data` gives: `None` when `data` is too short.
pub open spec fn spec_decode_u64(data: Seq<u8>) -> Option<u64> {
    if data.len() < NUMBER_LEN {
        None
    } else {
        Some(be_value(data) as u64)
    }
}

/// What decoding a signed integer from `data` gives: the encoded word less 2^63.
pub open spec fn spec_decode_i64(data: Seq<u8>) -> Option<i64> {
    match spec_decode_u64(data) {
        None => None,
        Some(u) => Some((u - SIGN_MARK) as i64),
    }
}

/// The word that stands for the double with the bit pattern `bits`: for a clear sign bit, the
/// bits with the sign bit set; otherwise, all bits inverted.
pub open spec fn order_encode_f64(bits: u64) -> u64 {
    if bits < SIGN_MARK {
        (bits + SIGN_MARK) as u64
    } else {
        (u64::MAX - bits) as u64
    }
}

/// The bit pattern of the double that the word `u` stands for.
pub open spec fn order_decode_f64(u: u64) -> u64 {
    if u >= SIGN_MARK {
        (u - SIGN_MARK) as u64
    } else {
        (u64::MAX - u) as u64
    }
}

/// What decoding a double from `data` gives, as its bit pattern.
pub open spec fn spec_decode_f64(data: Seq<u8>) -> Option<u64> {
    match spec_decode_u64(data) {
        None => None,
        Some(u) => Some(order_decode_f64(u)),
    }
}

/// Decodes an unsigned integer from the front of `data`.
pub fn decode_u64(data: &[u8]) -> (r: Result<u64, UnexpectedEof>)
    ensures
        r == (match spec_decode_u64(data@) {
            None => Err(UnexpectedEof),
            Some(v) => Ok::<u64, UnexpectedEof>(v),
        }),
{
    if data.len() < NUMBER_LEN {
        return Err(UnexpectedEof);
    }
    Ok(
        data[0] as u64 * 0x0100_0000_0000_0000 + data[1] as u64 * 0x0001_0000_0000_0000
            + data[2] as u64 * 0x0000_0100_0000_0000 + data[3] as u64 * 0x0000_0001_0000_0000
            + data[4] as u64 * 0x0100_0000 + data[5] as u64 * 0x0001_0000 + data[6] as u64 * 0x0100
            + data[7] as u64,
    )
}

/// Decodes a signed integer from the front of `data`.
pub fn decode_i64(data: &[u8]) -> (r: Result<i64, UnexpectedEof>)
    ensures
        r == (match spec_decode_i64(data@) {
            None => Err(UnexpectedEof),
            Some(v) => Ok::<i64, UnexpectedEof>(v),
        }),
{
    match decode_u64(data) {
        Err(e) => Err(e),
        Ok(u) => {
            assert((u ^ 0x8000_0000_0000_0000u64) as i64 == u - 0x8000_0000_0000_0000u64)
                by (bit_vector);
            Ok((u ^ SIGN_MARK) as i64)
        },
    }
}

/// Decodes a double from the front of `data`, as its bit pattern.
pub fn decode_f64(data: &[u8]) -> (r: Result<u64, UnexpectedEof>)
    ensures
        r == (match spec_decode_f64(data@) {
            None => Err(UnexpectedEof),
            Some(v) => Ok::<u64, UnexpectedEof>(v),
        }),
{
    match decode_u64(data) {
        Err(e) => Err(e),
        Ok(u) => {
            if u >= SIGN_MARK {
                Ok(u - SIGN_MARK)
            } else {
                Ok(u64::MAX - u)
            }
        },
    }
}

/// Appends the encoding of an unsigned integer to `buf`.
pub fn encode_u64(buf: &mut Vec<u8>, v: u64)
    ensures
        final(buf)@ == old(buf)@ + be_bytes(v),
{
    buf.push((v / 0x0100_0000_0000_0000) as u8);
    buf.push((v / 0x0001_0000_0000_0000 % 256) as u8);
    buf.push((v / 0x0000_0100_0000_0000 % 256) as u8);
    buf.push((v / 0x0000_0001_0000_0000 % 256) as u8);
    buf.push((v / 0x0100_0000 % 256) as u8);
    buf.push((v / 0x0001_0000 % 256) as u8);
    buf.push((v / 0x0100 % 256) as u8);
    buf.push((v % 256) as u8);
}

/// Appends the encoding of a signed integer to `buf`.
pub fn encode_i64(buf: &mut Vec<u8>, v: i64)
    ensures
        final(buf)@ == old(buf)@ + be_bytes((v + SIGN_MARK) as u64),
{
    assert(((v as u64) ^ 0x8000_0000_0000_0000u64) == v + 0x8000_0000_0000_0000u64)
        by (bit_vector);
    encode_u64(buf, (v as u64) ^ SIGN_MARK);
}

/// Appends the encoding of the double with the bit pattern `bits` to `buf`.
pub fn encode_f64(buf: &mut Vec<u8>, bits: u64)
    ensures
        final(buf)@ == old(buf)@ + be_bytes(order_encode_f64(bits)),
{
    if bits < SIGN_MARK {
        encode_u64(buf, bits + SIGN_MARK);
    } else {
        encode_u64(buf, u64::MAX - bits);
    }
}

/// Decoding gives back an encoded unsigned integer, whatever bytes follow it.
pub proof fn law_u64_round_trip(v: u64, rest: Seq<u8>)
    ensures
        spec_decode_u64(be_bytes(v) + rest) == Some(v),
{
    assert(v / 0x0100_0000_0000_0000 < 256 && v == (v / 0x0100_0000_0000_0000)
        * 0x0100_0000_0000_0000 + (v / 0x0001_0000_0000_0000 % 256) * 0x0001_0000_0000_0000 + (v
        / 0x0000_0100_0000_0000 % 256) * 0x0000_0100_0000_0000 + (v / 0x0000_0001_0000_0000 % 256)
        * 0x0000_0001_0000_0000 + (v / 0x0100_0000 % 256) * 0x0100_0000 + (v / 0x0001_0000 % 256)
        * 0x0001_0000 + (v / 0x0100 % 256) * 0x0100 + v % 256) by (bit_vector);
    let data = be_bytes(v) + rest;
    assert(data.subrange(0, 8) =~= be_bytes(v));
    assert(be_value(data) == be_value(be_bytes(v)));
}

/// Decoding gives back an encoded signed integer, whatever bytes follow it.
pub proof fn law_i64_round_trip(v: i64, rest: Seq<u8>)
    ensures
        spec_decode_i64(be_bytes((v + SIGN_MARK) as u64) + rest) == Some(v),
{
    law_u64_round_trip((v + SIGN_MARK) as u64, rest);
}

/// Decoding gives back the bit pattern of an encoded double, whatever bytes follow it.
pub proof fn law_f64_round_trip(bits: u64, rest: Seq<u8>)
    ensures
        spec_decode_f64(be_bytes(order_encode_f64(bits)) + rest) == Some(bits),
{
    law_u64_round_trip(order_encode_f64(bits), rest);
}

} // verus!
