//! Calls into the RLP decoder.
//!
//! Each function decodes one item at the front of a buffer and returns it with the bytes behind
//! it.

use crate::primitives::U256;
use alloy_rlp::Decodable;
use vstd::prelude::*;

verus! {

/// The error of the RLP decoder.
#[verifier::external_type_specification]
#[verifier::external_body]
pub struct ExRlpError(alloy_rlp::Error);

/// The number that big-endian bytes stand for.
pub open spec fn big_endian(bytes: Seq<u8>) -> nat
    decreases bytes.len(),
{
    if bytes.len() == 0 {
        0
    } else {
        big_endian(bytes.drop_last()) * 256 + bytes.last() as nat
    }
}

/// A header before the given bytes, which have to hold the whole payload.
pub open spec fn header_before(list: bool, len: nat, rest: Seq<u8>) -> Option<
    (bool, nat, Seq<u8>),
> {
    if len <= rest.len() {
        Some((list, len, rest))
    } else {
        None
    }
}

/// A header whose length stands in the given number of bytes at the front: it has no leading
/// zero, and is one that a single byte could not hold.
pub open spec fn long_header(list: bool, width: int, bytes: Seq<u8>) -> Option<
    (bool, nat, Seq<u8>),
> {
    let len = big_endian(bytes.take(width));
    if bytes.len() < width || bytes[0] == 0 || len < 56 {
        None
    } else {
        header_before(list, len, bytes.skip(width))
    }
}

/// The header at the front of a buffer: whether the item is a list, the length of its payload,
/// and the bytes from the payload on; `None` where there is no header in its shortest form, or
/// not the whole payload.
///
/// The first byte is a payload of its own, or the length of a string, or the width of the length
/// of a string, or the length of a list, or the width of the length of a list.
pub open spec fn rlp_header(buf: Seq<u8>) -> Option<(bool, nat, Seq<u8>)> {
    let rest = buf.skip(1);
    if buf.len() == 0 {
        None
    } else if buf[0] < 0x80 {
        Some((false, 1, buf))
    } else if buf[0] < 0xb8 {
        if buf[0] == 0x81 && rest.len() > 0 && rest[0] < 0x80 {
            None
        } else {
            header_before(false, (buf[0] - 0x80) as nat, rest)
        }
    } else if buf[0] < 0xc0 {
        long_header(false, buf[0] - 0xb7, rest)
    } else if buf[0] < 0xf8 {
        header_before(true, (buf[0] - 0xc0) as nat, rest)
    } else {
        long_header(true, buf[0] - 0xf7, rest)
    }
}

/// The payload of the byte string at the front of a buffer, and the bytes behind it.
pub open spec fn rlp_string(buf: Seq<u8>) -> Option<(Seq<u8>, Seq<u8>)> {
    match rlp_header(buf) {
        Some((false, len, rest)) => Some((rest.take(len as int), rest.skip(len as int))),
        _ => None,
    }
}

/// The payload of an integer of at most `width` bytes: big-endian, without leading zeros.
pub open spec fn is_integer_payload(payload: Seq<u8>, width: nat) -> bool {
    payload.len() <= width && (payload.len() > 0 ==> payload[0] != 0)
}

/// The integer of 64 bits at the front of a buffer, and the bytes behind it.
pub open spec fn rlp_u64(buf: Seq<u8>) -> Option<(nat, Seq<u8>)> {
    match rlp_string(buf) {
        Some((payload, rest)) if is_integer_payload(payload, 8) => Some(
            (big_endian(payload), rest),
        ),
        _ => None,
    }
}

/// The payload padded on the left with zeros to 32 bytes.
pub open spec fn left_padded(payload: Seq<u8>) -> Seq<u8> {
    Seq::new((32 - payload.len()) as nat, |i: int| 0u8) + payload
}

/// The 32 big-endian bytes of the integer of 256 bits at the front of a buffer, and the bytes
/// behind it.
pub open spec fn rlp_u256(buf: Seq<u8>) -> Option<(Seq<u8>, Seq<u8>)> {
    match rlp_string(buf) {
        Some((payload, rest)) if is_integer_payload(payload, 32) => Some(
            (left_padded(payload), rest),
        ),
        _ => None,
    }
}

/// Calls `alloy_rlp::Header::decode`.
///
/// Trusted: it succeeds exactly on a header in its shortest form with the whole payload behind
/// it, returns whether the item is a list and how long its payload is, and leaves the bytes from
/// the payload on.
#[verifier::external_body]
pub(crate) fn decode_header<'a>(buf: &'a [u8]) -> (r: Result<
    (bool, usize, &'a [u8]),
    alloy_rlp::Error,
>)
    ensures
        match r {
            Ok((list, len, rest)) => rlp_header(buf@) == Some((list, len as nat, rest@)),
            Err(_) => rlp_header(buf@) is None,
        },
{
    let mut rest = buf;
    let header = alloy_rlp::Header::decode(&mut rest)?;
    Ok((header.list, header.payload_length, rest))
}

/// Calls `<u64 as alloy_rlp::Decodable>::decode`.
///
/// Trusted: it succeeds exactly on a byte string of at most eight bytes without a leading zero,
/// returns the number that these bytes stand for, and leaves what follows them.
#[verifier::external_body]
pub(crate) fn decode_u64<'a>(buf: &'a [u8]) -> (r: Result<(u64, &'a [u8]), alloy_rlp::Error>)
    ensures
        match r {
            Ok((value, rest)) => rlp_u64(buf@) == Some((value as nat, rest@)),
            Err(_) => rlp_u64(buf@) is None,
        },
{
    let mut rest = buf;
    let value = u64::decode(&mut rest)?;
    Ok((value, rest))
}

/// Calls `<alloy_primitives::U256 as alloy_rlp::Decodable>::decode`.
///
/// Trusted: it succeeds exactly on a byte string of at most 32 bytes without a leading zero,
/// returns the number that these bytes stand for, and leaves what follows them.
#[verifier::external_body]
pub(crate) fn decode_u256<'a>(buf: &'a [u8]) -> (r: Result<(U256, &'a [u8]), alloy_rlp::Error>)
    ensures
        match r {
            Ok((value, rest)) => rlp_u256(buf@) == Some((value@, rest@)),
            Err(_) => rlp_u256(buf@) is None,
        },
{
    let mut rest = buf;
    let value = alloy_primitives::U256::decode(&mut rest)?;
    Ok((U256(value.to_be_bytes::<32>()), rest))
}

/// Calls `<alloy_primitives::Bytes as alloy_rlp::Decodable>::decode`.
///
/// Trusted: it succeeds exactly on a byte string, returns its payload, and leaves what follows
/// it.
#[verifier::external_body]
pub(crate) fn decode_bytes<'a>(buf: &'a [u8]) -> (r: Result<(Vec<u8>, &'a [u8]), alloy_rlp::Error>)
    ensures
        match r {
            Ok((payload, rest)) => rlp_string(buf@) == Some((payload@, rest@)),
            Err(_) => rlp_string(buf@) is None,
        },
{
    let mut rest = buf;
    let payload = alloy_primitives::Bytes::decode(&mut rest)?;
    Ok((payload.to_vec(), rest))
}

} // verus!
