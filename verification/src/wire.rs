//! The protobuf wire format, as far as the gRPC encapsulation messages use it.
//!
//! The spec functions here say what bytes a value is written as and what a
//! sequence of bytes is read as. The trusted items below tie prost's encoding
//! primitives to those spec functions; everything built on them is verified.

use vstd::prelude::*;
use vstd::utf8::*;
use prost::encoding::WireType;

verus! {

/// prost's error for malformed input; it is only ever carried, never inspected.
#[verifier::external_type_specification]
#[verifier::external_body]
pub struct ExDecodeError(prost::DecodeError);

/// The largest field tag that protobuf allows.
pub const MAX_TAG: u32 = 536870911;

/// The six protobuf wire types, in the order of their numbers.
#[derive(Clone, Copy, Debug, PartialEq, Eq, Structural)]
pub enum WireKind {
    Varint,
    SixtyFourBit,
    LengthDelimited,
    StartGroup,
    EndGroup,
    ThirtyTwoBit,
}

/// The number that stands for a wire type in a field key.
pub open spec fn wire_number(kind: WireKind) -> u64 {
    match kind {
        WireKind::Varint => 0,
        WireKind::SixtyFourBit => 1,
        WireKind::LengthDelimited => 2,
        WireKind::StartGroup => 3,
        WireKind::EndGroup => 4,
        WireKind::ThirtyTwoBit => 5,
    }
}

/// The wire type that a number in a field key stands for, if any.
pub open spec fn wire_kind_of(n: u64) -> Option<WireKind> {
    if n == 0 {
        Some(WireKind::Varint)
    } else if n == 1 {
        Some(WireKind::SixtyFourBit)
    } else if n == 2 {
        Some(WireKind::LengthDelimited)
    } else if n == 3 {
        Some(WireKind::StartGroup)
    } else if n == 4 {
        Some(WireKind::EndGroup)
    } else if n == 5 {
        Some(WireKind::ThirtyTwoBit)
    } else {
        None
    }
}

/// The base-128 varint encoding of `v`: seven bits per byte, least
/// significant first, the high bit set on every byte but the last.
pub open spec fn varint_bytes(v: u64) -> Seq<u8>
    decreases v,
{
    if v < 128 {
        seq![v as u8]
    } else {
        seq![(v % 128 + 128) as u8] + varint_bytes(v / 128)
    }
}

/// The length of the varint at the start of `s`, looking from byte `i` on:
/// the first byte below 128 ends it, and it must end within ten bytes.
pub open spec fn varint_end(s: Seq<u8>, i: nat) -> Option<nat>
    decreases 10 - i,
{
    if i >= 10 || i >= s.len() {
        None
    } else if s[i as int] < 128 {
        Some(i + 1)
    } else {
        varint_end(s, i + 1)
    }
}

/// The value of the first `n` bytes of `s` read as base-128 digits, least
/// significant first, without reduction.
pub open spec fn varint_sum(s: Seq<u8>, n: nat) -> nat
    decreases n,
{
    if n == 0 || s.len() == 0 {
        0
    } else {
        (s[0] % 128) as nat + 128 * varint_sum(s.drop_first(), (n - 1) as nat)
    }
}

/// Reads a varint from the start of `s`: its value modulo 2^64 and the bytes
/// after it.
pub open spec fn parse_varint(s: Seq<u8>) -> Option<(u64, Seq<u8>)> {
    match varint_end(s, 0) {
        Some(n) => Some(((varint_sum(s, n) % 0x1_0000_0000_0000_0000) as u64, s.skip(n as int))),
        None => None,
    }
}

/// The bytes of a field key.
pub open spec fn key_bytes(tag: u32, kind: WireKind) -> Seq<u8> {
    varint_bytes((tag * 8 + wire_number(kind)) as u64)
}

/// Reads a field key from the start of `s`: its tag, its wire type and the
/// bytes after it. The key must fit in 32 bits, name a known wire type and a
/// tag other than zero.
pub open spec fn parse_key(s: Seq<u8>) -> Option<(u32, WireKind, Seq<u8>)> {
    match parse_varint(s) {
        Some((key, rest)) => {
            if key > u32::MAX {
                None
            } else {
                match wire_kind_of(key % 8) {
                    Some(kind) => {
                        if key / 8 == 0 {
                            None
                        } else {
                            Some(((key / 8) as u32, kind, rest))
                        }
                    },
                    None => None,
                }
            }
        },
        None => None,
    }
}

/// Reads a length prefix and that many bytes: the payload and the bytes
/// after it.
pub open spec fn parse_delimited(s: Seq<u8>) -> Option<(Seq<u8>, Seq<u8>)> {
    match parse_varint(s) {
        Some((len, rest)) => {
            if len <= rest.len() {
                Some((rest.take(len as int), rest.skip(len as int)))
            } else {
                None
            }
        },
        None => None,
    }
}

/// A length-delimited field's value, after its key.
pub open spec fn bytes_field(kind: WireKind, s: Seq<u8>) -> Option<(Seq<u8>, Seq<u8>)> {
    if kind == WireKind::LengthDelimited {
        parse_delimited(s)
    } else {
        None
    }
}

/// A string field's value, after its key: a length-delimited payload that
/// is well-formed UTF-8.
pub open spec fn string_field(kind: WireKind, s: Seq<u8>) -> Option<(Seq<char>, Seq<u8>)> {
    match bytes_field(kind, s) {
        Some((payload, rest)) => {
            if valid_utf8(payload) {
                Some((decode_utf8(payload), rest))
            } else {
                None
            }
        },
        None => None,
    }
}

/// A varint field's value, after its key.
pub open spec fn varint_field(kind: WireKind, s: Seq<u8>) -> Option<(u64, Seq<u8>)> {
    if kind == WireKind::Varint {
        parse_varint(s)
    } else {
        None
    }
}

/// A whole length-delimited field: key, length prefix, payload.
pub open spec fn delimited_field_bytes(tag: u32, payload: Seq<u8>) -> Seq<u8> {
    key_bytes(tag, WireKind::LengthDelimited) + varint_bytes(payload.len() as u64) + payload
}

/// A whole boolean field.
pub open spec fn bool_field_bytes(tag: u32, value: bool) -> Seq<u8> {
    key_bytes(tag, WireKind::Varint) + varint_bytes(if value { 1 } else { 0 })
}

/// A varint ends after at least one and at most ten bytes, within `s`.
pub proof fn lemma_varint_end_bounds(s: Seq<u8>, i: nat)
    ensures
        varint_end(s, i) matches Some(n) ==> i < n <= s.len() && n <= 10,
    decreases 10 - i,
{
    if i >= 10 || i >= s.len() {
    } else if s[i as int] < 128 {
    } else {
        lemma_varint_end_bounds(s, i + 1);
    }
}

/// Reading a varint consumes at least one byte.
pub proof fn lemma_parse_varint_shrinks(s: Seq<u8>)
    ensures
        parse_varint(s) matches Some((v, rest)) ==> rest.len() < s.len(),
{
    lemma_varint_end_bounds(s, 0);
}

/// Reading a field key consumes at least one byte.
pub proof fn lemma_parse_key_shrinks(s: Seq<u8>)
    ensures
        parse_key(s) matches Some((t, k, rest)) ==> rest.len() < s.len(),
{
    lemma_parse_varint_shrinks(s);
}

/// Reading a length-delimited value consumes at least one byte, and its
/// payload is no longer than what follows the prefix.
pub proof fn lemma_parse_delimited_shrinks(s: Seq<u8>)
    ensures
        parse_delimited(s) matches Some((p, rest)) ==> rest.len() < s.len() && p.len() < s.len(),
{
    lemma_parse_varint_shrinks(s);
}

/// 128 to the power `k`.
pub open spec fn pow128(k: nat) -> nat
    decreases k,
{
    if k == 0 {
        1
    } else {
        128 * pow128((k - 1) as nat)
    }
}

/// The encoding of a varint: its first byte, and how long it is.
proof fn lemma_varint_bytes_shape(v: u64)
    ensures
        varint_bytes(v).len() >= 1,
        v < 128 ==> varint_bytes(v) == seq![v as u8] && (v as u8) < 128,
        v >= 128 ==> varint_bytes(v) == seq![(v % 128 + 128) as u8] + varint_bytes(v / 128)
            && varint_bytes(v)[0] >= 128 && varint_bytes(v)[0] % 128 == v % 128
            && varint_bytes(v).len() == 1 + varint_bytes(v / 128).len(),
{
    if v >= 128 {
        assert(((v % 128 + 128) as u8) % 128 == v % 128);
    }
}

/// A varint written at position `i` of `q` ends where its encoding ends,
/// provided the value fits in the digits left before the ten-byte limit.
proof fn lemma_varint_end_of_bytes(v: u64, q: Seq<u8>, rest: Seq<u8>, i: nat, k: nat)
    requires
        1 <= k,
        i + k <= 10,
        v < pow128(k),
        i <= q.len(),
        q.skip(i as int) == varint_bytes(v) + rest,
    ensures
        varint_end(q, i) == Some(i + varint_bytes(v).len()),
    decreases v,
{
    lemma_varint_bytes_shape(v);
    assert(q.skip(i as int).len() == q.len() - i);
    assert(q[i as int] == q.skip(i as int)[0]);
    if v >= 128 {
        let tail = varint_bytes(v / 128);
        assert(k >= 2) by {
            if k == 1 {
                assert(pow128(0) == 1);
                assert(pow128(1) == 128);
            }
        }
        assert(pow128(k) == 128 * pow128((k - 1) as nat));
        assert(q.skip((i + 1) as int) =~= tail + rest) by {
            assert(q.skip(i as int).drop_first() =~= q.skip((i + 1) as int));
            assert((varint_bytes(v) + rest).drop_first() =~= tail + rest);
        }
        lemma_varint_end_of_bytes(v / 128, q, rest, i + 1, (k - 1) as nat);
    }
}

/// The digits of a varint's encoding add up to its value.
proof fn lemma_varint_sum_of_bytes(v: u64, rest: Seq<u8>)
    ensures
        varint_sum(varint_bytes(v) + rest, varint_bytes(v).len()) == v,
    decreases v,
{
    lemma_varint_bytes_shape(v);
    let s = varint_bytes(v) + rest;
    assert(s[0] == varint_bytes(v)[0]);
    if v < 128 {
        assert(varint_sum(s.drop_first(), 0) == 0);
    } else {
        let tail = varint_bytes(v / 128);
        lemma_varint_sum_of_bytes(v / 128, rest);
        assert(s.drop_first() =~= tail + rest);
    }
}

/// Reading a varint back from its encoding gives the value and leaves what
/// follows.
pub proof fn lemma_parse_varint_bytes(v: u64, rest: Seq<u8>)
    ensures
        parse_varint(varint_bytes(v) + rest) == Some((v, rest)),
{
    let s = varint_bytes(v) + rest;
    assert(pow128(10) == 1180591620717411303424) by {
        assert(pow128(0) == 1);
        assert(pow128(1) == 128);
        assert(pow128(2) == 16384);
        assert(pow128(3) == 2097152);
        assert(pow128(4) == 268435456);
        assert(pow128(5) == 34359738368);
        assert(pow128(6) == 4398046511104);
        assert(pow128(7) == 562949953421312);
        assert(pow128(8) == 72057594037927936);
        assert(pow128(9) == 9223372036854775808);
    }
    assert(s.skip(0) =~= s);
    lemma_varint_end_of_bytes(v, s, rest, 0, 10);
    lemma_varint_sum_of_bytes(v, rest);
    assert(s.skip(varint_bytes(v).len() as int) =~= rest);
}

/// Reading a field key back from its encoding gives its tag and wire type.
pub proof fn lemma_parse_key_bytes(tag: u32, kind: WireKind, rest: Seq<u8>)
    requires
        1 <= tag <= MAX_TAG,
    ensures
        parse_key(key_bytes(tag, kind) + rest) == Some((tag, kind, rest)),
{
    let key = (tag * 8 + wire_number(kind)) as u64;
    lemma_parse_varint_bytes(key, rest);
}

/// Reading a length-delimited value back from its encoding gives the payload.
pub proof fn lemma_parse_delimited_bytes(payload: Seq<u8>, rest: Seq<u8>)
    requires
        payload.len() <= u64::MAX,
    ensures
        parse_delimited(varint_bytes(payload.len() as u64) + payload + rest) == Some((payload, rest)),
{
    let s = varint_bytes(payload.len() as u64) + payload + rest;
    assert(s =~= varint_bytes(payload.len() as u64) + (payload + rest));
    lemma_parse_varint_bytes(payload.len() as u64, payload + rest);
    assert((payload + rest).take(payload.len() as int) =~= payload);
    assert((payload + rest).skip(payload.len() as int) =~= rest);
}

/// `prost::encoding::decode_varint` on a byte slice: reads a varint from the
/// start and leaves the slice after it. The contract claims that it accepts
/// exactly the varints that end within ten bytes and yields their value
/// modulo 2^64.
#[verifier::external_body]
pub fn decode_varint(input: &[u8]) -> (r: Result<(u64, &[u8]), prost::DecodeError>)
    ensures
        match parse_varint(input@) {
            Some((v, rest)) => r matches Ok((x, after)) && x == v && after@ == rest,
            None => r is Err,
        },
{
    let mut buf = input;
    let value = prost::encoding::decode_varint(&mut buf)?;
    Ok((value, buf))
}

/// `prost::encoding::decode_key` on a byte slice: reads a field key. The
/// contract claims that it fails exactly when the varint is malformed, exceeds
/// 32 bits, names no wire type or names tag zero, and otherwise splits the key
/// into tag and wire type.
#[verifier::external_body]
pub fn decode_key(input: &[u8]) -> (r: Result<(u32, WireKind, &[u8]), prost::DecodeError>)
    ensures
        match parse_key(input@) {
            Some((tag, kind, rest)) => r matches Ok((t, k, after)) && t == tag && k == kind
                && after@ == rest,
            None => r is Err,
        },
{
    let mut buf = input;
    let (tag, wire_type) = prost::encoding::decode_key(&mut buf)?;
    let kind = match wire_type {
        WireType::Varint => WireKind::Varint,
        WireType::SixtyFourBit => WireKind::SixtyFourBit,
        WireType::LengthDelimited => WireKind::LengthDelimited,
        WireType::StartGroup => WireKind::StartGroup,
        WireType::EndGroup => WireKind::EndGroup,
        WireType::ThirtyTwoBit => WireKind::ThirtyTwoBit,
    };
    Ok((tag, kind, buf))
}

/// `prost::encoding::bytes::merge` into a fresh vector: reads a bytes field's
/// value. The contract claims that it fails unless the wire type is
/// length-delimited and the payload fits, and otherwise yields the payload.
#[verifier::external_body]
pub fn merge_bytes(kind: WireKind, input: &[u8]) -> (r: Result<(Vec<u8>, &[u8]), prost::DecodeError>)
    ensures
        match bytes_field(kind, input@) {
            Some((payload, rest)) => r matches Ok((v, after)) && v@ == payload && after@ == rest,
            None => r is Err,
        },
{
    let wire_type = match kind {
        WireKind::Varint => WireType::Varint,
        WireKind::SixtyFourBit => WireType::SixtyFourBit,
        WireKind::LengthDelimited => WireType::LengthDelimited,
        WireKind::StartGroup => WireType::StartGroup,
        WireKind::EndGroup => WireType::EndGroup,
        WireKind::ThirtyTwoBit => WireType::ThirtyTwoBit,
    };
    let (mut value, mut buf) = (Vec::new(), input);
    prost::encoding::bytes::merge(wire_type, &mut value, &mut buf, Default::default())?;
    Ok((value, buf))
}

/// `prost::encoding::string::merge` into a fresh string: reads a string
/// field's value. The contract claims that it fails unless the wire type is
/// length-delimited, the payload fits and is well-formed UTF-8, and otherwise
/// yields the string whose UTF-8 bytes are the payload.
#[verifier::external_body]
pub fn merge_string(kind: WireKind, input: &[u8]) -> (r: Result<(String, &[u8]), prost::DecodeError>)
    ensures
        match string_field(kind, input@) {
            Some((chars, rest)) => r matches Ok((v, after)) && v@ == chars && after@ == rest,
            None => r is Err,
        },
{
    let wire_type = match kind {
        WireKind::Varint => WireType::Varint,
        WireKind::SixtyFourBit => WireType::SixtyFourBit,
        WireKind::LengthDelimited => WireType::LengthDelimited,
        WireKind::StartGroup => WireType::StartGroup,
        WireKind::EndGroup => WireType::EndGroup,
        WireKind::ThirtyTwoBit => WireType::ThirtyTwoBit,
    };
    let (mut value, mut buf) = (String::new(), input);
    prost::encoding::string::merge(wire_type, &mut value, &mut buf, Default::default())?;
    Ok((value, buf))
}

/// `prost::encoding::bool::merge`: reads a bool field's value. The contract
/// claims that it fails unless the wire type is varint and the varint is
/// well-formed, and otherwise yields whether the varint is non-zero.
#[verifier::external_body]
pub fn merge_bool(kind: WireKind, input: &[u8]) -> (r: Result<(bool, &[u8]), prost::DecodeError>)
    ensures
        match varint_field(kind, input@) {
            Some((v, rest)) => r matches Ok((b, after)) && b == (v != 0) && after@ == rest,
            None => r is Err,
        },
{
    let wire_type = match kind {
        WireKind::Varint => WireType::Varint,
        WireKind::SixtyFourBit => WireType::SixtyFourBit,
        WireKind::LengthDelimited => WireType::LengthDelimited,
        WireKind::StartGroup => WireType::StartGroup,
        WireKind::EndGroup => WireType::EndGroup,
        WireKind::ThirtyTwoBit => WireType::ThirtyTwoBit,
    };
    let (mut value, mut buf) = (false, input);
    prost::encoding::bool::merge(wire_type, &mut value, &mut buf, Default::default())?;
    Ok((value, buf))
}

/// `prost::encoding::int32::merge`: reads an int32 field's value. The
/// contract claims that it fails unless the wire type is varint and the varint
/// is well-formed, and otherwise yields the varint truncated to 32 bits.
#[verifier::external_body]
pub fn merge_int32(kind: WireKind, input: &[u8]) -> (r: Result<(i32, &[u8]), prost::DecodeError>)
    ensures
        match varint_field(kind, input@) {
            Some((v, rest)) => r matches Ok((x, after)) && x == v as i32 && after@ == rest,
            None => r is Err,
        },
{
    let wire_type = match kind {
        WireKind::Varint => WireType::Varint,
        WireKind::SixtyFourBit => WireType::SixtyFourBit,
        WireKind::LengthDelimited => WireType::LengthDelimited,
        WireKind::StartGroup => WireType::StartGroup,
        WireKind::EndGroup => WireType::EndGroup,
        WireKind::ThirtyTwoBit => WireType::ThirtyTwoBit,
    };
    let (mut value, mut buf) = (0i32, input);
    prost::encoding::int32::merge(wire_type, &mut value, &mut buf, Default::default())?;
    Ok((value, buf))
}

/// `prost::encoding::string::encode`: appends a string field. The contract
/// claims that it appends the key, the UTF-8 length and the UTF-8 bytes.
#[verifier::external_body]
pub fn encode_string(tag: u32, value: &String, buf: &mut Vec<u8>)
    requires
        1 <= tag <= MAX_TAG,
    ensures
        final(buf)@ == old(buf)@ + delimited_field_bytes(tag, encode_utf8(value@)),
{
    prost::encoding::string::encode(tag, value, buf);
}

/// `prost::encoding::bytes::encode`: appends a bytes field. The contract
/// claims that it appends the key, the length and the bytes.
#[verifier::external_body]
pub fn encode_bytes(tag: u32, value: &Vec<u8>, buf: &mut Vec<u8>)
    requires
        1 <= tag <= MAX_TAG,
    ensures
        final(buf)@ == old(buf)@ + delimited_field_bytes(tag, value@),
{
    prost::encoding::bytes::encode(tag, value, buf);
}

/// `prost::encoding::bool::encode`: appends a bool field. The contract claims
/// that it appends the key and the varint 1 or 0.
#[verifier::external_body]
pub fn encode_bool(tag: u32, value: bool, buf: &mut Vec<u8>)
    requires
        1 <= tag <= MAX_TAG,
    ensures
        final(buf)@ == old(buf)@ + bool_field_bytes(tag, value),
{
    prost::encoding::bool::encode(tag, &value, buf);
}

} // verus!
