//! The protobuf wire format, as far as the sensor messages use it.
//!
//! The primitive reads (keys, varint-coded integers, fixed-width integers,
//! length-delimited strings, skipping unknown fields) are done by `prost`; this
//! module states what each of them returns, and gives the matching encodings
//! as spec functions.
use vstd::prelude::*;
use vstd::utf8::valid_utf8;
use vstd::utf8::decode_utf8;
use prost::DecodeError;
use vstd::string::to_string_from_display_ensures;

verus! {

/// Declares `prost::DecodeError`, the error of every failed protobuf read.
#[verifier::external_type_specification]
#[verifier::external_body]
pub struct ExDecodeError(prost::DecodeError);

/// Wire type of a varint-coded field.
pub const WIRE_VARINT: u8 = 0;

/// Wire type of an eight-byte little-endian field.
pub const WIRE_SIXTY_FOUR_BIT: u8 = 1;

/// Wire type of a length-delimited field.
pub const WIRE_LENGTH_DELIMITED: u8 = 2;

/// Wire type that opens a group.
pub const WIRE_START_GROUP: u8 = 3;

/// Wire type that closes a group.
pub const WIRE_END_GROUP: u8 = 4;

/// Wire type of a four-byte little-endian field.
pub const WIRE_THIRTY_TWO_BIT: u8 = 5;

/// Reads a base-128 varint from the front of `bytes`, looking at no more than
/// `budget` bytes: each byte gives seven bits, least significant group first,
/// and the first byte below 0x80 ends the number. Gives the value and the
/// number of bytes read.
pub open spec fn varint_prefix(bytes: Seq<u8>, budget: nat) -> Option<(nat, nat)>
    decreases budget,
{
    if budget == 0 || bytes.len() == 0 {
        None
    } else if bytes[0] < 128 {
        Some((bytes[0] as nat, 1nat))
    } else {
        match varint_prefix(bytes.drop_first(), (budget - 1) as nat) {
            Some((v, n)) => Some((((bytes[0] - 128) + 128 * v) as nat, n + 1)),
            None => None,
        }
    }
}

/// A protobuf varint at the front of `bytes`: at most ten bytes, and a tenth
/// byte of at most 1, so that the value fits in 64 bits.
pub open spec fn spec_varint(bytes: Seq<u8>) -> Option<(u64, nat)> {
    match varint_prefix(bytes, 10) {
        Some((v, n)) => if n == 10 && bytes[9] >= 2 {
            None
        } else {
            Some((v as u64, n))
        },
        None => None,
    }
}

/// A field key at the front of `bytes`: a varint that fits in 32 bits, whose
/// low three bits are a wire type of at most 5 and whose remaining bits are a
/// field number of at least 1. Gives the field number, the wire type and the
/// number of bytes read.
pub open spec fn spec_key(bytes: Seq<u8>) -> Option<(u32, u8, nat)> {
    match spec_varint(bytes) {
        Some((k, n)) => if k > 0xffff_ffff || k % 8 > 5 || k / 8 == 0 {
            None
        } else {
            Some(((k / 8) as u32, (k % 8) as u8, n))
        },
        None => None,
    }
}

/// The little-endian number held by the first `n` bytes of `bytes`.
pub open spec fn le_value(bytes: Seq<u8>, n: nat) -> nat
    decreases n,
{
    if n == 0 || bytes.len() == 0 {
        0
    } else {
        bytes[0] as nat + 256 * le_value(bytes.drop_first(), (n - 1) as nat)
    }
}

/// An `int32` field's value: a varint under the varint wire type, cut to its
/// low 32 bits.
pub open spec fn spec_int32_field(wire_type: u8, bytes: Seq<u8>) -> Option<(i32, nat)> {
    if wire_type != WIRE_VARINT {
        None
    } else {
        match spec_varint(bytes) {
            Some((v, n)) => Some((v as i32, n)),
            None => None,
        }
    }
}

/// A `fixed64` field's value: eight little-endian bytes under the 64-bit wire type.
pub open spec fn spec_fixed64_field(wire_type: u8, bytes: Seq<u8>) -> Option<(u64, nat)> {
    if wire_type == WIRE_SIXTY_FOUR_BIT && bytes.len() >= 8 {
        Some((le_value(bytes, 8) as u64, 8nat))
    } else {
        None
    }
}

/// A `string` field's value: under the length-delimited wire type, a varint
/// length followed by that many bytes of well-formed UTF-8.
pub open spec fn spec_string_field(wire_type: u8, bytes: Seq<u8>) -> Option<(Seq<char>, nat)> {
    if wire_type != WIRE_LENGTH_DELIMITED {
        None
    } else {
        match spec_varint(bytes) {
            Some((len, n)) => if n + len > bytes.len() {
                None
            } else {
                let content = bytes.subrange(n as int, (n + len) as int);
                if valid_utf8(content) {
                    Some((decode_utf8(content), (n + len) as nat))
                } else {
                    None
                }
            },
            None => None,
        }
    }
}

/// The recursion budget of a fresh prost decode context: how many levels of
/// nested groups `skip_field` enters before it refuses.
pub open spec fn skip_depth_limit() -> nat {
    100
}

/// How many bytes a field of number `tag` takes after its key, by its wire
/// type, with `depth` levels of recursion left (none left: refused). A group
/// is skipped field by field up to the end-group key of the same number.
pub open spec fn skip_field_at(wire_type: u8, tag: u32, bytes: Seq<u8>, depth: nat) -> Option<nat>
    decreases depth, bytes.len(), 1nat,
{
    if depth == 0 {
        None
    } else if wire_type == WIRE_VARINT {
        match spec_varint(bytes) {
            Some((_, n)) => Some(n),
            None => None,
        }
    } else if wire_type == WIRE_SIXTY_FOUR_BIT {
        if bytes.len() >= 8 {
            Some(8nat)
        } else {
            None
        }
    } else if wire_type == WIRE_LENGTH_DELIMITED {
        match spec_varint(bytes) {
            Some((len, n)) => if n + len > bytes.len() {
                None
            } else {
                Some((n + len) as nat)
            },
            None => None,
        }
    } else if wire_type == WIRE_START_GROUP {
        skip_group_body(tag, bytes, (depth - 1) as nat)
    } else if wire_type == WIRE_THIRTY_TWO_BIT {
        if bytes.len() >= 4 {
            Some(4nat)
        } else {
            None
        }
    } else {
        None
    }
}

/// How many bytes the rest of a group of number `tag` takes, up to and
/// including its end-group key; the fields inside are skipped with `depth`
/// levels of recursion left. An end-group key of another number is refused.
/// (A key always takes at least one byte and a field no more than there is;
/// the guards only make the recursion visibly finite.)
pub open spec fn skip_group_body(tag: u32, bytes: Seq<u8>, depth: nat) -> Option<nat>
    decreases depth, bytes.len(), 0nat,
{
    match spec_key(bytes) {
        Some((inner_tag, inner_wire_type, n)) => if !(1 <= n <= bytes.len()) {
            None
        } else if inner_wire_type == WIRE_END_GROUP {
            if inner_tag == tag {
                Some(n)
            } else {
                None
            }
        } else {
            match skip_field_at(inner_wire_type, inner_tag, bytes.skip(n as int), depth) {
                Some(m) => if n + m > bytes.len() {
                    None
                } else {
                    match skip_group_body(tag, bytes.skip((n + m) as int), depth) {
                        Some(k) => Some(n + m + k),
                        None => None,
                    }
                },
                None => None,
            }
        },
        None => None,
    }
}

/// How many bytes a field of an unknown number takes after its key, as
/// skipped with a fresh decode context.
#[verifier::opaque]
pub open spec fn spec_skip_field(wire_type: u8, tag: u32, bytes: Seq<u8>) -> Option<nat> {
    skip_field_at(wire_type, tag, bytes, skip_depth_limit())
}

/// A varint read from the front of `bytes` reads the same whatever follows.
pub proof fn lemma_varint_prefix_extend(bytes: Seq<u8>, tail: Seq<u8>, budget: nat)
    ensures
        varint_prefix(bytes, budget) matches Some(p) ==> varint_prefix(bytes + tail, budget) == Some(p),
    decreases budget,
{
    if budget > 0 && bytes.len() > 0 {
        assert((bytes + tail)[0] == bytes[0]);
        if bytes[0] >= 128 {
            lemma_varint_prefix_extend(bytes.drop_first(), tail, (budget - 1) as nat);
            assert((bytes + tail).drop_first() =~= bytes.drop_first() + tail);
        }
    }
}

/// A key read from the front of `bytes` reads the same whatever follows.
pub proof fn lemma_key_extend(bytes: Seq<u8>, tail: Seq<u8>)
    ensures
        spec_varint(bytes) matches Some(p) ==> spec_varint(bytes + tail) == Some(p),
        spec_key(bytes) matches Some(k) ==> spec_key(bytes + tail) == Some(k),
{
    lemma_varint_prefix_extend(bytes, tail, 10);
    crate::sensor_parser::lemma_varint_prefix_len(bytes, 10);
    if let Some((v, n)) = varint_prefix(bytes, 10) {
        if n == 10 {
            assert((bytes + tail)[9] == bytes[9]);
        }
    }
}

/// A field body that `skip_field_at` passes over reads the same whatever
/// follows it.
pub proof fn lemma_skip_prefix(wire_type: u8, tag: u32, bytes: Seq<u8>, tail: Seq<u8>, depth: nat)
    ensures
        skip_field_at(wire_type, tag, bytes, depth) matches Some(m) ==> skip_field_at(
            wire_type,
            tag,
            bytes + tail,
            depth,
        ) == Some(m),
    decreases depth, bytes.len(), 1nat,
{
    lemma_key_extend(bytes, tail);
    if depth > 0 && wire_type == WIRE_START_GROUP {
        lemma_group_prefix(tag, bytes, tail, (depth - 1) as nat);
    }
}

/// The rest of a group that `skip_group_body` passes over reads the same
/// whatever follows it.
pub proof fn lemma_group_prefix(tag: u32, bytes: Seq<u8>, tail: Seq<u8>, depth: nat)
    ensures
        skip_group_body(tag, bytes, depth) matches Some(k) ==> skip_group_body(tag, bytes + tail, depth)
            == Some(k),
    decreases depth, bytes.len(), 0nat,
{
    lemma_key_extend(bytes, tail);
    if let Some((inner_tag, inner_wire_type, n)) = spec_key(bytes) {
        if 1 <= n <= bytes.len() && inner_wire_type != WIRE_END_GROUP {
            let rest = bytes.skip(n as int);
            assert((bytes + tail).skip(n as int) =~= rest + tail);
            lemma_skip_prefix(inner_wire_type, inner_tag, rest, tail, depth);
            if let Some(m) = skip_field_at(inner_wire_type, inner_tag, rest, depth) {
                if n + m <= bytes.len() {
                    let after = bytes.skip((n + m) as int);
                    assert((bytes + tail).skip((n + m) as int) =~= after + tail);
                    lemma_group_prefix(tag, after, tail, depth);
                }
            }
        }
    }
}

/// The base-128 varint encoding of `v`: seven bits per byte, least significant
/// group first, the high bit set on every byte but the last.
pub open spec fn encode_varint(v: nat) -> Seq<u8>
    decreases v,
{
    if v < 128 {
        seq![v as u8]
    } else {
        seq![(v % 128 + 128) as u8] + encode_varint(v / 128)
    }
}

/// The key of a field: its number and wire type, varint-encoded.
pub open spec fn encode_key(tag: nat, wire_type: nat) -> Seq<u8> {
    encode_varint(tag * 8 + wire_type)
}

/// The `n`-byte little-endian encoding of `v`.
pub open spec fn encode_le(v: nat, n: nat) -> Seq<u8>
    decreases n,
{
    if n == 0 {
        seq![]
    } else {
        seq![(v % 256) as u8] + encode_le(v / 256, (n - 1) as nat)
    }
}

/// 128 to the power `k`.
pub open spec fn pow128(k: nat) -> nat
    decreases k,
{
    if k == 0 {
        1
    } else {
        128 * pow128((k - 1) as nat)
    }
}

/// 256 to the power `k`.
pub open spec fn pow256(k: nat) -> nat
    decreases k,
{
    if k == 0 {
        1
    } else {
        256 * pow256((k - 1) as nat)
    }
}

/// Reading back an encoded varint, followed by anything, gives its value and
/// length, given enough budget.
pub proof fn lemma_varint_prefix_encode(v: nat, tail: Seq<u8>, budget: nat)
    requires
        encode_varint(v).len() <= budget,
    ensures
        varint_prefix(encode_varint(v) + tail, budget) == Some((v, encode_varint(v).len())),
    decreases v,
{
    let b = encode_varint(v) + tail;
    if v < 128 {
        assert(b[0] == v as u8);
    } else {
        lemma_varint_prefix_encode(v / 128, tail, (budget - 1) as nat);
        assert(b.drop_first() =~= encode_varint(v / 128) + tail);
        assert(b[0] == (v % 128 + 128) as u8);
        assert(v == v % 128 + 128 * (v / 128));
    }
}

/// A number below twice `128^k` takes at most `k + 1` bytes; if it takes
/// exactly that many, its last byte is 0 or 1.
pub proof fn lemma_varint_len(v: nat, k: nat)
    requires
        v < 2 * pow128(k),
    ensures
        encode_varint(v).len() <= k + 1,
        encode_varint(v).len() == k + 1 ==> encode_varint(v).last() < 2,
    decreases k,
{
    if v >= 128 {
        assert(k > 0);
        let p = pow128((k - 1) as nat);
        assert(v / 128 < 2 * p) by (nonlinear_arith)
            requires
                v < 2 * (128 * p),
        ;
        lemma_varint_len(v / 128, (k - 1) as nat);
        let e = encode_varint(v);
        assert(e == seq![(v % 128 + 128) as u8] + encode_varint(v / 128));
        if e.len() == k + 1 {
            assert(e.last() == encode_varint(v / 128).last());
        }
    }
}

/// The varint encoding of a 64-bit value reads back, by prost's rules, as
/// that value and the encoding's length, whatever follows it.
pub proof fn lemma_varint_roundtrip(v: u64, tail: Seq<u8>)
    ensures
        spec_varint(encode_varint(v as nat) + tail) == Some((v, encode_varint(v as nat).len())),
        1 <= encode_varint(v as nat).len() <= 10,
{
    reveal_with_fuel(pow128, 10);
    assert(pow128(9) == 9223372036854775808nat);
    lemma_varint_len(v as nat, 9);
    let e = encode_varint(v as nat);
    lemma_varint_prefix_encode(v as nat, tail, 10);
    if e.len() == 10 {
        assert((e + tail)[9] == e.last());
    }
}

/// An encoded key of a valid field number and wire type reads back as both.
pub proof fn lemma_key_roundtrip(tag: nat, wire_type: nat, tail: Seq<u8>)
    requires
        1 <= tag,
        tag * 8 + wire_type <= 0xffff_ffff,
        wire_type <= 5,
    ensures
        spec_key(encode_key(tag, wire_type) + tail) == Some(
            (tag as u32, wire_type as u8, encode_key(tag, wire_type).len()),
        ),
{
    let k = tag * 8 + wire_type;
    lemma_varint_roundtrip(k as u64, tail);
    assert(k % 8 == wire_type);
    assert(k / 8 == tag);
}

/// The `n`-byte little-endian encoding has `n` bytes and, for a value below
/// `256^n`, reads back as that value.
pub proof fn lemma_le_roundtrip(v: nat, n: nat, tail: Seq<u8>)
    requires
        v < pow256(n),
    ensures
        encode_le(v, n).len() == n,
        le_value(encode_le(v, n) + tail, n) == v,
    decreases n,
{
    if n > 0 {
        let p = pow256((n - 1) as nat);
        assert(v / 256 < p) by (nonlinear_arith)
            requires
                v < 256 * p,
        ;
        lemma_le_roundtrip(v / 256, (n - 1) as nat, tail);
        let b = encode_le(v, n) + tail;
        assert(b.drop_first() =~= encode_le(v / 256, (n - 1) as nat) + tail);
        assert(v == v % 256 + 256 * (v / 256));
    }
}

/// The start of the `Display` text of every prost decode error.
pub open spec fn decode_error_heading() -> Seq<char> {
    "failed to decode Protobuf message: "@
}

/// The description prost gives when `prost::encoding::decode_key` fails on
/// `bytes` (such as `invalid varint` or `invalid tag value: 0`).
pub uninterp spec fn key_error_description(bytes: Seq<u8>) -> Seq<char>;

/// The description prost gives when `prost::encoding::skip_field` fails on
/// `bytes` for a field of number `tag` under the given wire type.
pub uninterp spec fn skip_error_description(wire_type: u8, tag: u32, bytes: Seq<u8>) -> Seq<char>;

/// Calls `prost::encoding::decode_key` on `buf`. Claims that it succeeds
/// exactly when `buf` starts with a valid key (`spec_key`), that it gives that
/// key's field number and wire type, and that what is left of the buffer is
/// `rest` bytes long. On failure, the error records no location, so its
/// `Display` text is the heading followed by a description that depends on
/// `buf` alone (named, not written out).
#[verifier::external_body]
pub(crate) fn decode_key(buf: &[u8]) -> (r: Result<(u32, u8, usize), DecodeError>)
    ensures
        match r {
            Ok((tag, wire_type, rest)) => rest <= buf@.len() && spec_key(buf@) == Some(
                (tag, wire_type, (buf@.len() - rest) as nat),
            ),
            Err(e) => spec_key(buf@) is None && forall|d: String| #[trigger]
                to_string_from_display_ensures::<DecodeError>(&e, d) ==> d@ == decode_error_heading()
                + key_error_description(buf@),
        },
{
    let mut b = buf;
    let (tag, wire_type) = prost::encoding::decode_key(&mut b)?;
    Ok((tag, wire_type as u8, b.len()))
}

/// Calls `prost::encoding::int32::merge` on `buf` under the given wire type.
/// Claims that it succeeds exactly when `spec_int32_field` does, with that
/// value, and that `rest` bytes of the buffer are left.
#[verifier::external_body]
pub(crate) fn merge_int32(wire_type: u8, buf: &[u8]) -> (r: Result<(i32, usize), DecodeError>)
    ensures
        match r {
            Ok((v, rest)) => rest <= buf@.len() && spec_int32_field(wire_type, buf@) == Some(
                (v, (buf@.len() - rest) as nat),
            ),
            Err(_) => spec_int32_field(wire_type, buf@) is None,
        },
{
    let mut b = buf;
    let mut value: i32 = 0;
    let wt = prost::encoding::WireType::try_from(u64::from(wire_type))?;
    prost::encoding::int32::merge(wt, &mut value, &mut b, Default::default())?;
    Ok((value, b.len()))
}

/// Calls `prost::encoding::fixed64::merge` on `buf` under the given wire type.
/// Claims that it succeeds exactly when `spec_fixed64_field` does, with that
/// value, and that `rest` bytes of the buffer are left. (A `double` field is
/// read the same way: its value is these 64 bits.)
#[verifier::external_body]
pub(crate) fn merge_fixed64(wire_type: u8, buf: &[u8]) -> (r: Result<(u64, usize), DecodeError>)
    ensures
        match r {
            Ok((v, rest)) => rest <= buf@.len() && spec_fixed64_field(wire_type, buf@) == Some(
                (v, (buf@.len() - rest) as nat),
            ),
            Err(_) => spec_fixed64_field(wire_type, buf@) is None,
        },
{
    let mut b = buf;
    let mut value: u64 = 0;
    let wt = prost::encoding::WireType::try_from(u64::from(wire_type))?;
    prost::encoding::fixed64::merge(wt, &mut value, &mut b, Default::default())?;
    Ok((value, b.len()))
}

/// Calls `prost::encoding::string::merge` on `buf` under the given wire type.
/// Claims that it succeeds exactly when `spec_string_field` does, with that
/// text, and that `rest` bytes of the buffer are left.
#[verifier::external_body]
pub(crate) fn merge_string(wire_type: u8, buf: &[u8]) -> (r: Result<(String, usize), DecodeError>)
    ensures
        match r {
            Ok((s, rest)) => rest <= buf@.len() && spec_string_field(wire_type, buf@) == Some(
                (s@, (buf@.len() - rest) as nat),
            ),
            Err(_) => spec_string_field(wire_type, buf@) is None,
        },
{
    let mut b = buf;
    let mut value = String::new();
    let wt = prost::encoding::WireType::try_from(u64::from(wire_type))?;
    prost::encoding::string::merge(wt, &mut value, &mut b, Default::default())?;
    Ok((value, b.len()))
}

/// Calls `prost::encoding::skip_field` on `buf` for a field of number `tag`
/// under the given wire type, with a fresh decode context. Claims that it
/// succeeds exactly when `spec_skip_field` does, passing over that many bytes,
/// and that `rest` bytes of the buffer are left. On failure, the error records
/// no location (nested fields' errors are passed on as they are), so its
/// `Display` text is the heading followed by a description that depends on
/// the arguments alone (named, not written out).
#[verifier::external_body]
pub(crate) fn skip_field(wire_type: u8, tag: u32, buf: &[u8]) -> (r: Result<usize, DecodeError>)
    ensures
        match r {
            Ok(rest) => rest <= buf@.len() && spec_skip_field(wire_type, tag, buf@) == Some(
                (buf@.len() - rest) as nat,
            ),
            Err(e) => spec_skip_field(wire_type, tag, buf@) is None && forall|d: String| #[trigger]
                to_string_from_display_ensures::<DecodeError>(&e, d) ==> d@ == decode_error_heading()
                + skip_error_description(wire_type, tag, buf@),
        },
{
    let mut b = buf;
    let wt = prost::encoding::WireType::try_from(u64::from(wire_type))?;
    prost::encoding::skip_field(wt, tag, &mut b, Default::default())?;
    Ok(b.len())
}

/// `part` occurs somewhere in `s`.
pub open spec fn contains_text(s: Seq<char>, part: Seq<char>) -> bool {
    exists|i: int| 0 <= i && i + part.len() <= s.len() && #[trigger] s.subrange(i, i + part.len()) == part
}

/// Calls `prost::DecodeError::push`, which records in the error the message
/// and field in which decoding failed. Claims that the error's `Display` text
/// then holds `<message>.<field>: ` (prost writes each recorded location so).
/// The rest of the text is not stated: where the location stands in it
/// depends on the locations already recorded, which are hidden in the error.
#[verifier::external_body]
pub(crate) fn push_location(error: DecodeError, message: &'static str, field: &'static str) -> (r: DecodeError)
    ensures
        forall|d: String| #[trigger] to_string_from_display_ensures::<DecodeError>(&r, d) ==> contains_text(
            d@,
            message@ + "."@ + field@ + ": "@,
        ),
{
    let mut e = error;
    e.push(message, field);
    e
}

} // verus!
