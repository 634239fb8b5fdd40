//! Decoding of the `SensorReading` protobuf message that sensors publish, and
//! its conversion into a [`SensorData`].
//!
//! The message's schema (package `iot`):
//!
//! ```text
//! enum SensorType { UNKNOWN = 0; TEMPERATURE = 1; HUMIDITY = 2; PRESSURE = 3; }
//! message SensorReading { string id = 1; SensorType type = 2; double value = 3; }
//! ```
use vstd::prelude::*;
use vstd::slice::slice_subrange;
use vstd::string::StringExecFns;
use vstd::string::to_string_from_display_ensures;
use prost::DecodeError;
use crate::domain::{SensorData, SensorId, SensorType};
use crate::error::{displays_as, SensorError};
use crate::wire::{
    decode_key, merge_fixed64, merge_int32, merge_string, push_location, skip_field,
    spec_fixed64_field, spec_int32_field, spec_key, spec_skip_field, spec_string_field,
    varint_prefix, encode_key, encode_le, encode_varint, lemma_key_roundtrip, lemma_le_roundtrip,
    lemma_varint_roundtrip, pow256, contains_text, decode_error_heading, key_error_description,
    skip_error_description, skip_field_at, skip_depth_limit, lemma_skip_prefix,
};
use vstd::utf8::encode_utf8;
use vstd::utf8::encode_utf8_valid_utf8;
use vstd::utf8::encode_utf8_decode_utf8;

verus! {

/// The fields of a decoded `SensorReading`, as mathematical values.
pub struct ReadingFields {
    pub id: Seq<char>,
    pub type_number: i32,
    pub value_bits: u64,
}

/// A decoded `SensorReading` message. `type_number` is the raw number of the
/// `type` field; `value_bits` the 64 bits of the `double` field.
#[derive(Debug, Clone, PartialEq)]
pub struct SensorReading {
    pub id: String,
    pub type_number: i32,
    pub value_bits: u64,
}

impl SensorReading {
    pub open spec fn fields(&self) -> ReadingFields {
        ReadingFields { id: self.id@, type_number: self.type_number, value_bits: self.value_bits }
    }
}

/// The message with no field set: every field at its default.
pub open spec fn default_fields() -> ReadingFields {
    ReadingFields { id: Seq::empty(), type_number: 0, value_bits: 0 }
}

/// One field read from `bytes` (which follow the field's key): known field
/// numbers replace their field, others are skipped. Gives the updated fields
/// and the number of bytes the field's body took.
pub open spec fn field_step(tag: u32, wire_type: u8, bytes: Seq<u8>, acc: ReadingFields) -> Option<
    (ReadingFields, nat),
> {
    if tag == 1 {
        match spec_string_field(wire_type, bytes) {
            Some((s, m)) => Some((ReadingFields { id: s, ..acc }, m)),
            None => None,
        }
    } else if tag == 2 {
        match spec_int32_field(wire_type, bytes) {
            Some((v, m)) => Some((ReadingFields { type_number: v, ..acc }, m)),
            None => None,
        }
    } else if tag == 3 {
        match spec_fixed64_field(wire_type, bytes) {
            Some((v, m)) => Some((ReadingFields { value_bits: v, ..acc }, m)),
            None => None,
        }
    } else {
        match spec_skip_field(wire_type, tag, bytes) {
            Some(m) => Some((acc, m)),
            None => None,
        }
    }
}

/// Reads fields from `bytes` until none are left, starting from `acc`. A
/// later occurrence of a field replaces an earlier one. (A key and field
/// always take at least one byte and at most what is there; the guard on the
/// step only makes the recursion visibly finite.)
pub open spec fn decode_fields(bytes: Seq<u8>, acc: ReadingFields) -> Option<ReadingFields>
    decreases bytes.len(),
{
    if bytes.len() == 0 {
        Some(acc)
    } else {
        match spec_key(bytes) {
            Some((tag, wire_type, n)) => match field_step(tag, wire_type, bytes.skip(n as int), acc) {
                Some((next, m)) => if 0 < n + m <= bytes.len() {
                    decode_fields(bytes.skip((n + m) as int), next)
                } else {
                    None
                },
                None => None,
            },
            None => None,
        }
    }
}

/// Where reading the fields stops on malformed input: at a key (the bytes
/// from that key on), at the body of a known field (its number), or at the
/// body of a skipped field (its wire type, number and the bytes after its key).
pub enum DecodeFailure {
    Key(Seq<u8>),
    Field(u32),
    Skip(u8, u32, Seq<u8>),
}

/// Where reading the fields from `bytes`, starting from `acc`, fails; `None`
/// when it does not fail.
pub open spec fn decode_failure(bytes: Seq<u8>, acc: ReadingFields) -> Option<DecodeFailure>
    decreases bytes.len(),
{
    if bytes.len() == 0 {
        None
    } else {
        match spec_key(bytes) {
            Some((tag, wire_type, n)) => match field_step(tag, wire_type, bytes.skip(n as int), acc) {
                Some((next, m)) => if 0 < n + m <= bytes.len() {
                    decode_failure(bytes.skip((n + m) as int), next)
                } else {
                    None
                },
                None => if 1 <= tag <= 3 {
                    Some(DecodeFailure::Field(tag))
                } else {
                    Some(DecodeFailure::Skip(wire_type, tag, bytes.skip(n as int)))
                },
            },
            None => Some(DecodeFailure::Key(bytes)),
        }
    }
}

/// The `Display` text of the decode error for a failure at a key or at a
/// skipped field. (For a known field the text also names the field; see
/// `field_location`.)
pub open spec fn failure_text(f: DecodeFailure) -> Option<Seq<char>> {
    match f {
        DecodeFailure::Key(b) => Some(decode_error_heading() + key_error_description(b)),
        DecodeFailure::Skip(w, t, b) => Some(decode_error_heading() + skip_error_description(w, t, b)),
        DecodeFailure::Field(_) => None,
    }
}

/// The name of a known field as the message's decoder records it.
pub open spec fn field_name(tag: u32) -> Seq<char> {
    if tag == 1 {
        "id"@
    } else if tag == 2 {
        "r#type"@
    } else {
        "value"@
    }
}

/// The location of a known field in a decode error's text.
pub open spec fn field_location(tag: u32) -> Seq<char> {
    "SensorReading"@ + "."@ + field_name(tag) + ": "@
}

/// The `SensorReading` message held by `bytes`, if they hold one.
pub open spec fn decode_reading(bytes: Seq<u8>) -> Option<ReadingFields> {
    decode_fields(bytes, default_fields())
}

/// A varint takes at least one byte and no more than there are.
pub proof fn lemma_varint_prefix_len(bytes: Seq<u8>, budget: nat)
    ensures
        varint_prefix(bytes, budget) matches Some((v, n)) ==> 1 <= n <= bytes.len() && n <= budget,
    decreases budget,
{
    if budget > 0 && bytes.len() > 0 && bytes[0] >= 128 {
        lemma_varint_prefix_len(bytes.drop_first(), (budget - 1) as nat);
    }
}

/// A key takes at least one byte and no more than there are.
pub proof fn lemma_key_len(bytes: Seq<u8>)
    ensures
        spec_key(bytes) matches Some((t, w, n)) ==> 1 <= n <= bytes.len(),
{
    lemma_varint_prefix_len(bytes, 10);
}

impl SensorReading {
    /// Decodes a `SensorReading` from the whole of `payload`.
    pub fn decode(payload: &[u8]) -> (r: Result<SensorReading, DecodeError>)
        ensures
            match r {
                Ok(m) => decode_reading(payload@) == Some(m.fields()),
                Err(e) => {
                    &&& decode_reading(payload@) is None
                    &&& decode_failure(payload@, default_fields()) matches Some(f)
                        && (f matches DecodeFailure::Field(t) ==> forall|d: String| #[trigger]
                        to_string_from_display_ensures::<DecodeError>(&e, d) ==> contains_text(
                        d@,
                        field_location(t),
                    )) && (failure_text(f) matches Some(t) ==> forall|d: String| #[trigger]
                        to_string_from_display_ensures::<DecodeError>(&e, d) ==> d@ == t)
                },
            },
    {
        let mut reading = SensorReading { id: String::new(), type_number: 0, value_bits: 0 };
        let len = payload.len();
        let mut pos: usize = 0;
        assert(payload@.skip(0) =~= payload@);
        assert(reading.fields() == default_fields());
        while pos < len
            invariant
                pos <= len,
                len == payload@.len(),
                decode_reading(payload@) == decode_fields(payload@.skip(pos as int), reading.fields()),
                decode_failure(payload@, default_fields()) == decode_failure(
                    payload@.skip(pos as int),
                    reading.fields(),
                ),
            decreases len - pos,
        {
            let ghost here = payload@.skip(pos as int);
            let ghost before = reading.fields();
            let rest = slice_subrange(payload, pos, len);
            assert(rest@ =~= here);
            let (tag, wire_type, after_key) = match decode_key(rest) {
                Ok(k) => k,
                Err(e) => return Err(e),
            };
            let key_len = rest.len() - after_key;
            proof {
                lemma_key_len(rest@);
            }
            let body = slice_subrange(payload, pos + key_len, len);
            assert(body@ =~= here.skip(key_len as int));
            let consumed: usize;
            if tag == 1 {
                match merge_string(wire_type, body) {
                    Ok((s, after)) => {
                        reading.id = s;
                        consumed = body.len() - after;
                    },
                    Err(e) => return Err(push_location(e, "SensorReading", "id")),
                }
            } else if tag == 2 {
                match merge_int32(wire_type, body) {
                    Ok((v, after)) => {
                        reading.type_number = v;
                        consumed = body.len() - after;
                    },
                    Err(e) => return Err(push_location(e, "SensorReading", "r#type")),
                }
            } else if tag == 3 {
                match merge_fixed64(wire_type, body) {
                    Ok((v, after)) => {
                        reading.value_bits = v;
                        consumed = body.len() - after;
                    },
                    Err(e) => return Err(push_location(e, "SensorReading", "value")),
                }
            } else {
                match skip_field(wire_type, tag, body) {
                    Ok(after) => {
                        consumed = body.len() - after;
                    },
                    Err(e) => return Err(e),
                }
            }
            assert(field_step(tag, wire_type, here.skip(key_len as int), before) == Some(
                (reading.fields(), consumed as nat),
            ));
            assert(here.skip((key_len + consumed) as int) =~= payload@.skip(
                (pos + key_len + consumed) as int,
            ));
            pos = pos + key_len + consumed;
        }
        assert(payload@.skip(pos as int).len() == 0);
        Ok(reading)
    }
}

/// The domain's sensor type for a number of the schema's `SensorType`: the
/// three measured kinds by their numbers; 0 and numbers the schema does not
/// list are `Unknown`.
pub open spec fn sensor_type_for(number: i32) -> SensorType {
    if number == 1 {
        SensorType::Temperature
    } else if number == 2 {
        SensorType::Humidity
    } else if number == 3 {
        SensorType::Pressure
    } else {
        SensorType::Unknown
    }
}

/// The schema's number for a domain sensor type (`Unknown` has 0).
pub open spec fn proto_number(t: SensorType) -> i32 {
    match t {
        SensorType::Temperature => 1,
        SensorType::Humidity => 2,
        SensorType::Pressure => 3,
        SensorType::Unknown => 0,
    }
}

impl SensorType {
    /// Converts a number of the schema's `SensorType` to the domain's sensor type.
    pub fn from_proto_number(number: i32) -> (t: SensorType)
        ensures
            t == sensor_type_for(number),
    {
        if number == 1 {
            SensorType::Temperature
        } else if number == 2 {
            SensorType::Humidity
        } else if number == 3 {
            SensorType::Pressure
        } else {
            SensorType::Unknown
        }
    }
}

/// The message of the error for a reading of no known sensor type.
pub open spec fn type_not_allowed_message() -> Seq<char> {
    "Sensor type not allowed by schema"@
}

/// The prefix of the message of the error for a payload that is no `SensorReading`.
pub open spec fn decode_error_prefix() -> Seq<char> {
    "Protobuf decode error: "@
}

/// Parses a protobuf-encoded `SensorReading` into a [`SensorData`].
///
/// A payload that is not a well-formed message gives `InvalidPayload` (its
/// message is `Protobuf decode error: ` followed by the `Display` text of the
/// decode error); a message whose sensor type is not one of the three known
/// kinds gives `InvalidTopic`; otherwise the reading's id, type and value.
pub fn parse_sensor_protobuf(payload: &[u8]) -> (r: Result<SensorData, SensorError>)
    ensures
        match decode_reading(payload@) {
            None => {
                &&& r matches Err(SensorError::InvalidPayload(m)) && m@.len()
                    >= decode_error_prefix().len() && m@.subrange(
                    0,
                    decode_error_prefix().len() as int,
                ) == decode_error_prefix() && exists|e: DecodeError|
                    displays_as(e, m@.subrange(decode_error_prefix().len() as int, m@.len() as int))
                &&& decode_failure(payload@, default_fields()) matches Some(f) && (f matches DecodeFailure::Field(t)
                    ==> (r matches Err(SensorError::InvalidPayload(m)) && contains_text(m@, field_location(t))))
                    && (failure_text(f) matches Some(t) ==> (r matches Err(SensorError::InvalidPayload(m))
                    && m@ == decode_error_prefix() + t))
            },
            Some(f) => if sensor_type_for(f.type_number) == SensorType::Unknown {
                r matches Err(SensorError::InvalidTopic(m)) && m@ == type_not_allowed_message()
            } else {
                r matches Ok(d) && d.sensor_id@ == f.id && d.sensor_type == sensor_type_for(f.type_number)
                    && d.value_bits == f.value_bits
            },
        },
{
    let reading = match SensorReading::decode(payload) {
        Ok(m) => m,
        Err(e) => {
            let detail = e.to_string();
            let message = String::from_str("Protobuf decode error: ").concat(detail.as_str());
            let ghost n = decode_error_prefix().len() as int;
            assert(message@.subrange(0, n) =~= decode_error_prefix());
            assert(message@.subrange(n, message@.len() as int) =~= detail@);
            assert(displays_as(e, detail@));
            assert(message@ =~= decode_error_prefix() + detail@);
            proof {
                if let Some(DecodeFailure::Field(t)) = decode_failure(payload@, default_fields()) {
                    let loc = field_location(t);
                    assert(contains_text(detail@, loc));
                    let i = choose|i: int| 0 <= i && i + loc.len() <= detail@.len()
                        && #[trigger] detail@.subrange(i, i + loc.len()) == loc;
                    assert(message@.subrange(n + i, n + i + loc.len()) =~= detail@.subrange(i, i + loc.len()));
                }
            }
            return Err(SensorError::InvalidPayload(message));
        },
    };
    let sensor_type = SensorType::from_proto_number(reading.type_number);
    if sensor_type == SensorType::Unknown {
        return Err(SensorError::InvalidTopic(String::from_str("Sensor type not allowed by schema")));
    }
    Ok(SensorData {
        sensor_id: SensorId::new(reading.id),
        sensor_type,
        value_bits: reading.value_bits,
    })
}

/// The `id` field in wire form: key, varint length, UTF-8 bytes.
pub open spec fn id_field(id: Seq<char>) -> Seq<u8> {
    let b = encode_utf8(id);
    encode_key(1, 2) + encode_varint(b.len()) + b
}

/// The `type` field in wire form: key, then the number as a 64-bit varint
/// (negative numbers sign-extended, as protobuf writes `int32`).
pub open spec fn type_field(type_number: i32) -> Seq<u8> {
    encode_key(2, 0) + encode_varint((type_number as u64) as nat)
}

/// The `value` field in wire form: key, then the eight little-endian bytes.
pub open spec fn value_field(value_bits: u64) -> Seq<u8> {
    encode_key(3, 1) + encode_le(value_bits as nat, 8)
}

/// A reading in the message's wire form: the `id`, `type` and `value` fields,
/// each once and in that order.
pub open spec fn encode_reading(r: ReadingFields) -> Seq<u8> {
    id_field(r.id) + type_field(r.type_number) + value_field(r.value_bits)
}

/// The bits of the `double` negative zero.
pub open spec fn negative_zero_bits() -> u64 {
    0x8000_0000_0000_0000
}

/// A reading as proto3 writes it (and prost's `Message::encode`): a field
/// whose value is the default (empty id, type 0, value 0.0 or -0.0) is left
/// out.
pub open spec fn encode_reading_proto3(r: ReadingFields) -> Seq<u8> {
    (if r.id.len() == 0 {
        Seq::<u8>::empty()
    } else {
        id_field(r.id)
    }) + (if r.type_number == 0 {
        Seq::<u8>::empty()
    } else {
        type_field(r.type_number)
    }) + (if r.value_bits == 0 || r.value_bits == negative_zero_bits() {
        Seq::<u8>::empty()
    } else {
        value_field(r.value_bits)
    })
}

/// Nothing left to read: the fields stand as they are.
proof fn lemma_decode_nothing(acc: ReadingFields)
    ensures
        decode_fields(Seq::empty(), acc) == Some(acc),
{
}

/// Reading an `id` field sets the id and goes on with what follows.
proof fn lemma_decode_id_field(id: Seq<char>, tail: Seq<u8>, acc: ReadingFields)
    requires
        encode_utf8(id).len() <= u64::MAX,
    ensures
        decode_fields(id_field(id) + tail, acc) == decode_fields(tail, ReadingFields { id, ..acc }),
{
    let b = encode_utf8(id);
    let k = encode_key(1, 2);
    let v = encode_varint(b.len());
    let t = v + (b + tail);
    let bytes = id_field(id) + tail;
    assert(bytes =~= k + t);
    lemma_key_roundtrip(1, 2, t);
    assert(bytes.skip(k.len() as int) =~= t);
    lemma_varint_roundtrip(b.len() as u64, b + tail);
    encode_utf8_valid_utf8(id);
    encode_utf8_decode_utf8(id);
    assert(t.subrange(v.len() as int, (v.len() + b.len()) as int) =~= b);
    assert(field_step(1, 2, t, acc) == Some((ReadingFields { id, ..acc }, (v.len() + b.len()) as nat)));
    assert(bytes.skip((k.len() + v.len() + b.len()) as int) =~= tail);
}

/// Reading a `type` field sets the type number and goes on with what follows.
proof fn lemma_decode_type_field(n: i32, tail: Seq<u8>, acc: ReadingFields)
    ensures
        decode_fields(type_field(n) + tail, acc) == decode_fields(
            tail,
            ReadingFields { type_number: n, ..acc },
        ),
{
    let k = encode_key(2, 0);
    let v = encode_varint((n as u64) as nat);
    let bytes = type_field(n) + tail;
    assert(bytes =~= k + (v + tail));
    lemma_key_roundtrip(2, 0, v + tail);
    assert(bytes.skip(k.len() as int) =~= v + tail);
    lemma_varint_roundtrip(n as u64, tail);
    assert((n as u64) as i32 == n) by (bit_vector);
    assert(field_step(2, 0, v + tail, acc) == Some(
        (ReadingFields { type_number: n, ..acc }, v.len()),
    ));
    assert(bytes.skip((k.len() + v.len()) as int) =~= tail);
}

/// Reading a `value` field sets the value and goes on with what follows.
proof fn lemma_decode_value_field(bits: u64, tail: Seq<u8>, acc: ReadingFields)
    ensures
        decode_fields(value_field(bits) + tail, acc) == decode_fields(
            tail,
            ReadingFields { value_bits: bits, ..acc },
        ),
{
    let k = encode_key(3, 1);
    let le = encode_le(bits as nat, 8);
    let bytes = value_field(bits) + tail;
    assert(bytes =~= k + (le + tail));
    assert(pow256(8) == 18446744073709551616nat) by {
        reveal_with_fuel(pow256, 9);
    }
    lemma_le_roundtrip(bits as nat, 8, tail);
    lemma_key_roundtrip(3, 1, le + tail);
    assert(bytes.skip(k.len() as int) =~= le + tail);
    assert(field_step(3, 1, le + tail, acc) == Some((ReadingFields { value_bits: bits, ..acc }, 8nat)));
    assert(bytes.skip((k.len() + 8) as int) =~= tail);
}

/// What is written is read back: a reading written in the message's wire
/// form, all three fields present, decodes to the same id, type number and
/// value.
pub proof fn law_encoded_reading_decodes(r: ReadingFields)
    requires
        encode_utf8(r.id).len() <= u64::MAX,
    ensures
        decode_reading(encode_reading(r)) == Some(r),
{
    let acc1 = ReadingFields { id: r.id, ..default_fields() };
    let acc2 = ReadingFields { type_number: r.type_number, ..acc1 };
    let e = Seq::<u8>::empty();
    lemma_decode_nothing(r);
    lemma_decode_value_field(r.value_bits, e, acc2);
    assert(value_field(r.value_bits) + e =~= value_field(r.value_bits));
    lemma_decode_type_field(r.type_number, value_field(r.value_bits), acc1);
    lemma_decode_id_field(r.id, type_field(r.type_number) + value_field(r.value_bits), default_fields());
    assert(encode_reading(r) =~= id_field(r.id) + (type_field(r.type_number) + value_field(
        r.value_bits,
    )));
}

/// What proto3 writes is read back: a reading encoded with its default
/// fields left out decodes to the same id, type number and value, except
/// that a value of -0.0, which proto3 leaves out, comes back as 0.0.
pub proof fn law_proto3_reading_decodes(r: ReadingFields)
    requires
        encode_utf8(r.id).len() <= u64::MAX,
    ensures
        decode_reading(encode_reading_proto3(r)) == Some(
            ReadingFields {
                value_bits: if r.value_bits == negative_zero_bits() {
                    0
                } else {
                    r.value_bits
                },
                ..r
            },
        ),
{
    let e = Seq::<u8>::empty();
    let p1 = if r.id.len() == 0 { e } else { id_field(r.id) };
    let p2 = if r.type_number == 0 { e } else { type_field(r.type_number) };
    let p3 = if r.value_bits == 0 || r.value_bits == negative_zero_bits() {
        e
    } else {
        value_field(r.value_bits)
    };
    let expected = ReadingFields {
        value_bits: if r.value_bits == negative_zero_bits() {
            0
        } else {
            r.value_bits
        },
        ..r
    };
    let acc1 = ReadingFields { id: r.id, ..default_fields() };
    let acc2 = ReadingFields { type_number: r.type_number, ..acc1 };
    assert(encode_reading_proto3(r) =~= p1 + (p2 + p3));
    // The value field, or nothing.
    lemma_decode_nothing(expected);
    if p3.len() > 0 {
        lemma_decode_value_field(r.value_bits, e, acc2);
        assert(value_field(r.value_bits) + e =~= value_field(r.value_bits));
    } else {
        assert(acc2 == expected);
    }
    assert(decode_fields(p3, acc2) == Some(expected));
    // The type field, or nothing.
    if r.type_number != 0 {
        lemma_decode_type_field(r.type_number, p3, acc1);
    } else {
        assert(p2 + p3 =~= p3);
        assert(acc1 == acc2);
    }
    assert(decode_fields(p2 + p3, acc1) == Some(expected));
    // The id field, or nothing.
    if r.id.len() != 0 {
        lemma_decode_id_field(r.id, p2 + p3, default_fields());
    } else {
        assert(p1 + (p2 + p3) =~= p2 + p3);
        assert(r.id =~= Seq::<char>::empty());
        assert(acc1 == default_fields());
    }
}

/// A field of a number the schema does not declare, holding one well-formed
/// body, is passed over and leaves the fields read so far exactly as they are
/// (id, type number and value alike); reading goes on with what follows.
pub proof fn law_unknown_field_is_skipped(
    tag: u32,
    wire_type: u8,
    body: Seq<u8>,
    tail: Seq<u8>,
    acc: ReadingFields,
)
    requires
        1 <= tag <= 0x1fff_ffff,
        tag != 1 && tag != 2 && tag != 3,
        spec_skip_field(wire_type, tag, body) == Some(body.len()),
    ensures
        decode_fields(encode_key(tag as nat, wire_type as nat) + body + tail, acc) == decode_fields(
            tail,
            acc,
        ),
{
    reveal(spec_skip_field);
    assert(wire_type <= 5) by {
        if wire_type > 5 {
            assert(skip_field_at(wire_type, tag, body, skip_depth_limit()) is None);
        }
    }
    let k = encode_key(tag as nat, wire_type as nat);
    let bytes = k + body + tail;
    assert(bytes =~= k + (body + tail));
    lemma_key_roundtrip(tag as nat, wire_type as nat, body + tail);
    assert(bytes.skip(k.len() as int) =~= body + tail);
    // The skipped body reads the same with anything after it.
    lemma_skip_prefix(wire_type, tag, body, tail, skip_depth_limit());
    assert(field_step(tag, wire_type, body + tail, acc) == Some((acc, body.len())));
    assert(bytes.skip((k.len() + body.len()) as int) =~= tail);
}

/// A reading followed by a field of a number the schema does not declare
/// decodes to the same reading: the extra field changes neither its id, nor
/// its type number, nor its value.
pub proof fn law_reading_with_unknown_field_decodes(
    r: ReadingFields,
    tag: u32,
    wire_type: u8,
    body: Seq<u8>,
)
    requires
        encode_utf8(r.id).len() <= u64::MAX,
        1 <= tag <= 0x1fff_ffff,
        tag != 1 && tag != 2 && tag != 3,
        spec_skip_field(wire_type, tag, body) == Some(body.len()),
    ensures
        decode_reading(encode_reading(r) + encode_key(tag as nat, wire_type as nat) + body) == Some(r),
{
    let extra = encode_key(tag as nat, wire_type as nat) + body;
    let e = Seq::<u8>::empty();
    law_unknown_field_is_skipped(tag, wire_type, body, e, r);
    assert(extra + e =~= extra);
    lemma_decode_nothing(r);
    let acc1 = ReadingFields { id: r.id, ..default_fields() };
    let acc2 = ReadingFields { type_number: r.type_number, ..acc1 };
    lemma_decode_value_field(r.value_bits, extra, acc2);
    lemma_decode_type_field(r.type_number, value_field(r.value_bits) + extra, acc1);
    lemma_decode_id_field(
        r.id,
        type_field(r.type_number) + (value_field(r.value_bits) + extra),
        default_fields(),
    );
    assert(encode_reading(r) + encode_key(tag as nat, wire_type as nat) + body =~= id_field(r.id) + (
    type_field(r.type_number) + (value_field(r.value_bits) + extra)));
}

/// Each known sensor type survives the trip through its schema number, and
/// every other number is `Unknown`.
pub proof fn law_sensor_type_numbers(t: SensorType, number: i32)
    ensures
        sensor_type_for(proto_number(t)) == t,
        sensor_type_for(number) == SensorType::Unknown || proto_number(sensor_type_for(number)) == number,
{
}

} // verus!
