use gateway::domain::{SensorData, SensorId, SensorType};
use gateway::error::SensorError;
use gateway::sensor_parser::{parse_sensor_protobuf, SensorReading};

fn encode_reading(id: Option<&str>, type_number: Option<i32>, value: Option<f64>) -> Vec<u8> {
    let mut buf = Vec::new();
    if let Some(id) = id {
        prost::encoding::string::encode(1, &id.to_string(), &mut buf);
    }
    if let Some(t) = type_number {
        prost::encoding::int32::encode(2, &t, &mut buf);
    }
    if let Some(v) = value {
        prost::encoding::double::encode(3, &v, &mut buf);
    }
    buf
}

#[test]
fn test_parse_valid_protobuf() {
    let payload = encode_reading(None, Some(1), Some(22.5));

    let result = parse_sensor_protobuf(&payload);

    let expected = SensorData {
        sensor_id: SensorId::new(String::new()),
        sensor_type: SensorType::Temperature,
        value_bits: 22.5f64.to_bits(),
    };

    assert_eq!(result, Ok(expected));
}

#[test]
fn test_parse_invalid_protobuf() {
    let payload = vec![0xFF, 0x00, 0xBA, 0xDC];

    let result = parse_sensor_protobuf(&payload);

    assert!(matches!(result, Err(SensorError::InvalidPayload(_))));
}

#[test]
fn test_parse_reading_with_id() {
    let payload = encode_reading(Some("sensor_01"), Some(3), Some(-4.25));
    let data = parse_sensor_protobuf(&payload).unwrap();
    assert_eq!(data.sensor_id.as_str(), "sensor_01");
    assert_eq!(data.sensor_type, SensorType::Pressure);
    assert_eq!(f64::from_bits(data.value_bits), -4.25);
}

#[test]
fn test_parse_humidity_unicode_id() {
    let payload = encode_reading(Some("capteur-é✓"), Some(2), Some(61.0));
    let data = parse_sensor_protobuf(&payload).unwrap();
    assert_eq!(data.sensor_id.as_str(), "capteur-é✓");
    assert_eq!(data.sensor_type, SensorType::Humidity);
    assert_eq!(f64::from_bits(data.value_bits), 61.0);
}

#[test]
fn test_parse_unknown_type_rejected() {
    let payload = encode_reading(Some("s"), Some(0), Some(1.0));
    assert_eq!(
        parse_sensor_protobuf(&payload),
        Err(SensorError::InvalidTopic("Sensor type not allowed by schema".to_string()))
    );
    let payload = encode_reading(Some("s"), Some(7), Some(1.0));
    assert_eq!(
        parse_sensor_protobuf(&payload),
        Err(SensorError::InvalidTopic("Sensor type not allowed by schema".to_string()))
    );
    let payload = encode_reading(Some("s"), Some(-1), Some(1.0));
    assert!(matches!(parse_sensor_protobuf(&payload), Err(SensorError::InvalidTopic(_))));
}

#[test]
fn test_parse_empty_payload_has_no_type() {
    assert!(matches!(parse_sensor_protobuf(&[]), Err(SensorError::InvalidTopic(_))));
}

#[test]
fn test_decode_empty_message_is_default() {
    let m = SensorReading::decode(&[]).unwrap();
    assert_eq!(m.id, "");
    assert_eq!(m.type_number, 0);
    assert_eq!(m.value_bits, 0);
}

#[test]
fn test_decode_negative_type_number() {
    let payload = encode_reading(None, Some(-5), None);
    assert_eq!(payload.len(), 11);
    let m = SensorReading::decode(&payload).unwrap();
    assert_eq!(m.type_number, -5);
}

#[test]
fn test_decode_later_field_wins() {
    let mut payload = encode_reading(Some("first"), Some(1), Some(1.5));
    payload.extend(encode_reading(Some("second"), Some(2), Some(2.5)));
    let m = SensorReading::decode(&payload).unwrap();
    assert_eq!(m.id, "second");
    assert_eq!(m.type_number, 2);
    assert_eq!(f64::from_bits(m.value_bits), 2.5);
}

#[test]
fn test_decode_skips_unknown_fields() {
    let mut payload = Vec::new();
    prost::encoding::uint64::encode(9, &300, &mut payload);
    prost::encoding::string::encode(10, &"ignored".to_string(), &mut payload);
    prost::encoding::fixed32::encode(11, &7, &mut payload);
    prost::encoding::fixed64::encode(12, &8, &mut payload);
    // A group with field number 13 holding one varint field.
    payload.extend([0x6B, 0x08, 0x01, 0x6C]);
    payload.extend(encode_reading(Some("kept"), Some(1), Some(3.0)));
    let data = parse_sensor_protobuf(&payload).unwrap();
    assert_eq!(data.sensor_id.as_str(), "kept");
    assert_eq!(data.sensor_type, SensorType::Temperature);
    assert_eq!(f64::from_bits(data.value_bits), 3.0);
}

#[test]
fn test_decode_rejects_wrong_wire_type() {
    // Field 1 (id) sent as a varint.
    assert!(SensorReading::decode(&[0x08, 0x01]).is_err());
    // Field 2 (type) sent as length-delimited.
    assert!(SensorReading::decode(&[0x12, 0x00]).is_err());
    // Field 3 (value) sent as a varint.
    assert!(SensorReading::decode(&[0x18, 0x01]).is_err());
    assert!(matches!(
        parse_sensor_protobuf(&[0x18, 0x01]),
        Err(SensorError::InvalidPayload(_))
    ));
}

#[test]
fn test_decode_rejects_truncated_fields() {
    // Value with only four of its eight bytes.
    assert!(SensorReading::decode(&[0x19, 1, 2, 3, 4]).is_err());
    // Id announcing five bytes but holding two.
    assert!(SensorReading::decode(&[0x0A, 0x05, b'a', b'b']).is_err());
    // Type varint that never ends.
    assert!(SensorReading::decode(&[0x10, 0x80]).is_err());
    // Unknown 32-bit field with two bytes.
    assert!(SensorReading::decode(&[0x2D, 1, 2]).is_err());
}

#[test]
fn test_decode_rejects_invalid_utf8_id() {
    assert!(matches!(
        parse_sensor_protobuf(&[0x0A, 0x02, 0xC3, 0x28, 0x10, 0x01]),
        Err(SensorError::InvalidPayload(_))
    ));
}

#[test]
fn test_decode_rejects_bad_keys() {
    // Field number 0.
    assert!(SensorReading::decode(&[0x00]).is_err());
    // Wire type 6.
    assert!(SensorReading::decode(&[0x0E]).is_err());
    // A stray end-group key.
    assert!(SensorReading::decode(&[0x0C]).is_err());
    // Key above 32 bits.
    assert!(SensorReading::decode(&[0x80, 0x80, 0x80, 0x80, 0x10]).is_err());
}

#[test]
fn test_decode_varint_limits() {
    // The largest 64-bit varint is accepted: ten bytes, the last one 0x01.
    let mut payload = vec![0x10];
    payload.extend([0xFF, 0xFF, 0xFF, 0xFF, 0xFF, 0xFF, 0xFF, 0xFF, 0xFF, 0x01]);
    let m = SensorReading::decode(&payload).unwrap();
    assert_eq!(m.type_number, -1);
    // A tenth byte of 2 overflows 64 bits.
    let mut payload = vec![0x10];
    payload.extend([0xFF, 0xFF, 0xFF, 0xFF, 0xFF, 0xFF, 0xFF, 0xFF, 0xFF, 0x02]);
    assert!(SensorReading::decode(&payload).is_err());
    // An eleven-byte varint is refused.
    let mut payload = vec![0x10];
    payload.extend([0x80, 0x80, 0x80, 0x80, 0x80, 0x80, 0x80, 0x80, 0x80, 0x80, 0x00]);
    assert!(SensorReading::decode(&payload).is_err());
    // A multi-byte type number is cut to 32 bits.
    let mut payload = vec![0x10];
    payload.extend([0x83, 0x80, 0x80, 0x80, 0x10]);
    let m = SensorReading::decode(&payload).unwrap();
    assert_eq!(m.type_number, 3);
}

#[test]
fn test_decode_error_message_prefix() {
    match parse_sensor_protobuf(&[0x0A, 0x05]) {
        Err(SensorError::InvalidPayload(m)) => {
            assert!(m.starts_with("Protobuf decode error: failed to decode Protobuf message: "));
            assert!(m.contains("SensorReading.id"));
        }
        other => panic!("unexpected result {:?}", other),
    }
}

#[test]
fn test_from_proto_number() {
    assert_eq!(SensorType::from_proto_number(1), SensorType::Temperature);
    assert_eq!(SensorType::from_proto_number(2), SensorType::Humidity);
    assert_eq!(SensorType::from_proto_number(3), SensorType::Pressure);
    assert_eq!(SensorType::from_proto_number(0), SensorType::Unknown);
    assert_eq!(SensorType::from_proto_number(4), SensorType::Unknown);
}

fn nested_groups(depth: usize) -> Vec<u8> {
    // Field 15 opened `depth` times, then closed as many times, followed by a type field.
    let mut payload = Vec::new();
    for _ in 0..depth {
        payload.push(0x7B);
    }
    for _ in 0..depth {
        payload.push(0x7C);
    }
    payload.extend([0x10, 0x02]);
    payload
}

#[test]
fn test_decode_skips_nested_groups_up_to_the_limit() {
    let m = SensorReading::decode(&nested_groups(100)).unwrap();
    assert_eq!(m.type_number, 2);
    assert!(SensorReading::decode(&nested_groups(101)).is_err());
}

#[test]
fn test_decode_rejects_mismatched_end_group() {
    // A group of field 13 closed by the end key of field 14.
    assert!(SensorReading::decode(&[0x6B, 0x74]).is_err());
    // A group never closed.
    assert!(SensorReading::decode(&[0x6B, 0x08, 0x01]).is_err());
}

#[test]
fn test_proto3_omitted_fields_decode_to_defaults() {
    // Only the value is present, as prost writes a reading with empty id and type 0.
    let payload = encode_reading(None, None, Some(7.5));
    let m = SensorReading::decode(&payload).unwrap();
    assert_eq!(m.id, "");
    assert_eq!(m.type_number, 0);
    assert_eq!(f64::from_bits(m.value_bits), 7.5);
    // A reading whose value field is left out (as proto3 does for 0.0 and -0.0)
    // reads back with the value 0.0.
    let payload = encode_reading(Some("s"), Some(1), None);
    let data = parse_sensor_protobuf(&payload).unwrap();
    assert_eq!(data.value_bits, 0);
}

#[test]
fn test_decode_error_names_the_failing_field() {
    match parse_sensor_protobuf(&[0x12, 0x00]) {
        Err(SensorError::InvalidPayload(m)) => assert!(m.contains("SensorReading.r#type: ")),
        other => panic!("unexpected result {:?}", other),
    }
    match parse_sensor_protobuf(&[0x19, 1, 2]) {
        Err(SensorError::InvalidPayload(m)) => assert!(m.contains("SensorReading.value: ")),
        other => panic!("unexpected result {:?}", other),
    }
    // A failure at a key names no field.
    match parse_sensor_protobuf(&[0x00]) {
        Err(SensorError::InvalidPayload(m)) => assert!(!m.contains("SensorReading.")),
        other => panic!("unexpected result {:?}", other),
    }
}

#[test]
fn test_decode_error_text_at_key_and_skipped_field() {
    assert_eq!(
        parse_sensor_protobuf(&[0x00]),
        Err(SensorError::InvalidPayload(
            "Protobuf decode error: failed to decode Protobuf message: invalid tag value: 0".to_string()
        ))
    );
    assert_eq!(
        parse_sensor_protobuf(&[0x2D, 1, 2]),
        Err(SensorError::InvalidPayload(
            "Protobuf decode error: failed to decode Protobuf message: buffer underflow".to_string()
        ))
    );
}
