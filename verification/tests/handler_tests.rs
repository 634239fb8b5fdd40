use gateway::domain::{SensorData, SensorId, SensorType};
use gateway::error::{GatewayError, SensorError};
use gateway::mqtt_handler::{handle_parsed, handle_saved, HandleStep};
use gateway::sensor_parser::parse_sensor_protobuf;

fn mock_success_parser(_payload: &[u8]) -> Result<SensorData, SensorError> {
    Ok(SensorData {
        sensor_id: SensorId::new("mqtt_test".to_string()),
        sensor_type: SensorType::Temperature,
        value_bits: 22.5f64.to_bits(),
    })
}

fn mock_fail_parser(_payload: &[u8]) -> Result<SensorData, SensorError> {
    Err(SensorError::InvalidPayload("Cannot parse".to_string()))
}

/// Runs one message through the handling steps, storing into `saved`.
fn handle(
    payload: &[u8],
    parser: fn(&[u8]) -> Result<SensorData, SensorError>,
    saved: &mut Vec<SensorData>,
) -> Result<(), GatewayError> {
    match handle_parsed(parser(payload)) {
        HandleStep::Store(data) => {
            saved.push(data);
            handle_saved(Ok(()))
        }
        HandleStep::Reject(e) => Err(e),
    }
}

#[test]
fn test_handle_valid_message_with_injected_parser() {
    let mut saved = Vec::new();
    let result = handle(b"any_payload", mock_success_parser, &mut saved);
    assert!(result.is_ok());
}

#[test]
fn test_handle_invalid_message_with_injected_parser() {
    let mut saved = Vec::new();
    let result = handle(b"error_reading", mock_fail_parser, &mut saved);
    assert!(result.is_err());
    assert!(matches!(result, Err(GatewayError::InvalidData(_))));
}

#[test]
fn test_handler_calls_repository() {
    let mut saved = Vec::new();
    let result = handle(b"some_payload", mock_success_parser, &mut saved);
    assert!(result.is_ok());
    assert_eq!(saved.len(), 1);
    assert_eq!(saved[0].sensor_type, SensorType::Temperature);
    assert_eq!(f64::from_bits(saved[0].value_bits), 22.5);
}

#[test]
fn test_event_loop_processing_flow() {
    let mut buf = Vec::new();
    prost::encoding::string::encode(1, &"sensor_01".to_string(), &mut buf);
    prost::encoding::int32::encode(2, &1, &mut buf);
    prost::encoding::double::encode(3, &25.5, &mut buf);
    let mut saved = Vec::new();
    let result = handle(&buf, parse_sensor_protobuf, &mut saved);
    assert!(result.is_ok());
    assert_eq!(saved.len(), 1);
    assert_eq!(saved[0].sensor_type, SensorType::Temperature);
    assert_eq!(f64::from_bits(saved[0].value_bits), 25.5);
}

#[test]
fn test_hander_integration_in_listener_scope() {
    let payload = vec![0, 8, 204, 204, 204, 61];
    let mut saved = Vec::new();
    let result = handle(&payload, parse_sensor_protobuf, &mut saved);
    assert!(result.is_err());
    assert_eq!(saved.len(), 0);
}

#[test]
fn test_invalid_data_carries_debug_form() {
    match handle_parsed(Err(SensorError::InvalidPayload("Cannot parse".to_string()))) {
        HandleStep::Reject(GatewayError::InvalidData(m)) => {
            assert_eq!(m, "InvalidPayload(\"Cannot parse\")");
            assert_eq!(m, format!("{:?}", SensorError::InvalidPayload("Cannot parse".to_string())));
        }
        other => panic!("unexpected step {:?}", other),
    }
}

#[test]
fn test_save_error_becomes_database_error() {
    let e = SensorError::DatabaseError("disk \"full\"\n".to_string());
    let expected = format!("{:?}", e);
    match handle_saved(Err(e)) {
        Err(GatewayError::Database(m)) => assert_eq!(m, expected),
        other => panic!("unexpected result {:?}", other),
    }
    assert!(handle_saved(Ok(())).is_ok());
}

#[test]
fn test_describe_matches_debug() {
    for e in [
        SensorError::InvalidPayload("a\\b".to_string()),
        SensorError::InvalidTopic("Sensor type not allowed by schema".to_string()),
        SensorError::DatabaseError("tab\there".to_string()),
    ] {
        assert_eq!(e.describe(), format!("{:?}", e));
    }
}

#[test]
fn test_gateway_error_messages() {
    assert_eq!(GatewayError::Config("x".to_string()).message(), "Invalid configuration: x");
    assert_eq!(GatewayError::Database("y".to_string()).message(), "Database error: y");
    assert_eq!(GatewayError::Network("z".to_string()).message(), "MQTT network error: z");
    assert_eq!(GatewayError::InvalidData("w".to_string()).message(), "Invalid sensor data: w");
    let decode_error = match gateway::sensor_parser::SensorReading::decode(&[0x00]) {
        Err(e) => e,
        Ok(_) => panic!("a zero key must not decode"),
    };
    let m = GatewayError::Decod(decode_error).message();
    assert_eq!(m, "Protobuf decoding error: failed to decode Protobuf message: invalid tag value: 0");
}
