use gateway::config::Settings;
use gateway::domain::{SensorData, SensorId, SensorType};
use gateway::error::GatewayError;
use gateway::mqtt_listener::{
    client_config, gateway_client_config, handling_report, next_step, subscription_notice,
    LoopStep, PollOutcome, QualityOfService,
};
use gateway::reconnect::{ReconnectPolicy, RunAction, RunEvent};
use gateway::sqlite_repository::{create_readings_table_sql, insert_reading_sql, reading_row};

#[test]
fn test_retry_delay_doubles_up_to_a_minute() {
    let mut policy = ReconnectPolicy::new();
    assert_eq!(policy.retry_delay_secs(), 1);
    let mut waits = Vec::new();
    for _ in 0..8 {
        match policy.on_event(RunEvent::EventLoopFailed) {
            RunAction::Reconnect { wait_secs } => waits.push(wait_secs),
            RunAction::Disconnect => panic!("a failure must not end the run"),
        }
    }
    assert_eq!(waits, vec![1, 2, 4, 8, 16, 32, 60, 60]);
    assert_eq!(policy.retry_delay_secs(), 60);
}

#[test]
fn test_clean_stop_reconnects_at_once() {
    let mut policy = ReconnectPolicy::new();
    policy.on_event(RunEvent::EventLoopFailed);
    assert_eq!(policy.on_event(RunEvent::EventLoopStopped), RunAction::Reconnect { wait_secs: 0 });
    assert_eq!(policy.retry_delay_secs(), 2);
}

#[test]
fn test_shutdown_disconnects() {
    let mut policy = ReconnectPolicy::new();
    policy.on_event(RunEvent::EventLoopFailed);
    assert_eq!(policy.on_event(RunEvent::ShutdownSignal), RunAction::Disconnect);
    assert_eq!(policy.retry_delay_secs(), 2);
}

#[test]
fn test_client_config() {
    let c = client_config("gateway_prod", "broker.local", 1884);
    assert_eq!(c.client_id, "gateway_prod");
    assert_eq!(c.host, "broker.local");
    assert_eq!(c.port, 1884);
    assert_eq!(c.keep_alive_secs, 5);
    assert_eq!(c.request_capacity, 10);
    assert_eq!(c.subscription, "garden/sensors/#");
    assert_eq!(c.qos, QualityOfService::AtMostOnce);
}

#[test]
fn test_gateway_client_config_uses_settings() {
    let settings = Settings::new_test_default();
    let c = gateway_client_config(&settings);
    assert_eq!(c.client_id, "gateway_prod");
    assert_eq!(c.host, "localhost");
    assert_eq!(c.port, 1883);
}

#[test]
fn test_subscription_notice() {
    assert_eq!(
        subscription_notice("garden/sensors/#"),
        "Subscribed to 'garden/sensors/#'. Waiting for data..."
    );
}

#[test]
fn test_event_loop_steps() {
    assert_eq!(next_step(PollOutcome::Publish), LoopStep::HandlePayload);
    assert_eq!(next_step(PollOutcome::OtherEvent), LoopStep::Continue);
    assert_eq!(next_step(PollOutcome::ConnectionError), LoopStep::PauseSecs(1));
}

#[test]
fn test_handling_report() {
    assert_eq!(
        handling_report(&Ok(())),
        ("SUCCESS | Message processed and stored.".to_string(), false)
    );
    assert_eq!(
        handling_report(&Err(GatewayError::InvalidData("bad".to_string()))),
        ("ERROR | Invalid sensor data: bad".to_string(), true)
    );
}

#[test]
fn test_reading_row() {
    let data = SensorData {
        sensor_id: SensorId::new("sensor_07".to_string()),
        sensor_type: SensorType::Humidity,
        value_bits: 55.5f64.to_bits(),
    };
    let row = reading_row(&data);
    assert_eq!(row.sensor_id, "sensor_07");
    assert_eq!(row.sensor_type, "Humidity");
    assert_eq!(f64::from_bits(row.value_bits), 55.5);
}

#[test]
fn test_sql_statements() {
    assert!(create_readings_table_sql().starts_with("CREATE TABLE IF NOT EXISTS readings"));
    assert_eq!(
        insert_reading_sql(),
        "INSERT INTO readings (sensor_id, sensor_type, value) VALUES (?1, ?2, ?3)"
    );
}

#[test]
fn test_sensor_id_roundtrip() {
    let id = SensorId::new("abc-1".to_string());
    assert_eq!(id.as_str(), "abc-1");
}

#[test]
fn test_sensor_type_names() {
    assert_eq!(SensorType::Temperature.name(), "Temperature");
    assert_eq!(SensorType::Humidity.name(), "Humidity");
    assert_eq!(SensorType::Pressure.name(), "Pressure");
    assert_eq!(SensorType::Unknown.name(), "Unknown");
}

#[test]
fn test_waits_over_a_mixed_run() {
    let mut policy = ReconnectPolicy::new();
    let events = [
        RunEvent::EventLoopFailed,
        RunEvent::EventLoopStopped,
        RunEvent::EventLoopFailed,
        RunEvent::EventLoopFailed,
        RunEvent::EventLoopStopped,
        RunEvent::EventLoopFailed,
    ];
    let mut waits = Vec::new();
    for e in events {
        if let RunAction::Reconnect { wait_secs } = policy.on_event(e) {
            waits.push(wait_secs);
        }
    }
    assert_eq!(waits, vec![1, 0, 2, 4, 0, 8]);
    assert_eq!(policy.retry_delay_secs(), 16);
}
