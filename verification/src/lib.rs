//! Verified core of an IoT sensor gateway: protobuf sensor readings,
//! configuration, and the decisions of the MQTT ingestion loop.

pub mod domain;
pub mod wire;
pub mod error;
pub mod sensor_parser;
pub mod reconnect;
pub mod config;
pub mod mqtt_handler;
pub mod mqtt_listener;
pub mod sqlite_repository;
