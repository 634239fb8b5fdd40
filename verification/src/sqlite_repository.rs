//! The SQLite table of readings: its schema, and the row stored for a reading.
use vstd::prelude::*;
use vstd::string::StringExecFns;
use crate::domain::SensorData;

verus! {

/// The statement that creates the readings table if it is missing.
pub fn create_readings_table_sql() -> (s: &'static str)
    ensures
        s@ == "CREATE TABLE IF NOT EXISTS readings (
                id INTEGER PRIMARY KEY AUTOINCREMENT,
                sensor_id TEXT NOT NULL,
                sensor_type TEXT NOT NULL,
                value REAL NOT NULL,
                timestamp DATETIME DEFAULT CURRENT_TIMESTAMP
            )"@,
{
    "CREATE TABLE IF NOT EXISTS readings (
                id INTEGER PRIMARY KEY AUTOINCREMENT,
                sensor_id TEXT NOT NULL,
                sensor_type TEXT NOT NULL,
                value REAL NOT NULL,
                timestamp DATETIME DEFAULT CURRENT_TIMESTAMP
            )"
}

/// The statement that stores one reading; its three parameters are the
/// sensor id, the sensor type's name and the value.
pub fn insert_reading_sql() -> (s: &'static str)
    ensures
        s@ == "INSERT INTO readings (sensor_id, sensor_type, value) VALUES (?1, ?2, ?3)"@,
{
    "INSERT INTO readings (sensor_id, sensor_type, value) VALUES (?1, ?2, ?3)"
}

/// The values bound to the insert statement for one reading.
pub struct ReadingRow {
    pub sensor_id: String,
    pub sensor_type: String,
    /// The bits of the value, stored as a REAL.
    pub value_bits: u64,
}

/// The row stored for a reading: its sensor id, the name of its sensor type,
/// and its value.
pub fn reading_row(data: &SensorData) -> (row: ReadingRow)
    ensures
        row.sensor_id@ == data.sensor_id@,
        row.sensor_type@ == data.sensor_type.name_spec(),
        row.value_bits == data.value_bits,
{
    ReadingRow {
        sensor_id: String::from_str(data.sensor_id.as_str()),
        sensor_type: data.sensor_type.name(),
        value_bits: data.value_bits,
    }
}

} // verus!
