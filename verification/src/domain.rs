use vstd::prelude::*;
use vstd::string::StringExecFns;

verus! {

/// The kinds of sensor the gateway knows.
#[derive(Debug, PartialEq, Eq, Clone, Copy, Hash, Structural)]
pub enum SensorType {
    Temperature,
    Humidity,
    Pressure,
    Unknown,
}

impl SensorType {
    /// The text form of a sensor type: the variant's name.
    pub open spec fn name_spec(self) -> Seq<char> {
        match self {
            SensorType::Temperature => "Temperature"@,
            SensorType::Humidity => "Humidity"@,
            SensorType::Pressure => "Pressure"@,
            SensorType::Unknown => "Unknown"@,
        }
    }

    /// Renders the sensor type as its variant name (the form stored in the database).
    pub fn name(&self) -> (s: String)
        ensures
            s@ == self.name_spec(),
    {
        match self {
            SensorType::Temperature => String::from_str("Temperature"),
            SensorType::Humidity => String::from_str("Humidity"),
            SensorType::Pressure => String::from_str("Pressure"),
            SensorType::Unknown => String::from_str("Unknown"),
        }
    }
}

/// Identifier of a sensor, as sent by the sensor itself.
#[derive(Debug, Clone, PartialEq, Eq, Hash)]
pub struct SensorId(String);

impl View for SensorId {
    type V = Seq<char>;

    closed spec fn view(&self) -> Seq<char> {
        self.0@
    }
}

impl SensorId {
    /// Wraps the given text as a sensor identifier.
    pub fn new(id: String) -> (r: SensorId)
        ensures
            r@ == id@,
    {
        SensorId(id)
    }

    /// The identifier's text.
    pub fn as_str(&self) -> (s: &str)
        ensures
            s@ == self@,
    {
        self.0.as_str()
    }
}

/// One reading of a sensor. Its value is a 64-bit IEEE-754 number, held here
/// by its bit pattern (`f64::to_bits`).
#[derive(Debug, PartialEq, Clone)]
pub struct SensorData {
    pub sensor_id: SensorId,
    pub sensor_type: SensorType,
    pub value_bits: u64,
}

} // verus!
