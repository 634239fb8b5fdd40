//! Handling of one MQTT message: parse its payload, store the reading.
//!
//! The repository is asynchronous, so the handling is split at the store: the
//! decision after parsing, and the result after storing.
use vstd::prelude::*;
use crate::domain::SensorData;
use crate::error::{GatewayError, SensorError};

verus! {

/// What to do with a parsed payload.
#[derive(Debug)]
pub enum HandleStep {
    /// Store this reading in the repository.
    Store(SensorData),
    /// Store nothing; the handling ends with this error.
    Reject(GatewayError),
}

/// Decides, from the parse of a payload, whether a reading is stored: a
/// reading that parsed is stored as it is; a parse error is reported as
/// invalid data, with the parse error's `Debug` form, and nothing is stored.
pub fn handle_parsed(parsed: Result<SensorData, SensorError>) -> (s: HandleStep)
    ensures
        match parsed {
            Ok(d) => s == HandleStep::Store(d),
            Err(e) => s matches HandleStep::Reject(GatewayError::InvalidData(m)) && m@
                == e.describe_spec(),
        },
{
    match parsed {
        Ok(data) => HandleStep::Store(data),
        Err(e) => HandleStep::Reject(GatewayError::InvalidData(e.describe())),
    }
}

/// The result of the handling, from the result of storing the reading: a
/// storage error is reported as a database error, with its `Debug` form.
pub fn handle_saved(saved: Result<(), SensorError>) -> (r: Result<(), GatewayError>)
    ensures
        match saved {
            Ok(()) => r is Ok,
            Err(e) => r matches Err(GatewayError::Database(m)) && m@ == e.describe_spec(),
        },
{
    match saved {
        Ok(()) => Ok(()),
        Err(e) => Err(GatewayError::Database(e.describe())),
    }
}

} // verus!
