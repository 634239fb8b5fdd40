//! Errors of the gateway.
use vstd::prelude::*;
use vstd::string::StringExecFns;
use vstd::string::to_string_from_display_ensures;
use prost::DecodeError;

verus! {

/// What Rust's `Debug` formatting makes of a string: the text in double
/// quotes, with quotes, backslashes and control characters escaped.
pub uninterp spec fn debug_quoted(s: Seq<char>) -> Seq<char>;

/// Formats `s` with `Debug` (`format!("{:?}", s)`). Claims only that the
/// result is a function of the text (`debug_quoted`); the escaping rules are
/// not written out.
#[verifier::external_body]
fn debug_quote(s: &str) -> (r: String)
    ensures
        r@ == debug_quoted(s@),
{
    format!("{:?}", s)
}

/// Errors of parsing a reading or storing it.
#[derive(Debug, Clone, PartialEq, Eq)]
pub enum SensorError {
    InvalidPayload(String),
    InvalidTopic(String),
    DatabaseError(String),
}

impl SensorError {
    /// The `Debug` form of the error: the variant's name, then its message
    /// quoted in round brackets.
    pub open spec fn describe_spec(self) -> Seq<char> {
        match self {
            SensorError::InvalidPayload(m) => "InvalidPayload("@ + debug_quoted(m@) + ")"@,
            SensorError::InvalidTopic(m) => "InvalidTopic("@ + debug_quoted(m@) + ")"@,
            SensorError::DatabaseError(m) => "DatabaseError("@ + debug_quoted(m@) + ")"@,
        }
    }

    /// Renders the error as `Debug` does, e.g. `InvalidTopic("...")`.
    pub fn describe(&self) -> (s: String)
        ensures
            s@ == self.describe_spec(),
    {
        let (name, message) = match self {
            SensorError::InvalidPayload(m) => (String::from_str("InvalidPayload("), m),
            SensorError::InvalidTopic(m) => (String::from_str("InvalidTopic("), m),
            SensorError::DatabaseError(m) => (String::from_str("DatabaseError("), m),
        };
        let quoted = debug_quote(message.as_str());
        name.concat(quoted.as_str()).concat(")")
    }
}

/// Errors of the gateway as a whole.
#[derive(Debug)]
pub enum GatewayError {
    Config(String),
    Database(String),
    Network(String),
    Decod(DecodeError),
    InvalidData(String),
}

/// `text` is what `Display` writes for the decode error `e` (by vstd's
/// specification of `to_string`).
pub open spec fn displays_as(e: DecodeError, text: Seq<char>) -> bool {
    exists|d: String| #[trigger] to_string_from_display_ensures::<DecodeError>(&e, d) && d@ == text
}

impl GatewayError {
    /// `t` is the text shown for the error: a fixed prefix per variant
    /// followed by the detail; for a decode error, the detail is the error's
    /// `Display` text.
    pub open spec fn message_is(self, t: Seq<char>) -> bool {
        match self {
            GatewayError::Config(m) => t == "Invalid configuration: "@ + m@,
            GatewayError::Database(m) => t == "Database error: "@ + m@,
            GatewayError::Network(m) => t == "MQTT network error: "@ + m@,
            GatewayError::Decod(e) => t.len() >= "Protobuf decoding error: "@.len()
                && t.subrange(0, "Protobuf decoding error: "@.len() as int)
                == "Protobuf decoding error: "@ && displays_as(
                e,
                t.subrange("Protobuf decoding error: "@.len() as int, t.len() as int),
            ),
            GatewayError::InvalidData(m) => t == "Invalid sensor data: "@ + m@,
        }
    }

    /// The human-readable text of the error: a fixed prefix per variant
    /// followed by the detail (for a decode error, prost's `Display` text).
    pub fn message(&self) -> (s: String)
        ensures
            self.message_is(s@),
    {
        match self {
            GatewayError::Config(m) => String::from_str("Invalid configuration: ").concat(m.as_str()),
            GatewayError::Database(m) => String::from_str("Database error: ").concat(m.as_str()),
            GatewayError::Network(m) => String::from_str("MQTT network error: ").concat(m.as_str()),
            GatewayError::Decod(e) => {
                let detail = e.to_string();
                let s = String::from_str("Protobuf decoding error: ").concat(detail.as_str());
                let ghost n = "Protobuf decoding error: "@.len() as int;
                assert(s@.subrange(0, n) =~= "Protobuf decoding error: "@);
                assert(s@.subrange(n, s@.len() as int) =~= detail@);
                assert(displays_as(*e, detail@));
                s
            },
            GatewayError::InvalidData(m) => String::from_str("Invalid sensor data: ").concat(m.as_str()),
        }
    }
}

} // verus!
