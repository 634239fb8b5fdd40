//! The MQTT client's settings and the decisions of its event loop.
use vstd::prelude::*;
use vstd::string::StringExecFns;
use crate::config::Settings;
use crate::error::GatewayError;

verus! {

/// MQTT delivery guarantees.
#[derive(Debug, Clone, Copy, PartialEq, Eq, Structural)]
pub enum QualityOfService {
    AtMostOnce,
    AtLeastOnce,
    ExactlyOnce,
}

/// How to set up the MQTT client and what it subscribes to.
pub struct MqttClientConfig {
    pub client_id: String,
    pub host: String,
    pub port: u16,
    /// Keep-alive interval, in seconds.
    pub keep_alive_secs: u64,
    /// Capacity of the client's request channel.
    pub request_capacity: usize,
    pub subscription: String,
    pub qos: QualityOfService,
}

/// The topic filter the gateway subscribes to.
pub open spec fn sensor_topic_filter() -> Seq<char> {
    "garden/sensors/#"@
}

/// The client settings for the given id and broker: a five-second
/// keep-alive, a request channel of ten, and a subscription to all garden
/// sensor topics at most once.
pub fn client_config(client_id: &str, host: &str, port: u16) -> (c: MqttClientConfig)
    ensures
        c.client_id@ == client_id@,
        c.host@ == host@,
        c.port == port,
        c.keep_alive_secs == 5,
        c.request_capacity == 10,
        c.subscription@ == sensor_topic_filter(),
        c.qos == QualityOfService::AtMostOnce,
{
    MqttClientConfig {
        client_id: String::from_str(client_id),
        host: String::from_str(host),
        port,
        keep_alive_secs: 5,
        request_capacity: 10,
        subscription: String::from_str("garden/sensors/#"),
        qos: QualityOfService::AtMostOnce,
    }
}

/// The client settings the gateway runs with: client id `gateway_prod`, and
/// the broker of the settings.
pub fn gateway_client_config(settings: &Settings) -> (c: MqttClientConfig)
    ensures
        c.client_id@ == "gateway_prod"@,
        c.host@ == settings.mqtt.host@,
        c.port == settings.mqtt.port,
        c.keep_alive_secs == 5,
        c.request_capacity == 10,
        c.subscription@ == sensor_topic_filter(),
        c.qos == QualityOfService::AtMostOnce,
{
    client_config("gateway_prod", settings.mqtt.host.as_str(), settings.mqtt.port)
}

/// The line printed once the client has subscribed.
pub fn subscription_notice(topic: &str) -> (s: String)
    ensures
        s@ == "Subscribed to '"@ + topic@ + "'. Waiting for data..."@,
{
    String::from_str("Subscribed to '").concat(topic).concat("'. Waiting for data...")
}

/// What one poll of the event loop gave.
#[derive(Debug, Clone, Copy, PartialEq, Eq, Structural)]
pub enum PollOutcome {
    /// An incoming PUBLISH packet.
    Publish,
    /// Any other event.
    OtherEvent,
    /// The connection failed.
    ConnectionError,
}

/// What the event loop does after a poll.
#[derive(Debug, Clone, Copy, PartialEq, Eq, Structural)]
pub enum LoopStep {
    /// Handle the packet's payload, then poll again.
    HandlePayload,
    /// Poll again.
    Continue,
    /// Wait this many seconds, then poll again.
    PauseSecs(u64),
}

/// Decides the event loop's next step: a published message is handled, other
/// events are ignored, and after a connection error the loop waits a second.
pub fn next_step(outcome: PollOutcome) -> (s: LoopStep)
    ensures
        s == match outcome {
            PollOutcome::Publish => LoopStep::HandlePayload,
            PollOutcome::OtherEvent => LoopStep::Continue,
            PollOutcome::ConnectionError => LoopStep::PauseSecs(1),
        },
{
    match outcome {
        PollOutcome::Publish => LoopStep::HandlePayload,
        PollOutcome::OtherEvent => LoopStep::Continue,
        PollOutcome::ConnectionError => LoopStep::PauseSecs(1),
    }
}

/// The line reported after handling a message, and whether it goes to the
/// error stream: success is announced; an error is shown with its message.
pub fn handling_report(result: &Result<(), GatewayError>) -> (report: (String, bool))
    ensures
        match result {
            Ok(()) => report.0@ == "SUCCESS | Message processed and stored."@ && !report.1,
            Err(e) => report.1 && report.0@.len() >= "ERROR | "@.len()
                && report.0@.subrange(0, "ERROR | "@.len() as int) == "ERROR | "@
                && e.message_is(report.0@.subrange("ERROR | "@.len() as int, report.0@.len() as int)),
        },
{
    match result {
        Ok(()) => (String::from_str("SUCCESS | Message processed and stored."), false),
        Err(e) => {
            let message = e.message();
            let line = String::from_str("ERROR | ").concat(message.as_str());
            assert(line@.subrange(0, "ERROR | "@.len() as int) =~= "ERROR | "@);
            assert(line@.subrange("ERROR | "@.len() as int, line@.len() as int) =~= message@);
            (line, true)
        },
    }
}

} // verus!
