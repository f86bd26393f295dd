//! A typed envelope for payloads shipped between processes: a type tag
//! drawn from a fixed taxonomy and the payload it classifies. How a
//! payload is turned into bytes is up to each implementation of
//! `Message`; only the envelope itself is defined here.

use vstd::prelude::*;

use crate::errors::CustomError;

verus! {

/// Ability to travel as bytes under a type tag.
pub trait Message: Sized {
    /// Encode the payload to a byte stream.
    fn encode(&self) -> Result<Vec<u8>, CustomError>;

    /// The tag classifying the payload.
    fn message_type(&self) -> MessageType;

    /// Decode a payload from a byte stream.
    fn decode(buf: &Vec<u8>) -> Self;
}

/// The taxonomy of payloads an envelope may classify.
#[derive(Debug, Clone, Copy, PartialEq, Eq, Structural)]
pub enum MessageType {
    None_,
    Syslog,
    Statsd,
    Metrics,
    TaggedFlow,
    ProtocolLog,
    OpenTelemetry,
    Prometheus,
    Telegraf,
    PacketSequenceBlock,
    DeepflowStats,
    OpenTelemetryCompressed,
    RawPcap,
}

/// One tagged payload.
#[derive(Debug, Clone)]
pub struct BackerMessage<T> {
    tp: MessageType,
    data: T,
}

impl<T> BackerMessage<T> {
    /// The tag the envelope was made with.
    pub closed spec fn spec_message_type(&self) -> MessageType {
        self.tp
    }

    /// The payload the envelope was made with.
    pub closed spec fn spec_data(&self) -> T {
        self.data
    }

    /// Wraps `data` under the tag `tp`.
    pub fn new(tp: MessageType, data: T) -> (r: BackerMessage<T>)
        ensures
            r.spec_message_type() == tp,
            r.spec_data() == data,
    {
        Self { tp, data }
    }

    /// The tag the payload travels under.
    pub fn message_type(&self) -> (r: MessageType)
        ensures
            r == self.spec_message_type(),
    {
        self.tp
    }

    /// The payload itself.
    pub fn data(&self) -> (r: &T)
        ensures
            *r == self.spec_data(),
    {
        &self.data
    }
}

} // verus!
