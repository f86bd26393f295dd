//! The wire protocol: message framing and the connection-side registries.

pub mod message;
pub mod tcp_packet;
