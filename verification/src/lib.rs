//! A verified protocol engine core for an MQTT-style publish/subscribe
//! protocol: a binary codec for control packets, per-connection session
//! state (in-flight acknowledgement table, topic-alias registry,
//! keep-alive deadlines, handshake shaping), and the error taxonomy that
//! classifies failures as service, protocol, or transport faults.

pub mod alias;
pub mod codec;
pub mod connect;
pub mod error;
pub mod handshake;
pub mod inflight;
pub mod session;
pub mod sink;
