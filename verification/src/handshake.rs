//! The handshake: from the first frame of a fresh transport to either a
//! `Connect` handle offered to the acceptance decision, or a rejection
//! with the reason code to write back when the protocol defines one —
//! all within a bounded time window.

use vstd::prelude::*;

use crate::codec::ConnectAckReason;
use crate::codec::Packet;
use crate::codec::PacketS;
use crate::codec::type_nibble;
use crate::connect::Connect;
use crate::error::DecodeError;
use crate::error::ProtocolError;
use crate::sink::MqttSink;

verus! {

/// What the first frame of a fresh transport leads to.
pub enum HandshakeOutcome {
    /// The buffer holds no complete frame yet: keep reading, within the
    /// handshake window.
    Pending,
    /// A structurally valid CONNECT: offer it to the acceptance
    /// decision.
    Offer(Connect),
    /// Rejected before the acceptance decision was ever consulted; the
    /// reason code is written back as a CONNACK when the protocol
    /// defines one for the failure.
    Reject { reason: Option<ConnectAckReason>, error: ProtocolError },
}

/// The reason code a CONNACK can carry for a decode failure, where the
/// protocol defines one.
pub open spec fn reason_for_decode_error(e: DecodeError) -> Option<ConnectAckReason> {
    match e {
        DecodeError::UnsupportedProtocolLevel => Option::Some(
            ConnectAckReason::UnacceptableProtocolVersion,
        ),
        DecodeError::InvalidClientId => Option::Some(ConnectAckReason::IdentifierRejected),
        _ => Option::None,
    }
}

/// Whether the bounded handshake window is still open: exceeding it is
/// the handshake-timeout error, distinct from an application-level
/// rejection.
pub fn check_handshake_deadline(started_at: u64, timeout_secs: u32, now: u64) -> (r: Result<
    (),
    ProtocolError,
>)
    requires
        now >= started_at,
    ensures
        match r {
            Result::Ok(()) => now <= started_at + timeout_secs,
            Result::Err(e) => e is HandshakeTimeout && now > started_at + timeout_secs,
        },
{
    if now - started_at > timeout_secs as u64 {
        Result::Err(ProtocolError::HandshakeTimeout)
    } else {
        Result::Ok(())
    }
}

/// Classifies the outcome of decoding the first frame.  A decode
/// failure — an unsupported protocol level among them — rejects the
/// handshake before the acceptance decision is ever consulted.  A
/// well-formed CONNECT becomes the `Connect` handle, with the client's
/// requested keep-alive as the live timer's initial interval.  Any
/// other packet first is a protocol violation.
pub fn on_first_frame(
    decoded: Result<Option<(Packet, usize)>, DecodeError>,
    sink: MqttSink,
    max_topic_alias: u16,
    inflight: usize,
) -> (r: HandshakeOutcome)
    ensures
        match decoded {
            Result::Err(e) => r matches HandshakeOutcome::Reject { reason, error } && reason
                == reason_for_decode_error(e) && (error matches ProtocolError::Decode(
                d,
            ) && crate::codec::kind_of(d) == crate::codec::kind_of(e)),
            Result::Ok(Option::None) => r is Pending,
            Result::Ok(Option::Some((p, _))) => match p@ {
                PacketS::Connect(c) => r matches HandshakeOutcome::Offer(conn) && {
                    &&& conn.spec_packet() == c
                    &&& conn.spec_max_topic_alias() == max_topic_alias
                    &&& conn.spec_in_flight() == inflight
                    &&& conn.spec_keep_alive() == c.keep_alive
                    &&& conn.spec_sink_queued() == sink.queued()
                },
                _ => r matches HandshakeOutcome::Reject { reason, error } && reason is None && (
                error matches ProtocolError::Unexpected(t, _) && t == type_nibble(p@)),
            },
        },
{
    match decoded {
        Result::Err(e) => {
            let reason = match e {
                DecodeError::UnsupportedProtocolLevel => Option::Some(
                    ConnectAckReason::UnacceptableProtocolVersion,
                ),
                DecodeError::InvalidClientId => Option::Some(ConnectAckReason::IdentifierRejected),
                _ => Option::None,
            };
            HandshakeOutcome::Reject { reason, error: ProtocolError::Decode(e) }
        },
        Result::Ok(Option::None) => HandshakeOutcome::Pending,
        Result::Ok(Option::Some((p, _))) => match p {
            Packet::Connect(c) => {
                let keep_alive = c.keep_alive as u32;
                HandshakeOutcome::Offer(
                    Connect::new(c, sink, max_topic_alias, inflight, keep_alive),
                )
            },
            other => {
                let t = nibble_of(&other);
                HandshakeOutcome::Reject {
                    reason: Option::None,
                    error: ProtocolError::Unexpected(t, "CONNECT"),
                }
            },
        },
    }
}

/// The packet-type nibble of a packet value, computed.
fn nibble_of(p: &Packet) -> (t: u8)
    ensures
        t == type_nibble(p@),
{
    match p {
        Packet::Connect(_) => 1,
        Packet::ConnectAck(_) => 2,
        Packet::Publish(_) => 3,
        Packet::PublishAck { .. } => 4,
        Packet::PublishReceived { .. } => 5,
        Packet::PublishRelease { .. } => 6,
        Packet::PublishComplete { .. } => 7,
        Packet::Subscribe { .. } => 8,
        Packet::SubscribeAck { .. } => 9,
        Packet::Unsubscribe { .. } => 10,
        Packet::UnsubscribeAck { .. } => 11,
        Packet::PingRequest => 12,
        Packet::PingResponse => 13,
        Packet::Disconnect => 14,
        Packet::Auth { .. } => 15,
    }
}

} // verus!
