//! The codec: a stateless, bit-exact transformation between a contiguous
//! byte buffer and a typed control packet, for one protocol level at a
//! time.
//!
//! The wire shape is the classic MQTT framing: a fixed header byte
//! holding the packet-type nibble and its flags, a remaining-length
//! field in the variable-length integer encoding (seven bits per byte,
//! continuation bit, at most four bytes), big-endian integers, and
//! length-prefixed UTF-8 string fields.  `spec_encode` and `spec_decode`
//! are the mathematical definitions; the executable `Codec` methods are
//! proved to follow them exactly.

use vstd::prelude::*;
use vstd::utf8::{encode_utf8, decode_utf8, valid_utf8};

use crate::error::DecodeError;
use crate::error::EncodeError;

verus! {

/// Largest value the remaining-length varint can carry.
pub const MAX_REMAINING_LENGTH: u32 = 268435455;

/// Protocol level of the older supported protocol version.
pub const LEVEL_V3: u8 = 4;

/// Protocol level of the newer supported protocol version.
pub const LEVEL_V5: u8 = 5;

/// CONNECT message.
#[derive(Debug, Clone, PartialEq, Eq)]
pub struct Connect {
    /// Requested protocol level.
    pub protocol_level: u8,
    /// Whether the peer asks for a fresh session.
    pub clean_session: bool,
    /// Requested keep-alive interval in seconds.
    pub keep_alive: u16,
    /// Client identifier.
    pub client_id: String,
}

/// Reason code carried by a CONNACK message.
#[derive(Copy, Clone, Debug, PartialEq, Eq, Structural)]
pub enum ConnectAckReason {
    Success,
    UnacceptableProtocolVersion,
    IdentifierRejected,
    ServerUnavailable,
    BadUserNameOrPassword,
    NotAuthorized,
}

/// CONNACK message.
#[derive(Debug, Clone, PartialEq, Eq)]
pub struct ConnectAck {
    /// Whether the server resumes a stored session.
    pub session_present: bool,
    /// Outcome of the handshake.
    pub reason_code: ConnectAckReason,
    /// Highest topic alias the sender of this packet accepts.
    pub topic_alias_max: u16,
    /// Keep-alive override in seconds, when the handshake sets one.
    pub session_expiry_interval_secs: Option<u32>,
}

/// PUBLISH message.
#[derive(Debug, Clone, PartialEq, Eq)]
pub struct Publish {
    /// Quality of service, `0..=2`.
    pub qos: u8,
    /// Topic name; may be empty when a topic alias is carried instead.
    pub topic: String,
    /// Topic alias, supported by the newer protocol level only.
    pub topic_alias: Option<u16>,
    /// Packet identifier; non-zero exactly when `qos > 0`.
    pub packet_id: u16,
    /// Application payload.
    pub payload: Vec<u8>,
}

/// One decoded control packet.
#[derive(Debug, Clone, PartialEq, Eq)]
pub enum Packet {
    /// Connection request, the first packet of a connection.
    Connect(Connect),
    /// Connection acknowledgement.
    ConnectAck(ConnectAck),
    /// Application message.
    Publish(Publish),
    /// Acknowledgement of a quality-of-service-1 publish.
    PublishAck { packet_id: u16 },
    /// First acknowledgement of a quality-of-service-2 publish.
    PublishReceived { packet_id: u16 },
    /// Release of a quality-of-service-2 publish.
    PublishRelease { packet_id: u16 },
    /// Final acknowledgement of a quality-of-service-2 publish.
    PublishComplete { packet_id: u16 },
    /// Subscription request for one topic filter.
    Subscribe { packet_id: u16, topic_filter: String, qos: u8 },
    /// Subscription acknowledgement; the return code is the granted
    /// quality of service, or 128 for a refusal.
    SubscribeAck { packet_id: u16, return_code: u8 },
    /// Unsubscription request for one topic filter.
    Unsubscribe { packet_id: u16, topic_filter: String },
    /// Unsubscription acknowledgement.
    UnsubscribeAck { packet_id: u16 },
    /// Liveness probe.
    PingRequest,
    /// Answer to a liveness probe.
    PingResponse,
    /// Orderly end of the connection.
    Disconnect,
    /// Extended authentication exchange, newer protocol level only.
    Auth { reason_code: u8 },
}

/// Mathematical model of a CONNECT message.
pub struct ConnectS {
    pub protocol_level: u8,
    pub clean_session: bool,
    pub keep_alive: u16,
    pub client_id: Seq<char>,
}

/// Mathematical model of a CONNACK message.
pub struct ConnectAckS {
    pub session_present: bool,
    pub reason_code: ConnectAckReason,
    pub topic_alias_max: u16,
    pub session_expiry_interval_secs: Option<u32>,
}

/// Mathematical model of a PUBLISH message.
pub struct PublishS {
    pub qos: u8,
    pub topic: Seq<char>,
    pub topic_alias: Option<u16>,
    pub packet_id: u16,
    pub payload: Seq<u8>,
}

/// Mathematical model of a control packet.
pub enum PacketS {
    Connect(ConnectS),
    ConnectAck(ConnectAckS),
    Publish(PublishS),
    PublishAck { packet_id: u16 },
    PublishReceived { packet_id: u16 },
    PublishRelease { packet_id: u16 },
    PublishComplete { packet_id: u16 },
    Subscribe { packet_id: u16, topic_filter: Seq<char>, qos: u8 },
    SubscribeAck { packet_id: u16, return_code: u8 },
    Unsubscribe { packet_id: u16, topic_filter: Seq<char> },
    UnsubscribeAck { packet_id: u16 },
    PingRequest,
    PingResponse,
    Disconnect,
    Auth { reason_code: u8 },
}

impl View for Connect {
    type V = ConnectS;

    open spec fn view(&self) -> ConnectS {
        ConnectS {
            protocol_level: self.protocol_level,
            clean_session: self.clean_session,
            keep_alive: self.keep_alive,
            client_id: self.client_id@,
        }
    }
}

impl View for ConnectAck {
    type V = ConnectAckS;

    open spec fn view(&self) -> ConnectAckS {
        ConnectAckS {
            session_present: self.session_present,
            reason_code: self.reason_code,
            topic_alias_max: self.topic_alias_max,
            session_expiry_interval_secs: self.session_expiry_interval_secs,
        }
    }
}

impl View for Publish {
    type V = PublishS;

    open spec fn view(&self) -> PublishS {
        PublishS {
            qos: self.qos,
            topic: self.topic@,
            topic_alias: self.topic_alias,
            packet_id: self.packet_id,
            payload: self.payload@,
        }
    }
}

impl View for Packet {
    type V = PacketS;

    open spec fn view(&self) -> PacketS {
        match self {
            Packet::Connect(c) => PacketS::Connect(c@),
            Packet::ConnectAck(a) => PacketS::ConnectAck(a@),
            Packet::Publish(p) => PacketS::Publish(p@),
            Packet::PublishAck { packet_id } => PacketS::PublishAck { packet_id: *packet_id },
            Packet::PublishReceived { packet_id } => PacketS::PublishReceived {
                packet_id: *packet_id,
            },
            Packet::PublishRelease { packet_id } => PacketS::PublishRelease {
                packet_id: *packet_id,
            },
            Packet::PublishComplete { packet_id } => PacketS::PublishComplete {
                packet_id: *packet_id,
            },
            Packet::Subscribe { packet_id, topic_filter, qos } => PacketS::Subscribe {
                packet_id: *packet_id,
                topic_filter: topic_filter@,
                qos: *qos,
            },
            Packet::SubscribeAck { packet_id, return_code } => PacketS::SubscribeAck {
                packet_id: *packet_id,
                return_code: *return_code,
            },
            Packet::Unsubscribe { packet_id, topic_filter } => PacketS::Unsubscribe {
                packet_id: *packet_id,
                topic_filter: topic_filter@,
            },
            Packet::UnsubscribeAck { packet_id } => PacketS::UnsubscribeAck {
                packet_id: *packet_id,
            },
            Packet::PingRequest => PacketS::PingRequest,
            Packet::PingResponse => PacketS::PingResponse,
            Packet::Disconnect => PacketS::Disconnect,
            Packet::Auth { reason_code } => PacketS::Auth { reason_code: *reason_code },
        }
    }
}

/// Wire byte of a CONNACK reason code.
pub open spec fn reason_byte(r: ConnectAckReason) -> u8 {
    match r {
        ConnectAckReason::Success => 0,
        ConnectAckReason::UnacceptableProtocolVersion => 1,
        ConnectAckReason::IdentifierRejected => 2,
        ConnectAckReason::ServerUnavailable => 3,
        ConnectAckReason::BadUserNameOrPassword => 4,
        ConnectAckReason::NotAuthorized => 5,
    }
}

/// Big-endian encoding of a 16-bit integer.
pub open spec fn enc_u16(v: u16) -> Seq<u8> {
    seq![(v / 256) as u8, (v % 256) as u8]
}

/// Big-endian encoding of a 32-bit integer.
pub open spec fn enc_u32(v: u32) -> Seq<u8> {
    seq![
        (v / 16777216) as u8,
        ((v / 65536) % 256) as u8,
        ((v / 256) % 256) as u8,
        (v % 256) as u8,
    ]
}

/// The variable-length integer encoding of the remaining length: seven
/// value bits per byte, least significant group first, continuation bit
/// on every byte but the last.
pub open spec fn enc_varint(n: int) -> Seq<u8>
    recommends
        0 <= n <= MAX_REMAINING_LENGTH,
{
    if n < 128 {
        seq![n as u8]
    } else if n < 16384 {
        seq![(n % 128 + 128) as u8, (n / 128) as u8]
    } else if n < 2097152 {
        seq![(n % 128 + 128) as u8, ((n / 128) % 128 + 128) as u8, (n / 16384) as u8]
    } else {
        seq![
            (n % 128 + 128) as u8,
            ((n / 128) % 128 + 128) as u8,
            ((n / 16384) % 128 + 128) as u8,
            (n / 2097152) as u8,
        ]
    }
}

/// Length-prefixed UTF-8 encoding of a string field.
pub open spec fn enc_str(s: Seq<char>) -> Seq<u8> {
    enc_u16(encode_utf8(s).len() as u16) + encode_utf8(s)
}

/// The six bytes that open every CONNECT body: the length-prefixed
/// protocol name.
pub open spec fn protocol_name() -> Seq<u8> {
    seq![0u8, 4u8, 77u8, 81u8, 84u8, 84u8]
}

/// Body bytes of a packet, excluding the fixed header and the
/// remaining-length field.
pub open spec fn body_of(ps: PacketS) -> Seq<u8> {
    match ps {
        PacketS::Connect(c) => protocol_name() + seq![c.protocol_level] + seq![
            if c.clean_session {
                2u8
            } else {
                0u8
            },
        ] + enc_u16(c.keep_alive) + enc_str(c.client_id),
        PacketS::ConnectAck(a) => seq![
            if a.session_present {
                1u8
            } else {
                0u8
            },
        ] + seq![reason_byte(a.reason_code)] + enc_u16(a.topic_alias_max) + (
        match a.session_expiry_interval_secs {
            Option::None => seq![0u8],
            Option::Some(k) => seq![1u8] + enc_u32(k),
        }),
        PacketS::Publish(p) => enc_str(p.topic) + (match p.topic_alias {
            Option::None => seq![0u8],
            Option::Some(a) => seq![1u8] + enc_u16(a),
        }) + (if p.qos > 0 {
            enc_u16(p.packet_id)
        } else {
            Seq::<u8>::empty()
        }) + p.payload,
        PacketS::PublishAck { packet_id } => enc_u16(packet_id),
        PacketS::PublishReceived { packet_id } => enc_u16(packet_id),
        PacketS::PublishRelease { packet_id } => enc_u16(packet_id),
        PacketS::PublishComplete { packet_id } => enc_u16(packet_id),
        PacketS::Subscribe { packet_id, topic_filter, qos } => enc_u16(packet_id) + enc_str(
            topic_filter,
        ) + seq![qos],
        PacketS::SubscribeAck { packet_id, return_code } => enc_u16(packet_id) + seq![return_code],
        PacketS::Unsubscribe { packet_id, topic_filter } => enc_u16(packet_id) + enc_str(
            topic_filter,
        ),
        PacketS::UnsubscribeAck { packet_id } => enc_u16(packet_id),
        PacketS::PingRequest => Seq::<u8>::empty(),
        PacketS::PingResponse => Seq::<u8>::empty(),
        PacketS::Disconnect => Seq::<u8>::empty(),
        PacketS::Auth { reason_code } => seq![reason_code],
    }
}

/// Packet-type nibble of the fixed header.
pub open spec fn type_nibble(ps: PacketS) -> u8 {
    match ps {
        PacketS::Connect(_) => 1,
        PacketS::ConnectAck(_) => 2,
        PacketS::Publish(_) => 3,
        PacketS::PublishAck { .. } => 4,
        PacketS::PublishReceived { .. } => 5,
        PacketS::PublishRelease { .. } => 6,
        PacketS::PublishComplete { .. } => 7,
        PacketS::Subscribe { .. } => 8,
        PacketS::SubscribeAck { .. } => 9,
        PacketS::Unsubscribe { .. } => 10,
        PacketS::UnsubscribeAck { .. } => 11,
        PacketS::PingRequest => 12,
        PacketS::PingResponse => 13,
        PacketS::Disconnect => 14,
        PacketS::Auth { .. } => 15,
    }
}

/// Flag bits of the fixed header: the quality of service for PUBLISH,
/// the fixed value 2 for PUBREL, SUBSCRIBE and UNSUBSCRIBE, zero
/// otherwise.
pub open spec fn header_flags(ps: PacketS) -> u8 {
    match ps {
        PacketS::Publish(p) => (2 * p.qos) as u8,
        PacketS::PublishRelease { .. } => 2,
        PacketS::Subscribe { .. } => 2,
        PacketS::Unsubscribe { .. } => 2,
        _ => 0,
    }
}

/// The complete wire representation of a packet.
pub open spec fn spec_encode(ps: PacketS) -> Seq<u8> {
    seq![(16 * type_nibble(ps) + header_flags(ps)) as u8] + enc_varint(body_of(ps).len() as int)
        + body_of(ps)
}

/// The error, if any, that encoding the given packet under the given
/// protocol level reports; `None` means the packet is valid and is
/// encoded as `spec_encode` says.
pub open spec fn encode_check(level: u8, ps: PacketS) -> Option<EncodeError> {
    let specific: Option<EncodeError> = match ps {
        PacketS::Connect(c) => if c.protocol_level != LEVEL_V3 && c.protocol_level != LEVEL_V5 {
            Option::Some(EncodeError::MalformedPacket)
        } else if c.client_id.len() == 0 && !c.clean_session {
            Option::Some(EncodeError::MalformedPacket)
        } else if encode_utf8(c.client_id).len() > 65535 {
            Option::Some(EncodeError::InvalidLength)
        } else {
            Option::None
        },
        PacketS::ConnectAck(_) => Option::None,
        PacketS::Publish(p) => if p.topic_alias is Some && level != LEVEL_V5 {
            Option::Some(EncodeError::UnsupportedVersion)
        } else if p.qos > 2 {
            Option::Some(EncodeError::MalformedPacket)
        } else if p.topic_alias == Option::Some(0u16) {
            Option::Some(EncodeError::MalformedPacket)
        } else if p.qos > 0 && p.packet_id == 0 {
            Option::Some(EncodeError::PacketIdRequired)
        } else if p.qos == 0 && p.packet_id != 0 {
            Option::Some(EncodeError::MalformedPacket)
        } else if encode_utf8(p.topic).len() > 65535 {
            Option::Some(EncodeError::InvalidLength)
        } else {
            Option::None
        },
        PacketS::PublishAck { packet_id } | PacketS::PublishReceived { packet_id }
        | PacketS::PublishRelease { packet_id } | PacketS::PublishComplete { packet_id }
        | PacketS::UnsubscribeAck { packet_id } => if packet_id == 0 {
            Option::Some(EncodeError::PacketIdRequired)
        } else {
            Option::None
        },
        PacketS::Subscribe { packet_id, topic_filter, qos } => if packet_id == 0 {
            Option::Some(EncodeError::PacketIdRequired)
        } else if qos > 2 {
            Option::Some(EncodeError::MalformedPacket)
        } else if encode_utf8(topic_filter).len() > 65535 {
            Option::Some(EncodeError::InvalidLength)
        } else {
            Option::None
        },
        PacketS::SubscribeAck { packet_id, return_code } => if packet_id == 0 {
            Option::Some(EncodeError::PacketIdRequired)
        } else if return_code > 2 && return_code != 128 {
            Option::Some(EncodeError::MalformedPacket)
        } else {
            Option::None
        },
        PacketS::Unsubscribe { packet_id, topic_filter } => if packet_id == 0 {
            Option::Some(EncodeError::PacketIdRequired)
        } else if encode_utf8(topic_filter).len() > 65535 {
            Option::Some(EncodeError::InvalidLength)
        } else {
            Option::None
        },
        PacketS::Auth { .. } => if level != LEVEL_V5 {
            Option::Some(EncodeError::UnsupportedVersion)
        } else {
            Option::None
        },
        _ => Option::None,
    };
    match specific {
        Option::Some(e) => Option::Some(e),
        Option::None => if body_of(ps).len() > MAX_REMAINING_LENGTH {
            Option::Some(EncodeError::InvalidLength)
        } else {
            Option::None
        },
    }
}

/// A packet the given protocol level can put on the wire.
pub open spec fn valid_packet(level: u8, ps: PacketS) -> bool {
    encode_check(level, ps) is None
}

/// Appends every byte of a slice to a buffer.
fn push_bytes(dst: &mut Vec<u8>, src: &[u8])
    ensures
        final(dst)@ == old(dst)@ + src@,
{
    let mut i: usize = 0;
    while i < src.len()
        invariant
            i <= src@.len(),
            dst@ == old(dst)@ + src@.take(i as int),
        decreases src@.len() - i,
    {
        dst.push(*vstd::slice::slice_index_get(src, i));
        proof {
            assert(old(dst)@ + src@.take(i as int) + seq![src@[i as int]] =~= old(dst)@
                + src@.take(i + 1));
        }
        i = i + 1;
    }
    proof {
        assert(src@.take(src@.len() as int) =~= src@);
    }
}

/// Appends a big-endian 16-bit integer.
fn push_u16(dst: &mut Vec<u8>, v: u16)
    ensures
        final(dst)@ == old(dst)@ + enc_u16(v),
{
    dst.push((v / 256) as u8);
    dst.push((v % 256) as u8);
    proof {
        assert(dst@ =~= old(dst)@ + enc_u16(v));
    }
}

/// Appends a big-endian 32-bit integer.
fn push_u32(dst: &mut Vec<u8>, v: u32)
    ensures
        final(dst)@ == old(dst)@ + enc_u32(v),
{
    dst.push((v / 16777216) as u8);
    dst.push(((v / 65536) % 256) as u8);
    dst.push(((v / 256) % 256) as u8);
    dst.push((v % 256) as u8);
    proof {
        assert(dst@ =~= old(dst)@ + enc_u32(v));
    }
}

/// Appends a remaining-length varint.
fn push_varint(dst: &mut Vec<u8>, n: u32)
    requires
        n <= MAX_REMAINING_LENGTH,
    ensures
        final(dst)@ == old(dst)@ + enc_varint(n as int),
{
    if n < 128 {
        dst.push(n as u8);
    } else if n < 16384 {
        dst.push((n % 128 + 128) as u8);
        dst.push((n / 128) as u8);
    } else if n < 2097152 {
        dst.push((n % 128 + 128) as u8);
        dst.push(((n / 128) % 128 + 128) as u8);
        dst.push((n / 16384) as u8);
    } else {
        dst.push((n % 128 + 128) as u8);
        dst.push(((n / 128) % 128 + 128) as u8);
        dst.push(((n / 16384) % 128 + 128) as u8);
        dst.push((n / 2097152) as u8);
    }
    proof {
        assert(dst@ =~= old(dst)@ + enc_varint(n as int));
    }
}

/// Appends a length-prefixed UTF-8 string field.
fn push_str(dst: &mut Vec<u8>, s: &str)
    requires
        encode_utf8(s@).len() <= 65535,
    ensures
        final(dst)@ == old(dst)@ + enc_str(s@),
{
    let bytes = s.as_bytes();
    push_u16(dst, bytes.len() as u16);
    push_bytes(dst, bytes);
    proof {
        assert(dst@ =~= old(dst)@ + enc_str(s@));
    }
}

/// A codec instance: the negotiated protocol level and the largest frame
/// it accepts.
#[derive(Debug, Clone, PartialEq, Eq, Structural)]
pub struct Codec {
    /// Protocol level negotiated for this connection.
    pub protocol_level: u8,
    /// Largest accepted frame body, in bytes.
    pub max_size: u32,
}

impl Codec {
    /// A codec for the given protocol level that accepts bodies up to
    /// the varint maximum.
    pub fn new(protocol_level: u8) -> (r: Codec)
        ensures
            r.protocol_level == protocol_level,
            r.max_size == MAX_REMAINING_LENGTH,
    {
        Codec { protocol_level, max_size: MAX_REMAINING_LENGTH }
    }

    /// Lowers or raises the largest accepted frame body.
    pub fn set_max_size(&mut self, size: u32)
        ensures
            final(self).protocol_level == old(self).protocol_level,
            final(self).max_size == size,
    {
        self.max_size = size;
    }

    /// Appends the wire representation of a packet, or reports the first
    /// reason the packet cannot be put on the wire, leaving the buffer
    /// unchanged.
    #[verifier::rlimit(100)]
    #[verifier::spinoff_prover]
    pub fn encode(&self, packet: &Packet, dst: &mut Vec<u8>) -> (r: Result<(), EncodeError>)
        ensures
            match r {
                Result::Ok(()) => valid_packet(self.protocol_level, packet@) && final(dst)@ == old(dst)@
                    + spec_encode(packet@),
                Result::Err(e) => encode_check(self.protocol_level, packet@)
                    == Option::Some::<EncodeError>(e) && final(dst)@ == old(dst)@,
            },
    {
        let ghost ps = packet@;
        match packet {
            Packet::Connect(c) => {
                if c.protocol_level != LEVEL_V3 && c.protocol_level != LEVEL_V5 {
                    return Result::Err(EncodeError::MalformedPacket);
                }
                if c.client_id.as_str().is_empty() && !c.clean_session {
                    return Result::Err(EncodeError::MalformedPacket);
                }
                let id_len = c.client_id.as_str().as_bytes().len();
                if id_len > 65535 {
                    return Result::Err(EncodeError::InvalidLength);
                }
                let body_len: usize = 12 + id_len;
                dst.push(16u8);
                push_varint(dst, body_len as u32);
                dst.push(0u8);
                dst.push(4u8);
                dst.push(77u8);
                dst.push(81u8);
                dst.push(84u8);
                dst.push(84u8);
                dst.push(c.protocol_level);
                dst.push(if c.clean_session { 2u8 } else { 0u8 });
                push_u16(dst, c.keep_alive);
                push_str(dst, c.client_id.as_str());
                proof {
                    assert(body_of(ps).len() == body_len);
                    assert(dst@ =~= old(dst)@ + spec_encode(ps));
                }
                Result::Ok(())
            },
            Packet::ConnectAck(a) => {
                let body_len: usize = match a.session_expiry_interval_secs {
                    Option::None => 5,
                    Option::Some(_) => 9,
                };
                dst.push(32u8);
                push_varint(dst, body_len as u32);
                dst.push(if a.session_present { 1u8 } else { 0u8 });
                dst.push(reason_code_byte(a.reason_code));
                push_u16(dst, a.topic_alias_max);
                match a.session_expiry_interval_secs {
                    Option::None => {
                        dst.push(0u8);
                    },
                    Option::Some(k) => {
                        dst.push(1u8);
                        push_u32(dst, k);
                    },
                }
                proof {
                    assert(body_of(ps).len() == body_len);
                    assert(dst@ =~= old(dst)@ + spec_encode(ps));
                }
                Result::Ok(())
            },
            Packet::Publish(p) => {
                if p.topic_alias.is_some() && self.protocol_level != LEVEL_V5 {
                    return Result::Err(EncodeError::UnsupportedVersion);
                }
                if p.qos > 2 {
                    return Result::Err(EncodeError::MalformedPacket);
                }
                if p.topic_alias == Option::Some(0u16) {
                    return Result::Err(EncodeError::MalformedPacket);
                }
                if p.qos > 0 && p.packet_id == 0 {
                    return Result::Err(EncodeError::PacketIdRequired);
                }
                if p.qos == 0 && p.packet_id != 0 {
                    return Result::Err(EncodeError::MalformedPacket);
                }
                let topic_len = p.topic.as_str().as_bytes().len();
                if topic_len > 65535 {
                    return Result::Err(EncodeError::InvalidLength);
                }
                if p.payload.len() > MAX_REMAINING_LENGTH as usize {
                    return Result::Err(EncodeError::InvalidLength);
                }
                let alias_len: usize = match p.topic_alias {
                    Option::None => 1,
                    Option::Some(_) => 3,
                };
                let id_len: usize = if p.qos > 0 {
                    2
                } else {
                    0
                };
                let body_len: usize = 2 + topic_len + alias_len + id_len + p.payload.len();
                if body_len > MAX_REMAINING_LENGTH as usize {
                    return Result::Err(EncodeError::InvalidLength);
                }
                dst.push(48u8 + 2u8 * p.qos);
                push_varint(dst, body_len as u32);
                push_str(dst, p.topic.as_str());
                match p.topic_alias {
                    Option::None => {
                        dst.push(0u8);
                    },
                    Option::Some(al) => {
                        dst.push(1u8);
                        push_u16(dst, al);
                    },
                }
                if p.qos > 0 {
                    push_u16(dst, p.packet_id);
                }
                push_bytes(dst, p.payload.as_slice());
                proof {
                    assert(body_of(ps).len() == body_len);
                    assert(dst@ =~= old(dst)@ + spec_encode(ps));
                }
                Result::Ok(())
            },
            Packet::PublishAck { packet_id } => self.encode_id_only(64u8, *packet_id, dst),
            Packet::PublishReceived { packet_id } => self.encode_id_only(80u8, *packet_id, dst),
            Packet::PublishRelease { packet_id } => self.encode_id_only(98u8, *packet_id, dst),
            Packet::PublishComplete { packet_id } => self.encode_id_only(112u8, *packet_id, dst),
            Packet::Subscribe { packet_id, topic_filter, qos } => {
                if *packet_id == 0 {
                    return Result::Err(EncodeError::PacketIdRequired);
                }
                if *qos > 2 {
                    return Result::Err(EncodeError::MalformedPacket);
                }
                let topic_len = topic_filter.as_str().as_bytes().len();
                if topic_len > 65535 {
                    return Result::Err(EncodeError::InvalidLength);
                }
                let body_len: usize = 5 + topic_len;
                dst.push(130u8);
                push_varint(dst, body_len as u32);
                push_u16(dst, *packet_id);
                push_str(dst, topic_filter.as_str());
                dst.push(*qos);
                proof {
                    assert(body_of(ps).len() == body_len);
                    assert(dst@ =~= old(dst)@ + spec_encode(ps));
                }
                Result::Ok(())
            },
            Packet::SubscribeAck { packet_id, return_code } => {
                if *packet_id == 0 {
                    return Result::Err(EncodeError::PacketIdRequired);
                }
                if *return_code > 2 && *return_code != 128 {
                    return Result::Err(EncodeError::MalformedPacket);
                }
                dst.push(144u8);
                push_varint(dst, 3u32);
                push_u16(dst, *packet_id);
                dst.push(*return_code);
                proof {
                    assert(dst@ =~= old(dst)@ + spec_encode(ps));
                }
                Result::Ok(())
            },
            Packet::Unsubscribe { packet_id, topic_filter } => {
                if *packet_id == 0 {
                    return Result::Err(EncodeError::PacketIdRequired);
                }
                let topic_len = topic_filter.as_str().as_bytes().len();
                if topic_len > 65535 {
                    return Result::Err(EncodeError::InvalidLength);
                }
                let body_len: usize = 4 + topic_len;
                dst.push(162u8);
                push_varint(dst, body_len as u32);
                push_u16(dst, *packet_id);
                push_str(dst, topic_filter.as_str());
                proof {
                    assert(body_of(ps).len() == body_len);
                    assert(dst@ =~= old(dst)@ + spec_encode(ps));
                }
                Result::Ok(())
            },
            Packet::UnsubscribeAck { packet_id } => self.encode_id_only(176u8, *packet_id, dst),
            Packet::PingRequest => {
                dst.push(192u8);
                push_varint(dst, 0u32);
                proof {
                    assert(dst@ =~= old(dst)@ + spec_encode(ps));
                }
                Result::Ok(())
            },
            Packet::PingResponse => {
                dst.push(208u8);
                push_varint(dst, 0u32);
                proof {
                    assert(dst@ =~= old(dst)@ + spec_encode(ps));
                }
                Result::Ok(())
            },
            Packet::Disconnect => {
                dst.push(224u8);
                push_varint(dst, 0u32);
                proof {
                    assert(dst@ =~= old(dst)@ + spec_encode(ps));
                }
                Result::Ok(())
            },
            Packet::Auth { reason_code } => {
                if self.protocol_level != LEVEL_V5 {
                    return Result::Err(EncodeError::UnsupportedVersion);
                }
                dst.push(240u8);
                push_varint(dst, 1u32);
                dst.push(*reason_code);
                proof {
                    assert(dst@ =~= old(dst)@ + spec_encode(ps));
                }
                Result::Ok(())
            },
        }
    }

    /// Appends a packet whose body is exactly one packet identifier.
    fn encode_id_only(&self, header: u8, packet_id: u16, dst: &mut Vec<u8>) -> (r: Result<
        (),
        EncodeError,
    >)
        requires
            header == 64 || header == 80 || header == 98 || header == 112 || header == 176,
        ensures
            match r {
                Result::Ok(()) => packet_id != 0 && final(dst)@ == old(dst)@ + seq![header] + enc_varint(2)
                    + enc_u16(packet_id),
                Result::Err(e) => packet_id == 0 && e == EncodeError::PacketIdRequired && final(dst)@
                    == old(dst)@,
            },
    {
        if packet_id == 0 {
            return Result::Err(EncodeError::PacketIdRequired);
        }
        dst.push(header);
        push_varint(dst, 2u32);
        push_u16(dst, packet_id);
        proof {
            assert(dst@ =~= old(dst)@ + seq![header] + enc_varint(2) + enc_u16(packet_id));
        }
        Result::Ok(())
    }
}

/// The decode error kinds, payload-free: what `spec_decode` reports,
/// since the detail carried by a UTF-8 error is opaque.
pub enum DecodeErrorKind {
    InvalidProtocol,
    InvalidLength,
    MalformedPacket,
    UnsupportedProtocolLevel,
    ConnectReservedFlagSet,
    ConnAckReservedFlagSet,
    InvalidClientId,
    UnsupportedPacketType,
    PacketIdRequired,
    MaxSizeExceeded,
    Utf8,
}

/// Kind of a decode error.
pub open spec fn kind_of(e: DecodeError) -> DecodeErrorKind {
    match e {
        DecodeError::InvalidProtocol => DecodeErrorKind::InvalidProtocol,
        DecodeError::InvalidLength => DecodeErrorKind::InvalidLength,
        DecodeError::MalformedPacket => DecodeErrorKind::MalformedPacket,
        DecodeError::UnsupportedProtocolLevel => DecodeErrorKind::UnsupportedProtocolLevel,
        DecodeError::ConnectReservedFlagSet => DecodeErrorKind::ConnectReservedFlagSet,
        DecodeError::ConnAckReservedFlagSet => DecodeErrorKind::ConnAckReservedFlagSet,
        DecodeError::InvalidClientId => DecodeErrorKind::InvalidClientId,
        DecodeError::UnsupportedPacketType => DecodeErrorKind::UnsupportedPacketType,
        DecodeError::PacketIdRequired => DecodeErrorKind::PacketIdRequired,
        DecodeError::MaxSizeExceeded => DecodeErrorKind::MaxSizeExceeded,
        DecodeError::Utf8Error(_) => DecodeErrorKind::Utf8,
    }
}

/// Spec-level outcome of reading a remaining-length varint.
pub enum VarintS {
    /// More bytes are needed.
    Incomplete,
    /// A fourth continuation bit: no valid encoding continues this.
    Invalid,
    /// The value and how many bytes encode it.
    Value(int, int),
}

/// Reads a remaining-length varint from the front of a byte sequence.
pub open spec fn dec_varint(b: Seq<u8>) -> VarintS {
    if b.len() == 0 {
        VarintS::Incomplete
    } else if b[0] < 128 {
        VarintS::Value(b[0] as int, 1)
    } else if b.len() == 1 {
        VarintS::Incomplete
    } else if b[1] < 128 {
        VarintS::Value((b[0] - 128) + 128 * b[1], 2)
    } else if b.len() == 2 {
        VarintS::Incomplete
    } else if b[2] < 128 {
        VarintS::Value((b[0] - 128) + 128 * (b[1] - 128) + 16384 * b[2], 3)
    } else if b.len() == 3 {
        VarintS::Incomplete
    } else if b[3] < 128 {
        VarintS::Value((b[0] - 128) + 128 * (b[1] - 128) + 16384 * (b[2] - 128) + 2097152 * b[3], 4)
    } else {
        VarintS::Invalid
    }
}

/// Reads a length-prefixed UTF-8 string field starting at `i`; returns
/// the decoded characters and the position after the field.
pub open spec fn dec_str_at(body: Seq<u8>, i: int) -> Result<(Seq<char>, int), DecodeErrorKind>
    recommends
        0 <= i <= body.len(),
{
    if i + 2 > body.len() {
        Result::Err(DecodeErrorKind::MalformedPacket)
    } else {
        let n = 256 * body[i] + body[i + 1];
        if i + 2 + n > body.len() {
            Result::Err(DecodeErrorKind::MalformedPacket)
        } else {
            let bs = body.subrange(i + 2, i + 2 + n);
            if valid_utf8(bs) {
                Result::Ok((decode_utf8(bs), i + 2 + n))
            } else {
                Result::Err(DecodeErrorKind::Utf8)
            }
        }
    }
}

/// Reason code of a CONNACK wire byte.
pub open spec fn byte_reason(b: u8) -> Option<ConnectAckReason> {
    if b == 0 {
        Option::Some(ConnectAckReason::Success)
    } else if b == 1 {
        Option::Some(ConnectAckReason::UnacceptableProtocolVersion)
    } else if b == 2 {
        Option::Some(ConnectAckReason::IdentifierRejected)
    } else if b == 3 {
        Option::Some(ConnectAckReason::ServerUnavailable)
    } else if b == 4 {
        Option::Some(ConnectAckReason::BadUserNameOrPassword)
    } else if b == 5 {
        Option::Some(ConnectAckReason::NotAuthorized)
    } else {
        Option::None
    }
}

/// Parses a CONNECT body.
pub open spec fn parse_connect(body: Seq<u8>) -> Result<PacketS, DecodeErrorKind> {
    if body.len() < 10 {
        Result::Err(DecodeErrorKind::MalformedPacket)
    } else if body.subrange(0, 6) != protocol_name() {
        Result::Err(DecodeErrorKind::InvalidProtocol)
    } else if body[6] != LEVEL_V3 && body[6] != LEVEL_V5 {
        Result::Err(DecodeErrorKind::UnsupportedProtocolLevel)
    } else if body[7] % 2 == 1 {
        Result::Err(DecodeErrorKind::ConnectReservedFlagSet)
    } else if body[7] != 0 && body[7] != 2 {
        Result::Err(DecodeErrorKind::MalformedPacket)
    } else {
        match dec_str_at(body, 10) {
            Result::Err(k) => Result::Err(k),
            Result::Ok((cid, end)) => if end != body.len() {
                Result::Err(DecodeErrorKind::MalformedPacket)
            } else if cid.len() == 0 && body[7] != 2 {
                Result::Err(DecodeErrorKind::InvalidClientId)
            } else {
                Result::Ok(
                    PacketS::Connect(
                        ConnectS {
                            protocol_level: body[6],
                            clean_session: body[7] == 2,
                            keep_alive: (256 * body[8] + body[9]) as u16,
                            client_id: cid,
                        },
                    ),
                )
            },
        }
    }
}

/// Parses a CONNACK body.
pub open spec fn parse_connack(body: Seq<u8>) -> Result<PacketS, DecodeErrorKind> {
    if body.len() < 5 {
        Result::Err(DecodeErrorKind::MalformedPacket)
    } else if body[0] >= 2 {
        Result::Err(DecodeErrorKind::ConnAckReservedFlagSet)
    } else if byte_reason(body[1]) is None {
        Result::Err(DecodeErrorKind::MalformedPacket)
    } else if body[4] > 1 {
        Result::Err(DecodeErrorKind::MalformedPacket)
    } else if body[4] == 0 {
        if body.len() != 5 {
            Result::Err(DecodeErrorKind::MalformedPacket)
        } else {
            Result::Ok(
                PacketS::ConnectAck(
                    ConnectAckS {
                        session_present: body[0] == 1,
                        reason_code: byte_reason(body[1])->0,
                        topic_alias_max: (256 * body[2] + body[3]) as u16,
                        session_expiry_interval_secs: Option::None,
                    },
                ),
            )
        }
    } else if body.len() != 9 {
        Result::Err(DecodeErrorKind::MalformedPacket)
    } else {
        Result::Ok(
            PacketS::ConnectAck(
                ConnectAckS {
                    session_present: body[0] == 1,
                    reason_code: byte_reason(body[1])->0,
                    topic_alias_max: (256 * body[2] + body[3]) as u16,
                    session_expiry_interval_secs: Option::Some(
                        (16777216 * body[5] + 65536 * body[6] + 256 * body[7] + body[8]) as u32,
                    ),
                },
            ),
        )
    }
}

/// Parses what follows the topic-alias section of a PUBLISH body.
pub open spec fn parse_publish_tail(
    qos: u8,
    topic: Seq<char>,
    alias: Option<u16>,
    body: Seq<u8>,
    j: int,
) -> Result<PacketS, DecodeErrorKind>
    recommends
        0 <= j <= body.len(),
{
    if qos > 0 {
        if j + 2 > body.len() {
            Result::Err(DecodeErrorKind::MalformedPacket)
        } else {
            let pid = 256 * body[j] + body[j + 1];
            if pid == 0 {
                Result::Err(DecodeErrorKind::PacketIdRequired)
            } else {
                Result::Ok(
                    PacketS::Publish(
                        PublishS {
                            qos,
                            topic,
                            topic_alias: alias,
                            packet_id: pid as u16,
                            payload: body.subrange(j + 2, body.len() as int),
                        },
                    ),
                )
            }
        }
    } else {
        Result::Ok(
            PacketS::Publish(
                PublishS {
                    qos,
                    topic,
                    topic_alias: alias,
                    packet_id: 0,
                    payload: body.subrange(j, body.len() as int),
                },
            ),
        )
    }
}

/// Parses a PUBLISH body under the given protocol level and header
/// flags.
pub open spec fn parse_publish(level: u8, flags: u8, body: Seq<u8>) -> Result<
    PacketS,
    DecodeErrorKind,
> {
    if flags % 2 == 1 || flags >= 8 || flags == 6 {
        Result::Err(DecodeErrorKind::MalformedPacket)
    } else {
        let qos = flags / 2;
        match dec_str_at(body, 0) {
            Result::Err(k) => Result::Err(k),
            Result::Ok((topic, i)) => if i + 1 > body.len() {
                Result::Err(DecodeErrorKind::MalformedPacket)
            } else if body[i] > 1 {
                Result::Err(DecodeErrorKind::MalformedPacket)
            } else if body[i] == 1 {
                if level != LEVEL_V5 {
                    Result::Err(DecodeErrorKind::MalformedPacket)
                } else if i + 3 > body.len() {
                    Result::Err(DecodeErrorKind::MalformedPacket)
                } else {
                    let al = 256 * body[i + 1] + body[i + 2];
                    if al == 0 {
                        Result::Err(DecodeErrorKind::MalformedPacket)
                    } else {
                        parse_publish_tail(qos, topic, Option::Some(al as u16), body, i + 3)
                    }
                }
            } else {
                parse_publish_tail(qos, topic, Option::None, body, i + 1)
            },
        }
    }
}

/// Parses a body that is exactly one non-zero packet identifier.
pub open spec fn parse_id_only(body: Seq<u8>) -> Result<u16, DecodeErrorKind> {
    if body.len() != 2 {
        Result::Err(DecodeErrorKind::MalformedPacket)
    } else {
        let pid = 256 * body[0] + body[1];
        if pid == 0 {
            Result::Err(DecodeErrorKind::PacketIdRequired)
        } else {
            Result::Ok(pid as u16)
        }
    }
}

/// Parses a SUBSCRIBE body.
pub open spec fn parse_subscribe(body: Seq<u8>) -> Result<PacketS, DecodeErrorKind> {
    if body.len() < 2 {
        Result::Err(DecodeErrorKind::MalformedPacket)
    } else {
        let pid = 256 * body[0] + body[1];
        if pid == 0 {
            Result::Err(DecodeErrorKind::PacketIdRequired)
        } else {
            match dec_str_at(body, 2) {
                Result::Err(k) => Result::Err(k),
                Result::Ok((tf, j)) => if j + 1 != body.len() {
                    Result::Err(DecodeErrorKind::MalformedPacket)
                } else if body[j] > 2 {
                    Result::Err(DecodeErrorKind::MalformedPacket)
                } else {
                    Result::Ok(
                        PacketS::Subscribe {
                            packet_id: pid as u16,
                            topic_filter: tf,
                            qos: body[j],
                        },
                    )
                },
            }
        }
    }
}

/// Parses a SUBACK body.
pub open spec fn parse_suback(body: Seq<u8>) -> Result<PacketS, DecodeErrorKind> {
    if body.len() != 3 {
        Result::Err(DecodeErrorKind::MalformedPacket)
    } else {
        let pid = 256 * body[0] + body[1];
        if pid == 0 {
            Result::Err(DecodeErrorKind::PacketIdRequired)
        } else if body[2] > 2 && body[2] != 128 {
            Result::Err(DecodeErrorKind::MalformedPacket)
        } else {
            Result::Ok(PacketS::SubscribeAck { packet_id: pid as u16, return_code: body[2] })
        }
    }
}

/// Parses an UNSUBSCRIBE body.
pub open spec fn parse_unsubscribe(body: Seq<u8>) -> Result<PacketS, DecodeErrorKind> {
    if body.len() < 2 {
        Result::Err(DecodeErrorKind::MalformedPacket)
    } else {
        let pid = 256 * body[0] + body[1];
        if pid == 0 {
            Result::Err(DecodeErrorKind::PacketIdRequired)
        } else {
            match dec_str_at(body, 2) {
                Result::Err(k) => Result::Err(k),
                Result::Ok((tf, j)) => if j != body.len() {
                    Result::Err(DecodeErrorKind::MalformedPacket)
                } else {
                    Result::Ok(PacketS::Unsubscribe { packet_id: pid as u16, topic_filter: tf })
                },
            }
        }
    }
}

/// Parses the body of the given packet type under the given protocol
/// level.
pub open spec fn parse_body(level: u8, t: u8, flags: u8, body: Seq<u8>) -> Result<
    PacketS,
    DecodeErrorKind,
> {
    if t == 1 {
        if flags != 0 {
            Result::Err(DecodeErrorKind::MalformedPacket)
        } else {
            parse_connect(body)
        }
    } else if t == 2 {
        if flags != 0 {
            Result::Err(DecodeErrorKind::MalformedPacket)
        } else {
            parse_connack(body)
        }
    } else if t == 3 {
        parse_publish(level, flags, body)
    } else if t == 4 {
        if flags != 0 {
            Result::Err(DecodeErrorKind::MalformedPacket)
        } else {
            match parse_id_only(body) {
                Result::Ok(pid) => Result::Ok(PacketS::PublishAck { packet_id: pid }),
                Result::Err(k) => Result::Err(k),
            }
        }
    } else if t == 5 {
        if flags != 0 {
            Result::Err(DecodeErrorKind::MalformedPacket)
        } else {
            match parse_id_only(body) {
                Result::Ok(pid) => Result::Ok(PacketS::PublishReceived { packet_id: pid }),
                Result::Err(k) => Result::Err(k),
            }
        }
    } else if t == 6 {
        if flags != 2 {
            Result::Err(DecodeErrorKind::MalformedPacket)
        } else {
            match parse_id_only(body) {
                Result::Ok(pid) => Result::Ok(PacketS::PublishRelease { packet_id: pid }),
                Result::Err(k) => Result::Err(k),
            }
        }
    } else if t == 7 {
        if flags != 0 {
            Result::Err(DecodeErrorKind::MalformedPacket)
        } else {
            match parse_id_only(body) {
                Result::Ok(pid) => Result::Ok(PacketS::PublishComplete { packet_id: pid }),
                Result::Err(k) => Result::Err(k),
            }
        }
    } else if t == 8 {
        if flags != 2 {
            Result::Err(DecodeErrorKind::MalformedPacket)
        } else {
            parse_subscribe(body)
        }
    } else if t == 9 {
        if flags != 0 {
            Result::Err(DecodeErrorKind::MalformedPacket)
        } else {
            parse_suback(body)
        }
    } else if t == 10 {
        if flags != 2 {
            Result::Err(DecodeErrorKind::MalformedPacket)
        } else {
            parse_unsubscribe(body)
        }
    } else if t == 11 {
        if flags != 0 {
            Result::Err(DecodeErrorKind::MalformedPacket)
        } else {
            match parse_id_only(body) {
                Result::Ok(pid) => Result::Ok(PacketS::UnsubscribeAck { packet_id: pid }),
                Result::Err(k) => Result::Err(k),
            }
        }
    } else if t == 12 || t == 13 || t == 14 {
        if flags != 0 {
            Result::Err(DecodeErrorKind::MalformedPacket)
        } else if body.len() != 0 {
            Result::Err(DecodeErrorKind::MalformedPacket)
        } else if t == 12 {
            Result::Ok(PacketS::PingRequest)
        } else if t == 13 {
            Result::Ok(PacketS::PingResponse)
        } else {
            Result::Ok(PacketS::Disconnect)
        }
    } else if t == 15 {
        if level != LEVEL_V5 {
            Result::Err(DecodeErrorKind::UnsupportedPacketType)
        } else if flags != 0 {
            Result::Err(DecodeErrorKind::MalformedPacket)
        } else if body.len() != 1 {
            Result::Err(DecodeErrorKind::MalformedPacket)
        } else {
            Result::Ok(PacketS::Auth { reason_code: body[0] })
        }
    } else {
        Result::Err(DecodeErrorKind::UnsupportedPacketType)
    }
}

/// Spec-level outcome of decoding the front of a byte buffer.
pub enum DecodeStatus {
    /// The buffer holds no complete frame yet; the caller must wait for
    /// more bytes.  Never an error.
    Incomplete,
    /// The frame is malformed; the kind says how.
    Failure(DecodeErrorKind),
    /// One whole packet, and how many bytes of the buffer it took.
    Decoded(PacketS, int),
}

/// The decoder: the mathematical definition the executable `decode` is
/// proved to follow.
pub open spec fn spec_decode(level: u8, max_size: u32, b: Seq<u8>) -> DecodeStatus {
    if b.len() < 1 {
        DecodeStatus::Incomplete
    } else {
        let t = b[0] / 16;
        let flags = b[0] % 16;
        match dec_varint(b.skip(1)) {
            VarintS::Incomplete => DecodeStatus::Incomplete,
            VarintS::Invalid => DecodeStatus::Failure(DecodeErrorKind::InvalidLength),
            VarintS::Value(rem, vlen) => if rem > max_size {
                DecodeStatus::Failure(DecodeErrorKind::MaxSizeExceeded)
            } else if b.len() < 1 + vlen + rem {
                DecodeStatus::Incomplete
            } else {
                match parse_body(level, t, flags, b.subrange(1 + vlen, 1 + vlen + rem)) {
                    Result::Ok(ps) => DecodeStatus::Decoded(ps, 1 + vlen + rem),
                    Result::Err(k) => DecodeStatus::Failure(k),
                }
            },
        }
    }
}

/// How an executable parse result corresponds to the spec-level one.
pub open spec fn parse_matches(
    r: Result<Packet, DecodeError>,
    s: Result<PacketS, DecodeErrorKind>,
) -> bool {
    match r {
        Result::Ok(p) => s == Result::Ok::<PacketS, DecodeErrorKind>(p@),
        Result::Err(e) => s == Result::Err::<PacketS, DecodeErrorKind>(kind_of(e)),
    }
}

/// How an executable decode result corresponds to the spec-level one.
pub open spec fn decode_matches(
    r: Result<Option<(Packet, usize)>, DecodeError>,
    s: DecodeStatus,
) -> bool {
    match r {
        Result::Ok(Option::None) => s is Incomplete,
        Result::Ok(Option::Some((p, n))) => s == DecodeStatus::Decoded(p@, n as int),
        Result::Err(e) => s == DecodeStatus::Failure(kind_of(e)),
    }
}

/// Relies on `String::from_utf8`: it succeeds exactly on valid UTF-8 and
/// the resulting string holds exactly the given bytes.
#[verifier::external_body]
fn string_from_utf8(v: Vec<u8>) -> (r: Result<String, std::string::FromUtf8Error>)
    ensures
        r is Ok <==> valid_utf8(v@),
        r matches Ok(s) ==> s@ == decode_utf8(v@) && encode_utf8(s@) == v@,
{
    String::from_utf8(v)
}

/// Relies on `FromUtf8Error::utf8_error`: the underlying UTF-8 error.
#[verifier::external_body]
fn utf8_error_of(e: std::string::FromUtf8Error) -> std::str::Utf8Error {
    e.utf8_error()
}

/// Reads a big-endian 16-bit integer.
fn read_u16(body: &[u8], i: usize) -> (r: u16)
    requires
        i + 2 <= body@.len(),
    ensures
        r as int == 256 * body@[i as int] + body@[i as int + 1],
{
    let n = body.len();
    let hi = *vstd::slice::slice_index_get(body, i);
    let lo = *vstd::slice::slice_index_get(body, i + 1);
    (hi as u16) * 256 + (lo as u16)
}

/// Reads a big-endian 32-bit integer.
fn read_u32(body: &[u8], i: usize) -> (r: u32)
    requires
        i + 4 <= body@.len(),
    ensures
        r as int == 16777216 * body@[i as int] + 65536 * body@[i as int + 1] + 256 * body@[i as int
            + 2] + body@[i as int + 3],
{
    let n = body.len();
    let b0 = *vstd::slice::slice_index_get(body, i);
    let b1 = *vstd::slice::slice_index_get(body, i + 1);
    let b2 = *vstd::slice::slice_index_get(body, i + 2);
    let b3 = *vstd::slice::slice_index_get(body, i + 3);
    (b0 as u32) * 16777216 + (b1 as u32) * 65536 + (b2 as u32) * 256 + (b3 as u32)
}

/// Reads a length-prefixed UTF-8 string field starting at `i`.
fn read_str(body: &[u8], i: usize) -> (r: Result<(String, usize), DecodeError>)
    requires
        i <= body@.len(),
    ensures
        match r {
            Result::Ok((st, j)) => dec_str_at(body@, i as int) == Result::Ok::<
                (Seq<char>, int),
                DecodeErrorKind,
            >((st@, j as int)) && i <= j <= body@.len(),
            Result::Err(e) => dec_str_at(body@, i as int) == Result::Err::<
                (Seq<char>, int),
                DecodeErrorKind,
            >(kind_of(e)),
        },
{
    if body.len() - i < 2 {
        return Result::Err(DecodeError::MalformedPacket);
    }
    let n = read_u16(body, i) as usize;
    if n > body.len() - (i + 2) {
        return Result::Err(DecodeError::MalformedPacket);
    }
    let bytes = vstd::slice::slice_to_vec(vstd::slice::slice_subrange(body, i + 2, i + 2 + n));
    match string_from_utf8(bytes) {
        Result::Ok(s) => Result::Ok((s, i + 2 + n)),
        Result::Err(e) => Result::Err(DecodeError::Utf8Error(utf8_error_of(e))),
    }
}

/// Reason code of a CONNACK wire byte, computed.
pub fn reason_from_byte(b: u8) -> (r: Option<ConnectAckReason>)
    ensures
        r == byte_reason(b),
{
    if b == 0 {
        Option::Some(ConnectAckReason::Success)
    } else if b == 1 {
        Option::Some(ConnectAckReason::UnacceptableProtocolVersion)
    } else if b == 2 {
        Option::Some(ConnectAckReason::IdentifierRejected)
    } else if b == 3 {
        Option::Some(ConnectAckReason::ServerUnavailable)
    } else if b == 4 {
        Option::Some(ConnectAckReason::BadUserNameOrPassword)
    } else if b == 5 {
        Option::Some(ConnectAckReason::NotAuthorized)
    } else {
        Option::None
    }
}

/// Parses a CONNECT body.
fn parse_connect_exec(body: &[u8]) -> (r: Result<Packet, DecodeError>)
    ensures
        parse_matches(r, parse_connect(body@)),
{
    let n = body.len();
    if n < 10 {
        return Result::Err(DecodeError::MalformedPacket);
    }
    let g0 = *vstd::slice::slice_index_get(body, 0);
    let g1 = *vstd::slice::slice_index_get(body, 1);
    let g2 = *vstd::slice::slice_index_get(body, 2);
    let g3 = *vstd::slice::slice_index_get(body, 3);
    let g4 = *vstd::slice::slice_index_get(body, 4);
    let g5 = *vstd::slice::slice_index_get(body, 5);
    let name_ok = g0 == 0 && g1 == 4 && g2 == 77 && g3 == 81 && g4 == 84 && g5 == 84;
    proof {
        assert(body@.subrange(0, 6)[0] == body@[0]);
        assert(body@.subrange(0, 6)[1] == body@[1]);
        assert(body@.subrange(0, 6)[2] == body@[2]);
        assert(body@.subrange(0, 6)[3] == body@[3]);
        assert(body@.subrange(0, 6)[4] == body@[4]);
        assert(body@.subrange(0, 6)[5] == body@[5]);
        if name_ok {
            assert(body@.subrange(0, 6) =~= protocol_name());
        }
    }
    if !name_ok {
        return Result::Err(DecodeError::InvalidProtocol);
    }
    let level = *vstd::slice::slice_index_get(body, 6);
    if level != LEVEL_V3 && level != LEVEL_V5 {
        return Result::Err(DecodeError::UnsupportedProtocolLevel);
    }
    let flags = *vstd::slice::slice_index_get(body, 7);
    if flags % 2 == 1 {
        return Result::Err(DecodeError::ConnectReservedFlagSet);
    }
    if flags != 0 && flags != 2 {
        return Result::Err(DecodeError::MalformedPacket);
    }
    let keep_alive = read_u16(body, 8);
    match read_str(body, 10) {
        Result::Err(e) => Result::Err(e),
        Result::Ok((cid, end)) => {
            if end != n {
                return Result::Err(DecodeError::MalformedPacket);
            }
            if cid.as_str().is_empty() && flags != 2 {
                return Result::Err(DecodeError::InvalidClientId);
            }
            Result::Ok(
                Packet::Connect(
                    Connect {
                        protocol_level: level,
                        clean_session: flags == 2,
                        keep_alive,
                        client_id: cid,
                    },
                ),
            )
        },
    }
}

/// Parses a CONNACK body.
fn parse_connack_exec(body: &[u8]) -> (r: Result<Packet, DecodeError>)
    ensures
        parse_matches(r, parse_connack(body@)),
{
    let n = body.len();
    if n < 5 {
        return Result::Err(DecodeError::MalformedPacket);
    }
    let f = *vstd::slice::slice_index_get(body, 0);
    if f >= 2 {
        return Result::Err(DecodeError::ConnAckReservedFlagSet);
    }
    let reason = match reason_from_byte(*vstd::slice::slice_index_get(body, 1)) {
        Option::None => {
            return Result::Err(DecodeError::MalformedPacket);
        },
        Option::Some(rc) => rc,
    };
    let kf = *vstd::slice::slice_index_get(body, 4);
    if kf > 1 {
        return Result::Err(DecodeError::MalformedPacket);
    }
    let tam = read_u16(body, 2);
    if kf == 0 {
        if n != 5 {
            return Result::Err(DecodeError::MalformedPacket);
        }
        Result::Ok(
            Packet::ConnectAck(
                ConnectAck {
                    session_present: f == 1,
                    reason_code: reason,
                    topic_alias_max: tam,
                    session_expiry_interval_secs: Option::None,
                },
            ),
        )
    } else {
        if n != 9 {
            return Result::Err(DecodeError::MalformedPacket);
        }
        let k = read_u32(body, 5);
        Result::Ok(
            Packet::ConnectAck(
                ConnectAck {
                    session_present: f == 1,
                    reason_code: reason,
                    topic_alias_max: tam,
                    session_expiry_interval_secs: Option::Some(k),
                },
            ),
        )
    }
}

/// Parses a PUBLISH body.
fn parse_publish_exec(level: u8, flags: u8, body: &[u8]) -> (r: Result<Packet, DecodeError>)
    ensures
        parse_matches(r, parse_publish(level, flags, body@)),
{
    let n = body.len();
    if flags % 2 == 1 || flags >= 8 || flags == 6 {
        return Result::Err(DecodeError::MalformedPacket);
    }
    let qos = flags / 2;
    let (topic, i) = match read_str(body, 0) {
        Result::Err(e) => {
            return Result::Err(e);
        },
        Result::Ok(p) => p,
    };
    if i == n {
        return Result::Err(DecodeError::MalformedPacket);
    }
    let af = *vstd::slice::slice_index_get(body, i);
    if af > 1 {
        return Result::Err(DecodeError::MalformedPacket);
    }
    let (alias, j): (Option<u16>, usize) = if af == 1 {
        if level != LEVEL_V5 {
            return Result::Err(DecodeError::MalformedPacket);
        }
        if n - (i + 1) < 2 {
            return Result::Err(DecodeError::MalformedPacket);
        }
        let al = read_u16(body, i + 1);
        if al == 0 {
            return Result::Err(DecodeError::MalformedPacket);
        }
        (Option::Some(al), i + 3)
    } else {
        (Option::None, i + 1)
    };
    if qos > 0 {
        if n - j < 2 {
            return Result::Err(DecodeError::MalformedPacket);
        }
        let pid = read_u16(body, j);
        if pid == 0 {
            return Result::Err(DecodeError::PacketIdRequired);
        }
        let payload = vstd::slice::slice_to_vec(vstd::slice::slice_subrange(body, j + 2, n));
        Result::Ok(
            Packet::Publish(
                Publish { qos, topic, topic_alias: alias, packet_id: pid, payload },
            ),
        )
    } else {
        let payload = vstd::slice::slice_to_vec(vstd::slice::slice_subrange(body, j, n));
        Result::Ok(
            Packet::Publish(Publish { qos, topic, topic_alias: alias, packet_id: 0, payload }),
        )
    }
}

/// Parses a body that is exactly one non-zero packet identifier.
fn parse_id_only_exec(body: &[u8]) -> (r: Result<u16, DecodeError>)
    ensures
        match r {
            Result::Ok(pid) => parse_id_only(body@) == Result::Ok::<u16, DecodeErrorKind>(pid),
            Result::Err(e) => parse_id_only(body@) == Result::Err::<u16, DecodeErrorKind>(
                kind_of(e),
            ),
        },
{
    if body.len() != 2 {
        return Result::Err(DecodeError::MalformedPacket);
    }
    let pid = read_u16(body, 0);
    if pid == 0 {
        return Result::Err(DecodeError::PacketIdRequired);
    }
    Result::Ok(pid)
}

/// Parses a SUBSCRIBE body.
fn parse_subscribe_exec(body: &[u8]) -> (r: Result<Packet, DecodeError>)
    ensures
        parse_matches(r, parse_subscribe(body@)),
{
    let n = body.len();
    if n < 2 {
        return Result::Err(DecodeError::MalformedPacket);
    }
    let pid = read_u16(body, 0);
    if pid == 0 {
        return Result::Err(DecodeError::PacketIdRequired);
    }
    match read_str(body, 2) {
        Result::Err(e) => Result::Err(e),
        Result::Ok((tf, j)) => {
            if j != n - 1 {
                return Result::Err(DecodeError::MalformedPacket);
            }
            let q = *vstd::slice::slice_index_get(body, j);
            if q > 2 {
                return Result::Err(DecodeError::MalformedPacket);
            }
            Result::Ok(Packet::Subscribe { packet_id: pid, topic_filter: tf, qos: q })
        },
    }
}

/// Parses a SUBACK body.
fn parse_suback_exec(body: &[u8]) -> (r: Result<Packet, DecodeError>)
    ensures
        parse_matches(r, parse_suback(body@)),
{
    if body.len() != 3 {
        return Result::Err(DecodeError::MalformedPacket);
    }
    let pid = read_u16(body, 0);
    if pid == 0 {
        return Result::Err(DecodeError::PacketIdRequired);
    }
    let rc = *vstd::slice::slice_index_get(body, 2);
    if rc > 2 && rc != 128 {
        return Result::Err(DecodeError::MalformedPacket);
    }
    Result::Ok(Packet::SubscribeAck { packet_id: pid, return_code: rc })
}

/// Parses an UNSUBSCRIBE body.
fn parse_unsubscribe_exec(body: &[u8]) -> (r: Result<Packet, DecodeError>)
    ensures
        parse_matches(r, parse_unsubscribe(body@)),
{
    let n = body.len();
    if n < 2 {
        return Result::Err(DecodeError::MalformedPacket);
    }
    let pid = read_u16(body, 0);
    if pid == 0 {
        return Result::Err(DecodeError::PacketIdRequired);
    }
    match read_str(body, 2) {
        Result::Err(e) => Result::Err(e),
        Result::Ok((tf, j)) => {
            if j != n {
                return Result::Err(DecodeError::MalformedPacket);
            }
            Result::Ok(Packet::Unsubscribe { packet_id: pid, topic_filter: tf })
        },
    }
}

impl Codec {
    /// Decodes the first complete frame held in the buffer, returning
    /// the packet and how many bytes it took; `Ok(None)` means the
    /// buffer holds an incomplete frame and the caller must wait for
    /// more bytes — never an error.
    #[verifier::rlimit(100)]
    pub fn decode(&self, buf: &[u8]) -> (r: Result<Option<(Packet, usize)>, DecodeError>)
        ensures
            decode_matches(r, spec_decode(self.protocol_level, self.max_size, buf@)),
    {
        let blen = buf.len();
        if blen < 1 {
            return Result::Ok(Option::None);
        }
        let first = *vstd::slice::slice_index_get(buf, 0);
        let t = first / 16;
        let flags = first % 16;
        let ghost tail = buf@.skip(1);
        proof {
            assert(tail.len() == blen - 1);
        }
        if blen < 2 {
            return Result::Ok(Option::None);
        }
        let b1 = *vstd::slice::slice_index_get(buf, 1);
        proof {
            assert(tail[0] == buf@[1]);
        }
        let (rem, vlen): (u32, usize) = if b1 < 128 {
            (b1 as u32, 1)
        } else {
            if blen < 3 {
                return Result::Ok(Option::None);
            }
            let b2 = *vstd::slice::slice_index_get(buf, 2);
            proof {
                assert(tail[1] == buf@[2]);
            }
            if b2 < 128 {
                ((b1 - 128) as u32 + 128 * (b2 as u32), 2)
            } else {
                if blen < 4 {
                    return Result::Ok(Option::None);
                }
                let b3 = *vstd::slice::slice_index_get(buf, 3);
                proof {
                    assert(tail[2] == buf@[3]);
                }
                if b3 < 128 {
                    ((b1 - 128) as u32 + 128 * ((b2 - 128) as u32) + 16384 * (b3 as u32), 3)
                } else {
                    if blen < 5 {
                        return Result::Ok(Option::None);
                    }
                    let b4 = *vstd::slice::slice_index_get(buf, 4);
                    proof {
                        assert(tail[3] == buf@[4]);
                    }
                    if b4 < 128 {
                        ((b1 - 128) as u32 + 128 * ((b2 - 128) as u32) + 16384 * ((b3
                            - 128) as u32) + 2097152 * (b4 as u32), 4)
                    } else {
                        return Result::Err(DecodeError::InvalidLength);
                    }
                }
            }
        };
        proof {
            assert(dec_varint(tail) == VarintS::Value(rem as int, vlen as int));
        }
        if rem > self.max_size {
            return Result::Err(DecodeError::MaxSizeExceeded);
        }
        let total: usize = 1 + vlen + rem as usize;
        if blen < total {
            return Result::Ok(Option::None);
        }
        let body = vstd::slice::slice_subrange(buf, 1 + vlen, total);
        let parsed: Result<Packet, DecodeError> = if t == 1 {
            if flags != 0 {
                Result::Err(DecodeError::MalformedPacket)
            } else {
                parse_connect_exec(body)
            }
        } else if t == 2 {
            if flags != 0 {
                Result::Err(DecodeError::MalformedPacket)
            } else {
                parse_connack_exec(body)
            }
        } else if t == 3 {
            parse_publish_exec(self.protocol_level, flags, body)
        } else if t == 4 {
            if flags != 0 {
                Result::Err(DecodeError::MalformedPacket)
            } else {
                match parse_id_only_exec(body) {
                    Result::Ok(pid) => Result::Ok(Packet::PublishAck { packet_id: pid }),
                    Result::Err(e) => Result::Err(e),
                }
            }
        } else if t == 5 {
            if flags != 0 {
                Result::Err(DecodeError::MalformedPacket)
            } else {
                match parse_id_only_exec(body) {
                    Result::Ok(pid) => Result::Ok(Packet::PublishReceived { packet_id: pid }),
                    Result::Err(e) => Result::Err(e),
                }
            }
        } else if t == 6 {
            if flags != 2 {
                Result::Err(DecodeError::MalformedPacket)
            } else {
                match parse_id_only_exec(body) {
                    Result::Ok(pid) => Result::Ok(Packet::PublishRelease { packet_id: pid }),
                    Result::Err(e) => Result::Err(e),
                }
            }
        } else if t == 7 {
            if flags != 0 {
                Result::Err(DecodeError::MalformedPacket)
            } else {
                match parse_id_only_exec(body) {
                    Result::Ok(pid) => Result::Ok(Packet::PublishComplete { packet_id: pid }),
                    Result::Err(e) => Result::Err(e),
                }
            }
        } else if t == 8 {
            if flags != 2 {
                Result::Err(DecodeError::MalformedPacket)
            } else {
                parse_subscribe_exec(body)
            }
        } else if t == 9 {
            if flags != 0 {
                Result::Err(DecodeError::MalformedPacket)
            } else {
                parse_suback_exec(body)
            }
        } else if t == 10 {
            if flags != 2 {
                Result::Err(DecodeError::MalformedPacket)
            } else {
                parse_unsubscribe_exec(body)
            }
        } else if t == 11 {
            if flags != 0 {
                Result::Err(DecodeError::MalformedPacket)
            } else {
                match parse_id_only_exec(body) {
                    Result::Ok(pid) => Result::Ok(Packet::UnsubscribeAck { packet_id: pid }),
                    Result::Err(e) => Result::Err(e),
                }
            }
        } else if t == 12 {
            if flags != 0 || body.len() != 0 {
                Result::Err(DecodeError::MalformedPacket)
            } else {
                Result::Ok(Packet::PingRequest)
            }
        } else if t == 13 {
            if flags != 0 || body.len() != 0 {
                Result::Err(DecodeError::MalformedPacket)
            } else {
                Result::Ok(Packet::PingResponse)
            }
        } else if t == 14 {
            if flags != 0 || body.len() != 0 {
                Result::Err(DecodeError::MalformedPacket)
            } else {
                Result::Ok(Packet::Disconnect)
            }
        } else if t == 15 {
            if self.protocol_level != LEVEL_V5 {
                Result::Err(DecodeError::UnsupportedPacketType)
            } else if flags != 0 {
                Result::Err(DecodeError::MalformedPacket)
            } else if body.len() != 1 {
                Result::Err(DecodeError::MalformedPacket)
            } else {
                Result::Ok(Packet::Auth { reason_code: *vstd::slice::slice_index_get(body, 0) })
            }
        } else {
            Result::Err(DecodeError::UnsupportedPacketType)
        };
        match parsed {
            Result::Ok(p) => Result::Ok(Option::Some((p, total))),
            Result::Err(e) => Result::Err(e),
        }
    }
}

/// Varint round trip: a buffer that starts with the encoding of `n`
/// decodes to `n`.
proof fn lemma_varint_round_trip(n: int, b: Seq<u8>)
    requires
        0 <= n <= MAX_REMAINING_LENGTH,
        enc_varint(n).len() <= b.len(),
        b.subrange(0, enc_varint(n).len() as int) == enc_varint(n),
    ensures
        dec_varint(b) == VarintS::Value(n, enc_varint(n).len() as int),
{
    let e = enc_varint(n);
    let l = e.len() as int;
    assert forall|m: int| 0 <= m < l implies b[m] == e[m] by {
        assert(b.subrange(0, l)[m] == b[m]);
    }
    vstd::arithmetic::div_mod::lemma_div_denominator(n, 128, 128);
    vstd::arithmetic::div_mod::lemma_div_denominator(n, 16384, 128);
    if n < 128 {
    } else if n < 16384 {
        assert(b[0] == (n % 128 + 128) as u8);
        assert(b[1] == (n / 128) as u8);
        assert(n / 128 < 128) by (nonlinear_arith)
            requires
                0 <= n < 16384,
        ;
    } else if n < 2097152 {
        assert(n / 16384 < 128) by (nonlinear_arith)
            requires
                0 <= n < 2097152,
        ;
        assert((n / 128) / 128 == n / 16384);
        assert((b[0] - 128) + 128 * (b[1] - 128) + 16384 * b[2] == n % 128 + 128 * ((n / 128) % 128)
            + 16384 * (n / 16384));
        assert(n % 128 + 128 * ((n / 128) % 128) + 16384 * (n / 16384) == n);
    } else {
        assert(n / 2097152 < 128) by (nonlinear_arith)
            requires
                0 <= n < 268435456,
        ;
        assert((n / 128) / 128 == n / 16384);
        assert((n / 16384) / 128 == n / 2097152);
        assert(n % 128 + 128 * ((n / 128) % 128) + 16384 * ((n / 16384) % 128) + 2097152 * (n
            / 2097152) == n);
    }
}

/// A strict prefix of a varint encoding is incomplete: every byte so
/// far carries the continuation bit.
proof fn lemma_varint_prefix(n: int, m: int)
    requires
        0 <= n <= MAX_REMAINING_LENGTH,
        0 <= m < enc_varint(n).len(),
    ensures
        dec_varint(enc_varint(n).take(m)) is Incomplete,
{
    let e = enc_varint(n);
    let p = e.take(m);
    assert forall|j: int| 0 <= j < m implies p[j] == e[j] by {}
    if m == 0 {
    } else {
        assert(e[0] >= 128);
        if m >= 2 {
            assert(e[1] >= 128);
        }
        if m >= 3 {
            assert(e[2] >= 128);
        }
    }
}

/// String-field round trip: a body that carries the length-prefixed
/// UTF-8 encoding of `s` at position `i` decodes back to `s`.
proof fn lemma_str_round_trip(s: Seq<char>, body: Seq<u8>, i: int)
    requires
        0 <= i,
        encode_utf8(s).len() <= 65535,
        i + 2 + encode_utf8(s).len() <= body.len(),
        body.subrange(i, i + 2 + encode_utf8(s).len()) == enc_str(s),
    ensures
        dec_str_at(body, i) == Result::Ok::<(Seq<char>, int), DecodeErrorKind>(
            (s, i + 2 + encode_utf8(s).len()),
        ),
{
    broadcast use vstd::utf8::encode_utf8_valid_utf8;
    broadcast use vstd::utf8::encode_utf8_decode_utf8;

    let eb = encode_utf8(s);
    let l = eb.len() as int;
    let sub = body.subrange(i, i + 2 + l);
    assert(sub[0] == body[i]);
    assert(sub[1] == body[i + 1]);
    assert(enc_str(s)[0] == ((l as u16) / 256) as u8);
    assert(enc_str(s)[1] == ((l as u16) % 256) as u8);
    let n = 256 * body[i] + body[i + 1];
    assert(n == l);
    let bs = body.subrange(i + 2, i + 2 + n);
    assert(bs =~= eb) by {
        assert forall|m: int| 0 <= m < l implies bs[m] == eb[m] by {
            assert(bs[m] == body[i + 2 + m]);
            assert(sub[2 + m] == body[i + 2 + m]);
            assert(enc_str(s)[2 + m] == eb[m]);
        }
    }
    assert(valid_utf8(eb));
    assert(decode_utf8(eb) == s);
}

/// Parsing the body that `body_of` lays down gives back the packet.
#[verifier::rlimit(100)]
proof fn lemma_parse_body_round_trip(level: u8, ps: PacketS)
    requires
        valid_packet(level, ps),
    ensures
        parse_body(level, type_nibble(ps), header_flags(ps), body_of(ps)) == Result::Ok::<
            PacketS,
            DecodeErrorKind,
        >(ps),
{
    let body = body_of(ps);
    match ps {
        PacketS::Connect(c) => {
            let es = enc_str(c.client_id);
            let l = encode_utf8(c.client_id).len() as int;
            assert(body.len() == 12 + l);
            assert(body.subrange(0, 6) =~= protocol_name());
            assert(body[6] == c.protocol_level);
            assert(body[7] == if c.clean_session {
                2u8
            } else {
                0u8
            });
            assert(body[8] == (c.keep_alive / 256) as u8);
            assert(body[9] == (c.keep_alive % 256) as u8);
            assert(256 * body[8] + body[9] == c.keep_alive);
            assert(body.subrange(10, 12 + l) =~= es);
            lemma_str_round_trip(c.client_id, body, 10);
            assert(parse_connect(body) == Result::Ok::<PacketS, DecodeErrorKind>(ps));
        },
        PacketS::ConnectAck(a) => {
            assert(body[0] == if a.session_present {
                1u8
            } else {
                0u8
            });
            assert(body[1] == reason_byte(a.reason_code));
            assert(byte_reason(reason_byte(a.reason_code)) == Option::Some(a.reason_code));
            assert(body[2] == (a.topic_alias_max / 256) as u8);
            assert(body[3] == (a.topic_alias_max % 256) as u8);
            assert(256 * body[2] + body[3] == a.topic_alias_max);
            match a.session_expiry_interval_secs {
                Option::None => {
                    assert(body[4] == 0u8);
                    assert(body.len() == 5);
                },
                Option::Some(k) => {
                    assert(body[4] == 1u8);
                    assert(body.len() == 9);
                    assert(body[5] == (k / 16777216) as u8);
                    assert(body[6] == ((k / 65536) % 256) as u8);
                    assert(body[7] == ((k / 256) % 256) as u8);
                    assert(body[8] == (k % 256) as u8);
                    vstd::arithmetic::div_mod::lemma_div_denominator(k as int, 256, 256);
                    vstd::arithmetic::div_mod::lemma_div_denominator(k as int, 65536, 256);
                    assert((k as int / 256) / 256 == k as int / 65536);
                    assert((k as int / 65536) / 256 == k as int / 16777216);
                    assert(k as int / 16777216 < 256) by (nonlinear_arith)
                        requires
                            0 <= k as int,
                            (k as int) < 4294967296,
                    ;
                    assert(16777216 * body[5] + 65536 * body[6] + 256 * body[7] + body[8] == 16777216
                        * (k as int / 16777216) + 65536 * ((k as int / 65536) % 256) + 256 * ((
                    k as int / 256) % 256) + k as int % 256);
                    assert(16777216 * (k as int / 16777216) + 65536 * ((k as int / 65536) % 256)
                        + 256 * ((k as int / 256) % 256) + k as int % 256 == k as int);
                },
            }
            assert(parse_connack(body) == Result::Ok::<PacketS, DecodeErrorKind>(ps));
        },
        PacketS::Publish(p) => {
            let flags = header_flags(ps);
            assert(flags == 2 * p.qos);
            assert(p.qos <= 2);
            assert(flags % 2 == 0 && flags < 8 && flags != 6);
            assert(flags / 2 == p.qos);
            let ts = enc_str(p.topic);
            let lt = encode_utf8(p.topic).len() as int;
            let alias_seq = match p.topic_alias {
                Option::None => seq![0u8],
                Option::Some(al) => seq![1u8] + enc_u16(al),
            };
            let id_seq = if p.qos > 0 {
                enc_u16(p.packet_id)
            } else {
                Seq::<u8>::empty()
            };
            assert(body =~= ts + alias_seq + id_seq + p.payload);
            assert(body.subrange(0, 2 + lt) =~= ts);
            lemma_str_round_trip(p.topic, body, 0);
            let i = 2 + lt;
            match p.topic_alias {
                Option::None => {
                    assert(body[i] == 0u8);
                    let j = i + 1;
                    if p.qos > 0 {
                        assert(body[j] == (p.packet_id / 256) as u8);
                        assert(body[j + 1] == (p.packet_id % 256) as u8);
                        assert(256 * body[j] + body[j + 1] == p.packet_id);
                        assert(p.packet_id != 0);
                        assert(body.subrange(j + 2, body.len() as int) =~= p.payload);
                    } else {
                        assert(p.packet_id == 0);
                        assert(body.subrange(j, body.len() as int) =~= p.payload);
                    }
                },
                Option::Some(al) => {
                    assert(level == LEVEL_V5);
                    assert(al != 0);
                    assert(body[i] == 1u8);
                    assert(body[i + 1] == (al / 256) as u8);
                    assert(body[i + 2] == (al % 256) as u8);
                    assert(256 * body[i + 1] + body[i + 2] == al);
                    let j = i + 3;
                    if p.qos > 0 {
                        assert(body[j] == (p.packet_id / 256) as u8);
                        assert(body[j + 1] == (p.packet_id % 256) as u8);
                        assert(256 * body[j] + body[j + 1] == p.packet_id);
                        assert(p.packet_id != 0);
                        assert(body.subrange(j + 2, body.len() as int) =~= p.payload);
                    } else {
                        assert(p.packet_id == 0);
                        assert(body.subrange(j, body.len() as int) =~= p.payload);
                    }
                },
            }
            assert(parse_publish(level, flags, body) == Result::Ok::<PacketS, DecodeErrorKind>(ps));
        },
        PacketS::PublishAck { packet_id } | PacketS::PublishReceived { packet_id }
        | PacketS::PublishRelease { packet_id } | PacketS::PublishComplete { packet_id }
        | PacketS::UnsubscribeAck { packet_id } => {
            assert(body.len() == 2);
            assert(body[0] == (packet_id / 256) as u8);
            assert(body[1] == (packet_id % 256) as u8);
            assert(256 * body[0] + body[1] == packet_id);
            assert(packet_id != 0);
        },
        PacketS::Subscribe { packet_id, topic_filter, qos } => {
            let lt = encode_utf8(topic_filter).len() as int;
            assert(body.len() == 5 + lt);
            assert(body[0] == (packet_id / 256) as u8);
            assert(body[1] == (packet_id % 256) as u8);
            assert(256 * body[0] + body[1] == packet_id);
            assert(packet_id != 0);
            assert(body.subrange(2, 4 + lt) =~= enc_str(topic_filter));
            lemma_str_round_trip(topic_filter, body, 2);
            assert(body[4 + lt] == qos);
            assert(qos <= 2);
            assert(parse_subscribe(body) == Result::Ok::<PacketS, DecodeErrorKind>(ps));
        },
        PacketS::SubscribeAck { packet_id, return_code } => {
            assert(body.len() == 3);
            assert(body[0] == (packet_id / 256) as u8);
            assert(body[1] == (packet_id % 256) as u8);
            assert(256 * body[0] + body[1] == packet_id);
            assert(packet_id != 0);
            assert(body[2] == return_code);
        },
        PacketS::Unsubscribe { packet_id, topic_filter } => {
            let lt = encode_utf8(topic_filter).len() as int;
            assert(body.len() == 4 + lt);
            assert(body[0] == (packet_id / 256) as u8);
            assert(body[1] == (packet_id % 256) as u8);
            assert(256 * body[0] + body[1] == packet_id);
            assert(packet_id != 0);
            assert(body.subrange(2, 4 + lt) =~= enc_str(topic_filter));
            lemma_str_round_trip(topic_filter, body, 2);
            assert(parse_unsubscribe(body) == Result::Ok::<PacketS, DecodeErrorKind>(ps));
        },
        PacketS::PingRequest => {},
        PacketS::PingResponse => {},
        PacketS::Disconnect => {},
        PacketS::Auth { reason_code } => {
            assert(level == LEVEL_V5);
            assert(body.len() == 1);
            assert(body[0] == reason_code);
        },
    }
}

/// Round trip: every packet a protocol level can put on the wire
/// decodes, under that level, back to itself, consuming exactly its
/// encoding.
pub proof fn lemma_round_trip(level: u8, max_size: u32, ps: PacketS)
    requires
        valid_packet(level, ps),
        body_of(ps).len() <= max_size,
    ensures
        spec_decode(level, max_size, spec_encode(ps)) == DecodeStatus::Decoded(
            ps,
            spec_encode(ps).len() as int,
        ),
{
    let b = spec_encode(ps);
    let hb = (16 * type_nibble(ps) + header_flags(ps)) as u8;
    let body = body_of(ps);
    let l = body.len() as int;
    let v = enc_varint(l);
    let vlen = v.len() as int;
    assert(b[0] == hb);
    assert(type_nibble(ps) <= 15 && header_flags(ps) <= 4);
    assert(hb / 16 == type_nibble(ps));
    assert(hb % 16 == header_flags(ps));
    assert(b.skip(1) =~= v + body);
    assert((v + body).subrange(0, vlen) =~= v);
    lemma_varint_round_trip(l, v + body);
    assert(dec_varint(b.skip(1)) == VarintS::Value(l, vlen));
    assert(b.len() == 1 + vlen + l);
    assert(b.subrange(1 + vlen, 1 + vlen + l) =~= body);
    lemma_parse_body_round_trip(level, ps);
}

/// Partial-frame property: feeding any strict prefix of a valid
/// encoded packet to the decoder yields "incomplete" — never an error,
/// never a packet — until the full frame is available.
pub proof fn lemma_partial_frame(level: u8, max_size: u32, ps: PacketS, n: int)
    requires
        valid_packet(level, ps),
        body_of(ps).len() <= max_size,
        0 <= n < spec_encode(ps).len(),
    ensures
        spec_decode(level, max_size, spec_encode(ps).take(n)) is Incomplete,
{
    let b = spec_encode(ps);
    let pre = b.take(n);
    let body = body_of(ps);
    let l = body.len() as int;
    let v = enc_varint(l);
    let vlen = v.len() as int;
    if n == 0 {
    } else {
        assert(pre[0] == b[0]);
        assert(pre.skip(1) =~= (v + body).take(n - 1));
        if n - 1 < vlen {
            assert((v + body).take(n - 1) =~= v.take(n - 1));
            lemma_varint_prefix(l, n - 1);
        } else {
            assert(pre.skip(1).subrange(0, vlen) =~= v);
            lemma_varint_round_trip(l, pre.skip(1));
            assert(dec_varint(pre.skip(1)) == VarintS::Value(l, vlen));
            assert(pre.len() < 1 + vlen + l);
        }
    }
}

/// Wire byte of a CONNACK reason code, computed.
pub fn reason_code_byte(r: ConnectAckReason) -> (b: u8)
    ensures
        b == reason_byte(r),
{
    match r {
        ConnectAckReason::Success => 0,
        ConnectAckReason::UnacceptableProtocolVersion => 1,
        ConnectAckReason::IdentifierRejected => 2,
        ConnectAckReason::ServerUnavailable => 3,
        ConnectAckReason::BadUserNameOrPassword => 4,
        ConnectAckReason::NotAuthorized => 5,
    }
}

} // verus!
