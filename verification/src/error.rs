//! The error taxonomy of the engine: decode, encode, protocol and
//! transport errors, and the conversions that re-classify a lower-level
//! failure into the unified error type.

use vstd::prelude::*;

verus! {

#[verifier::external_type_specification]
#[verifier::external_body]
pub struct ExIoError(std::io::Error);

#[verifier::external_type_specification]
#[verifier::external_body]
pub struct ExUtf8Error(std::str::Utf8Error);

#[verifier::external_type_specification]
#[verifier::external_body]
pub struct ExFromUtf8Error(std::string::FromUtf8Error);

#[verifier::external_type_specification]
#[verifier::reject_recursive_types(L)]
#[verifier::reject_recursive_types(R)]
pub struct ExEither<L, R>(either::Either<L, R>);

/// Errors that can occur while decoding a control packet from bytes.
#[derive(Debug)]
pub enum DecodeError {
    /// The protocol name in a CONNECT frame is not the expected one.
    InvalidProtocol,
    /// The remaining-length varint encoding is invalid.
    InvalidLength,
    /// A fixed or variable header field is malformed.
    MalformedPacket,
    /// The protocol level in a CONNECT frame is not supported.
    UnsupportedProtocolLevel,
    /// The reserved bit of the CONNECT flags byte is set.
    ConnectReservedFlagSet,
    /// A reserved bit of the CONNACK flags byte is set.
    ConnAckReservedFlagSet,
    /// The client identifier is not acceptable.
    InvalidClientId,
    /// The packet type nibble names no packet of this protocol level.
    UnsupportedPacketType,
    /// A packet that must carry a non-zero packet identifier carries zero.
    PacketIdRequired,
    /// The frame exceeds the configured maximum size.
    MaxSizeExceeded,
    /// A string field holds bytes that are not valid UTF-8.
    Utf8Error(std::str::Utf8Error),
}

/// Errors that can occur while encoding a control packet to bytes.
#[derive(Copy, Clone, Debug, PartialEq, Eq, Hash, Structural)]
pub enum EncodeError {
    /// A field exceeds its protocol-defined maximum length.
    InvalidLength,
    /// The packet's fields cannot be represented on the wire.
    MalformedPacket,
    /// The packet requires a non-zero packet identifier but carries zero.
    PacketIdRequired,
    /// The packet kind is not supported by the negotiated protocol level.
    UnsupportedVersion,
}

/// Failure of the framed dispatcher loop: the keep-alive timer fired, the
/// codec failed in either direction, or the transport itself failed.
#[derive(Debug)]
pub enum DispatcherError {
    /// No traffic occurred within the keep-alive interval.
    KeepAlive,
    /// Encoding an outbound packet failed.
    Encoder(EncodeError),
    /// Decoding an inbound frame failed.
    Decoder(DecodeError),
    /// The transport reported an I/O failure.
    Io(std::io::Error),
}

/// Protocol level errors.
#[derive(Debug)]
pub enum ProtocolError {
    /// Publish service readiness error.
    PublishReadyError,
    /// Parse error.
    Decode(DecodeError),
    /// Encode error.
    Encode(EncodeError),
    /// Unexpected packet: the type nibble, and what was expected instead.
    Unexpected(u8, &'static str),
    /// A packet that must carry a non-zero packet identifier carries zero.
    PacketIdRequired,
    /// Multiple in-flight packets with the same packet identifier.
    DuplicatedPacketId,
    /// The identifier of an acknowledgement matches no pending send.
    PacketIdMismatch,
    /// A topic alias is zero or greater than the negotiated maximum.
    MaxTopicAlias,
    /// A topic alias was referenced but never registered.
    UnknownTopicAlias,
    /// Keep alive timeout.
    KeepAliveTimeout,
    /// Handshake timeout.
    HandshakeTimeout,
    /// Peer disconnect.
    Disconnected,
    /// Unexpected io error.
    Io(std::io::Error),
}

/// Errors which can occur when attempting to handle an mqtt connection.
#[derive(Debug)]
pub enum MqttError<E> {
    /// Publish handler service error.
    Service(E),
    /// Protocol error.
    Protocol(ProtocolError),
    /// Publish service readiness error.
    PublishReadyError,
    /// Parse error.
    Decode(DecodeError),
    /// Encode error.
    Encode(EncodeError),
    /// Unexpected packet: the type nibble, and what was expected instead.
    Unexpected(u8, &'static str),
    /// A packet that must carry a non-zero packet identifier carries zero.
    PacketIdRequired,
    /// Multiple in-flight packets with the same packet identifier.
    DuplicatedPacketId,
    /// The identifier of an acknowledgement matches no pending send.
    PacketIdMismatch,
    /// A topic alias is zero or greater than the negotiated maximum.
    MaxTopicAlias,
    /// A topic alias was referenced but never registered.
    UnknownTopicAlias,
    /// Keep alive timeout.
    KeepAliveTimeout,
    /// Handshake timeout.
    HandshakeTimeout,
    /// Peer disconnect.
    Disconnected,
    /// Unexpected io error.
    Io(std::io::Error),
}

impl<E> core::convert::From<either::Either<E, ProtocolError>> for MqttError<E> {
    fn from(err: either::Either<E, ProtocolError>) -> (r: Self) {
        match err {
            either::Either::Left(e) => MqttError::Service(e),
            either::Either::Right(e) => MqttError::Protocol(e),
        }
    }
}

impl<E> vstd::std_specs::convert::FromSpecImpl<either::Either<E, ProtocolError>> for MqttError<E> {
    open spec fn obeys_from_spec() -> bool {
        true
    }

    open spec fn from_spec(err: either::Either<E, ProtocolError>) -> Self {
        match err {
            either::Either::Left(e) => MqttError::Service(e),
            either::Either::Right(e) => MqttError::Protocol(e),
        }
    }
}

impl<E> core::convert::From<DecodeError> for MqttError<E> {
    fn from(err: DecodeError) -> (r: Self) {
        MqttError::Decode(err)
    }
}

impl<E> vstd::std_specs::convert::FromSpecImpl<DecodeError> for MqttError<E> {
    open spec fn obeys_from_spec() -> bool {
        true
    }

    open spec fn from_spec(err: DecodeError) -> Self {
        MqttError::Decode(err)
    }
}

impl<E> core::convert::From<either::Either<DecodeError, std::io::Error>> for MqttError<E> {
    fn from(err: either::Either<DecodeError, std::io::Error>) -> (r: Self) {
        match err {
            either::Either::Left(e) => MqttError::Decode(e),
            either::Either::Right(e) => MqttError::Io(e),
        }
    }
}

impl<E> vstd::std_specs::convert::FromSpecImpl<either::Either<DecodeError, std::io::Error>> for MqttError<E> {
    open spec fn obeys_from_spec() -> bool {
        true
    }

    open spec fn from_spec(err: either::Either<DecodeError, std::io::Error>) -> Self {
        match err {
            either::Either::Left(e) => MqttError::Decode(e),
            either::Either::Right(e) => MqttError::Io(e),
        }
    }
}

impl<E> core::convert::From<either::Either<EncodeError, std::io::Error>> for MqttError<E> {
    fn from(err: either::Either<EncodeError, std::io::Error>) -> (r: Self) {
        match err {
            either::Either::Left(e) => MqttError::Encode(e),
            either::Either::Right(e) => MqttError::Io(e),
        }
    }
}

impl<E> vstd::std_specs::convert::FromSpecImpl<either::Either<EncodeError, std::io::Error>> for MqttError<E> {
    open spec fn obeys_from_spec() -> bool {
        true
    }

    open spec fn from_spec(err: either::Either<EncodeError, std::io::Error>) -> Self {
        match err {
            either::Either::Left(e) => MqttError::Encode(e),
            either::Either::Right(e) => MqttError::Io(e),
        }
    }
}

impl<E> core::convert::From<EncodeError> for MqttError<E> {
    fn from(err: EncodeError) -> (r: Self) {
        MqttError::Encode(err)
    }
}

impl<E> vstd::std_specs::convert::FromSpecImpl<EncodeError> for MqttError<E> {
    open spec fn obeys_from_spec() -> bool {
        true
    }

    open spec fn from_spec(err: EncodeError) -> Self {
        MqttError::Encode(err)
    }
}

impl<E> core::convert::From<std::io::Error> for MqttError<E> {
    fn from(err: std::io::Error) -> (r: Self) {
        MqttError::Io(err)
    }
}

impl<E> vstd::std_specs::convert::FromSpecImpl<std::io::Error> for MqttError<E> {
    open spec fn obeys_from_spec() -> bool {
        true
    }

    open spec fn from_spec(err: std::io::Error) -> Self {
        MqttError::Io(err)
    }
}

impl<E> core::convert::From<DispatcherError> for MqttError<E> {
    fn from(err: DispatcherError) -> (r: Self) {
        match err {
            DispatcherError::KeepAlive => MqttError::KeepAliveTimeout,
            DispatcherError::Encoder(e) => MqttError::Encode(e),
            DispatcherError::Decoder(e) => MqttError::Decode(e),
            DispatcherError::Io(e) => MqttError::Io(e),
        }
    }
}

impl<E> vstd::std_specs::convert::FromSpecImpl<DispatcherError> for MqttError<E> {
    open spec fn obeys_from_spec() -> bool {
        true
    }

    open spec fn from_spec(err: DispatcherError) -> Self {
        match err {
            DispatcherError::KeepAlive => MqttError::KeepAliveTimeout,
            DispatcherError::Encoder(e) => MqttError::Encode(e),
            DispatcherError::Decoder(e) => MqttError::Decode(e),
            DispatcherError::Io(e) => MqttError::Io(e),
        }
    }
}

impl core::convert::From<DispatcherError> for ProtocolError {
    fn from(err: DispatcherError) -> (r: Self) {
        match err {
            DispatcherError::KeepAlive => ProtocolError::KeepAliveTimeout,
            DispatcherError::Encoder(e) => ProtocolError::Encode(e),
            DispatcherError::Decoder(e) => ProtocolError::Decode(e),
            DispatcherError::Io(e) => ProtocolError::Io(e),
        }
    }
}

impl vstd::std_specs::convert::FromSpecImpl<DispatcherError> for ProtocolError {
    open spec fn obeys_from_spec() -> bool {
        true
    }

    open spec fn from_spec(err: DispatcherError) -> Self {
        match err {
            DispatcherError::KeepAlive => ProtocolError::KeepAliveTimeout,
            DispatcherError::Encoder(e) => ProtocolError::Encode(e),
            DispatcherError::Decoder(e) => ProtocolError::Decode(e),
            DispatcherError::Io(e) => ProtocolError::Io(e),
        }
    }
}

/// What equality of decode errors means: the same variant on both sides,
/// except that a UTF-8 error compares unequal to everything, itself
/// included, because the underlying text-validation detail is not
/// meaningfully comparable.
pub open spec fn decode_error_eq(a: &DecodeError, b: &DecodeError) -> bool {
    match (a, b) {
        (DecodeError::InvalidProtocol, DecodeError::InvalidProtocol) => true,
        (DecodeError::InvalidLength, DecodeError::InvalidLength) => true,
        (DecodeError::UnsupportedProtocolLevel, DecodeError::UnsupportedProtocolLevel) => true,
        (DecodeError::ConnectReservedFlagSet, DecodeError::ConnectReservedFlagSet) => true,
        (DecodeError::ConnAckReservedFlagSet, DecodeError::ConnAckReservedFlagSet) => true,
        (DecodeError::InvalidClientId, DecodeError::InvalidClientId) => true,
        (DecodeError::UnsupportedPacketType, DecodeError::UnsupportedPacketType) => true,
        (DecodeError::PacketIdRequired, DecodeError::PacketIdRequired) => true,
        (DecodeError::MaxSizeExceeded, DecodeError::MaxSizeExceeded) => true,
        (DecodeError::MalformedPacket, DecodeError::MalformedPacket) => true,
        (DecodeError::Utf8Error(_), _) => false,
        _ => false,
    }
}

impl PartialEq for DecodeError {
    fn eq(&self, other: &Self) -> (r: bool) {
        match (self, other) {
            (DecodeError::InvalidProtocol, DecodeError::InvalidProtocol) => true,
            (DecodeError::InvalidLength, DecodeError::InvalidLength) => true,
            (DecodeError::UnsupportedProtocolLevel, DecodeError::UnsupportedProtocolLevel) => true,
            (DecodeError::ConnectReservedFlagSet, DecodeError::ConnectReservedFlagSet) => true,
            (DecodeError::ConnAckReservedFlagSet, DecodeError::ConnAckReservedFlagSet) => true,
            (DecodeError::InvalidClientId, DecodeError::InvalidClientId) => true,
            (DecodeError::UnsupportedPacketType, DecodeError::UnsupportedPacketType) => true,
            (DecodeError::PacketIdRequired, DecodeError::PacketIdRequired) => true,
            (DecodeError::MaxSizeExceeded, DecodeError::MaxSizeExceeded) => true,
            (DecodeError::MalformedPacket, DecodeError::MalformedPacket) => true,
            (DecodeError::Utf8Error(_), _) => false,
            _ => false,
        }
    }
}

impl vstd::std_specs::cmp::PartialEqSpecImpl for DecodeError {
    open spec fn obeys_eq_spec() -> bool {
        true
    }

    open spec fn eq_spec(&self, other: &Self) -> bool {
        decode_error_eq(self, other)
    }
}

} // verus!
