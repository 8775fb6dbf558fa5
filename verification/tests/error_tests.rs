use either::Either;
use mqtt_engine::error::DecodeError;
use mqtt_engine::error::DispatcherError;
use mqtt_engine::error::EncodeError;
use mqtt_engine::error::MqttError;
use mqtt_engine::error::ProtocolError;

#[test]
fn either_conversion_classifies_service_and_protocol() {
    let service: MqttError<&str> = MqttError::from(Either::Left("boom"));
    assert!(matches!(service, MqttError::Service("boom")));
    let protocol: MqttError<&str> =
        MqttError::from(Either::Right(ProtocolError::KeepAliveTimeout));
    assert!(matches!(protocol, MqttError::Protocol(ProtocolError::KeepAliveTimeout)));
}

#[test]
fn decode_and_io_conversions() {
    let decode: MqttError<()> = MqttError::from(DecodeError::InvalidLength);
    assert!(matches!(decode, MqttError::Decode(DecodeError::InvalidLength)));
    let decode: MqttError<()> =
        MqttError::from(Either::<DecodeError, std::io::Error>::Left(DecodeError::MalformedPacket));
    assert!(matches!(decode, MqttError::Decode(DecodeError::MalformedPacket)));
    let io_err = std::io::Error::new(std::io::ErrorKind::Other, "io");
    let io: MqttError<()> = MqttError::from(Either::<DecodeError, std::io::Error>::Right(io_err));
    assert!(matches!(io, MqttError::Io(_)));
    let io_err = std::io::Error::new(std::io::ErrorKind::Other, "io");
    let io: MqttError<()> = MqttError::from(io_err);
    assert!(matches!(io, MqttError::Io(_)));
}

#[test]
fn encode_conversions() {
    let encode: MqttError<()> = MqttError::from(EncodeError::UnsupportedVersion);
    assert!(matches!(encode, MqttError::Encode(EncodeError::UnsupportedVersion)));
    let encode: MqttError<()> =
        MqttError::from(Either::<EncodeError, std::io::Error>::Left(EncodeError::InvalidLength));
    assert!(matches!(encode, MqttError::Encode(EncodeError::InvalidLength)));
}

#[test]
fn dispatcher_error_reclassifies_into_both_targets() {
    let m: MqttError<()> = MqttError::from(DispatcherError::KeepAlive);
    assert!(matches!(m, MqttError::KeepAliveTimeout));
    let m: MqttError<()> = MqttError::from(DispatcherError::Encoder(EncodeError::InvalidLength));
    assert!(matches!(m, MqttError::Encode(EncodeError::InvalidLength)));
    let m: MqttError<()> = MqttError::from(DispatcherError::Decoder(DecodeError::InvalidProtocol));
    assert!(matches!(m, MqttError::Decode(DecodeError::InvalidProtocol)));
    let p = ProtocolError::from(DispatcherError::KeepAlive);
    assert!(matches!(p, ProtocolError::KeepAliveTimeout));
    let p = ProtocolError::from(DispatcherError::Io(std::io::Error::new(
        std::io::ErrorKind::Other,
        "io",
    )));
    assert!(matches!(p, ProtocolError::Io(_)));
}

#[test]
fn decode_error_equality_is_by_variant() {
    assert_eq!(DecodeError::InvalidProtocol, DecodeError::InvalidProtocol);
    assert_eq!(DecodeError::MaxSizeExceeded, DecodeError::MaxSizeExceeded);
    assert_ne!(DecodeError::InvalidProtocol, DecodeError::InvalidLength);
}

#[test]
fn utf8_decode_errors_never_compare_equal() {
    let a = std::str::from_utf8(&[0xFF]).unwrap_err();
    let b = std::str::from_utf8(&[0xFF]).unwrap_err();
    // The underlying text-validation detail is not meaningfully
    // comparable: a UTF-8 error is unequal to everything, itself
    // included.
    assert_ne!(DecodeError::Utf8Error(a), DecodeError::Utf8Error(b));
    let c = std::str::from_utf8(&[0xFF]).unwrap_err();
    let e = DecodeError::Utf8Error(c);
    assert!(e != e);
    assert_ne!(e, DecodeError::MalformedPacket);
    assert_ne!(DecodeError::MalformedPacket, e);
}

#[test]
fn encode_error_is_structurally_comparable() {
    assert_eq!(EncodeError::InvalidLength, EncodeError::InvalidLength);
    assert_ne!(EncodeError::InvalidLength, EncodeError::MalformedPacket);
}
