use fan_controller::mqtt::connect::{Connect, EncodeError as ConnectEncodeError};
use fan_controller::mqtt::connect_acknowledgement::{
    ConnectAcknowledgement, ConnectErrorReasonCode, ConnectReasonCode,
    DecodeError as ConnectDecodeError, UnknownConnectErrorReasonCode,
};
use fan_controller::mqtt::disconnect::{Disconnect, ReasonCode};
use fan_controller::mqtt::packet::{get_parts, GetPartsError};
use fan_controller::mqtt::ping::{PingRequest, PingResponse};
use fan_controller::mqtt::publish::{encode_checked, is_readable, EncodeError, Publish, ReadError};
use fan_controller::mqtt::session::{
    check_connect_response, classify_incoming, command_subscriptions, is_connect_response_readable,
    is_incoming_readable, Acknowledgements, ConnectResponseError, Incoming, KeepAlive,
    KEEP_ALIVE_MICROSECONDS,
};
use fan_controller::mqtt::subscribe::{
    EncodeError as SubscribeEncodeError, Options, QualityOfService, RetainHandling, Subscribe,
    Subscription,
};
use fan_controller::mqtt::subscribe_acknowledgement::SubscribeAcknowledgement;
use fan_controller::mqtt::variable_byte_integer::{
    decode, encode, encoded_size, DecodeError, VariableByteIntegerEncodeError, MAX,
};

fn encoded(value: usize) -> Result<Vec<u8>, VariableByteIntegerEncodeError> {
    let mut buffer = [0u8; 5];
    let mut offset = 0;
    encode(value, &mut buffer, &mut offset).map(|_| buffer[..offset].to_vec())
}

#[test]
fn variable_byte_integers_take_seven_bits_a_byte() {
    assert_eq!(encoded(0), Ok(vec![0x00]));
    assert_eq!(encoded(127), Ok(vec![0x7F]));
    assert_eq!(encoded(128), Ok(vec![0x80, 0x01]));
    assert_eq!(encoded(16_383), Ok(vec![0xFF, 0x7F]));
    assert_eq!(encoded(16_384), Ok(vec![0x80, 0x80, 0x01]));
    assert_eq!(encoded(MAX), Ok(vec![0xFF, 0xFF, 0xFF, 0x7F]));
    assert_eq!(encoded(MAX + 1), Err(VariableByteIntegerEncodeError::TooLarge));
}

#[test]
fn a_variable_byte_integer_that_does_not_fit_is_refused() {
    let mut buffer = [0u8; 1];
    let mut offset = 0;
    assert_eq!(encode(128, &mut buffer, &mut offset), Err(VariableByteIntegerEncodeError::EndOfBuffer));
    let mut buffer = [0u8; 3];
    let mut offset = 0;
    assert_eq!(encode(MAX, &mut buffer, &mut offset), Err(VariableByteIntegerEncodeError::EndOfBuffer));
    assert_eq!(offset, 0);
    // An integer that fills the buffer exactly fits
    let mut buffer = [0u8; 1];
    let mut offset = 0;
    assert_eq!(encode(127, &mut buffer, &mut offset), Ok(1));
    assert_eq!(buffer, [0x7F]);
    assert_eq!(offset, 1);
    let mut buffer = [0u8; 4];
    let mut offset = 0;
    assert_eq!(encode(MAX, &mut buffer, &mut offset), Ok(4));
    assert_eq!(buffer, [0xFF, 0xFF, 0xFF, 0x7F]);
}

#[test]
fn variable_byte_integers_read_back() {
    for value in [0, 1, 127, 128, 300, 16_383, 16_384, 2_097_151, 2_097_152, MAX] {
        let bytes = encoded(value).unwrap();
        let mut offset = 0;
        assert_eq!(decode(&bytes, &mut offset), Ok(value));
        assert_eq!(offset, bytes.len());
    }
}

#[test]
fn malformed_variable_byte_integers_are_refused() {
    let mut offset = 0;
    assert_eq!(decode(&[], &mut offset), Err(DecodeError::EndOfBuffer));
    let mut offset = 0;
    assert_eq!(decode(&[0x80], &mut offset), Err(DecodeError::UnexpectedEndOfBuffer));
    let mut offset = 0;
    assert_eq!(
        decode(&[0x80, 0x80, 0x80, 0x80, 0x01], &mut offset),
        Err(DecodeError::MalformedVariableByteIntegerError)
    );
}

#[test]
fn a_packet_is_split_into_its_parts() {
    let packet = [0x32, 0x03, 0xAA, 0xBB, 0xCC, 0xDD];
    let parts = get_parts(&packet).unwrap();
    assert_eq!(parts.packet_type, 3);
    assert_eq!(parts.flags, 2);
    assert_eq!(parts.variable_header_and_payload, &[0xAA, 0xBB, 0xCC]);
    assert_eq!(get_parts(&[]).err(), Some(GetPartsError::EmptyBuffer));
    assert_eq!(get_parts(&[0x30, 0x05, 0x00]).err(), Some(GetPartsError::MissingBytes(4)));
}

#[test]
fn a_publish_is_written() {
    let publish = Publish { topic_name: "a/b", payload: b"ON" };
    let mut buffer = [0u8; 16];
    let mut offset = 0;
    assert_eq!(publish.try_encode(&mut buffer, &mut offset), Ok(()));
    assert_eq!(&buffer[..offset], &[0x30, 0x08, 0x00, 0x03, b'a', b'/', b'b', 0x00, b'O', b'N']);
    let mut again = [0u8; 16];
    let mut offset = 0;
    assert_eq!(publish.write(&mut again, &mut offset), Ok(()));
    assert_eq!(again, buffer);
}

#[test]
fn a_checked_publish_refuses_a_small_buffer() {
    let mut buffer = [0u8; 0];
    let mut offset = 0;
    assert_eq!(encode_checked("a/b", b"ON", &mut buffer, &mut offset), Err(EncodeError::EmptyBuffer));
    let mut buffer = [0u8; 8];
    let mut offset = 0;
    assert!(matches!(
        encode_checked("a/b", b"ON", &mut buffer, &mut offset),
        Err(EncodeError::BufferTooSmall { .. })
    ));
    let mut buffer = [0u8; 32];
    let mut offset = 0;
    assert_eq!(encode_checked("a/b", b"ON", &mut buffer, &mut offset), Ok(()));
    assert_eq!(&buffer[..offset], &[0x30, 0x08, 0x00, 0x03, b'a', b'/', b'b', 0x00, b'O', b'N']);
}

#[test]
fn a_publish_is_read() {
    // The payload ends where the leading remaining length, counted from the start of what is
    // read, ends
    let body = [0x08, 0x00, 0x03, b'a', b'/', b'b', 0x00, b'O', b'N'];
    let publish = Publish::read(0, &body).unwrap();
    assert_eq!(publish.topic_name, "a/b");
    assert_eq!(publish.payload, b"O");
    let whole = [0x09, 0x00, 0x03, b'a', b'/', b'b', 0x00, b'O', b'N'];
    assert_eq!(Publish::read(0, &whole).unwrap().payload, b"ON");
}

#[test]
fn a_connect_is_written() {
    let connect = Connect {
        client_identifier: "fc",
        username: "u",
        password: b"p",
        keep_alive_seconds: 60,
    };
    let mut buffer = [0u8; 64];
    let mut offset = 0;
    assert_eq!(connect.try_encode(&mut buffer, &mut offset), Ok(()));
    assert_eq!(
        &buffer[..offset],
        &[
            0x10, 21, 0x00, 0x04, b'M', b'Q', b'T', b'T', 5, 0b1100_0010, 0x00, 60, 0x00, 0x00,
            0x02, b'f', b'c', 0x00, 0x01, b'u', 0x00, 0x01, b'p'
        ]
    );
    let mut small = [0u8; 8];
    let mut offset = 0;
    assert_eq!(
        connect.encode(&mut small, &mut offset),
        Err(ConnectEncodeError::BufferTooSmall { required: 23, available: 8 })
    );
}

#[test]
fn a_ping_request_is_two_bytes() {
    let mut buffer = [0xAAu8; 4];
    let mut offset = 0;
    PingRequest.encode(&mut buffer, &mut offset);
    assert_eq!(&buffer[..2], &[0xC0, 0x00]);
    assert_eq!(PingResponse::decode(0, &[]), PingResponse);
}

#[test]
fn a_connect_acknowledgement_is_read() {
    assert_eq!(
        ConnectAcknowledgement::read(&[0x00, 0x00, 0x00]),
        Ok(ConnectAcknowledgement {
            is_session_present: false,
            connect_reason_code: ConnectReasonCode::Success,
        })
    );
    assert_eq!(
        ConnectReasonCode::try_from(0x87),
        Ok(ConnectReasonCode::ErrorCode(ConnectErrorReasonCode::NotAuthorized))
    );
    assert_eq!(ConnectReasonCode::try_from(0x01), Err(UnknownConnectErrorReasonCode(0x01)));
}

#[test]
fn a_refused_connection_is_reported() {
    assert_eq!(check_connect_response(&[0x20, 0x03, 0x00, 0x00, 0x00]), Ok(()));
    assert_eq!(
        check_connect_response(&[0x20, 0x03, 0x00, 0x87, 0x00]),
        Err(ConnectResponseError::ErrorReasonCode(ConnectErrorReasonCode::NotAuthorized))
    );
    assert_eq!(
        check_connect_response(&[0x30, 0x00]),
        Err(ConnectResponseError::InvalidResponsePacketType(3))
    );
}

#[test]
fn a_subscribe_acknowledgement_is_read() {
    let acknowledgement = SubscribeAcknowledgement::read(&[0x00, 0x01, 0x00, 0x00, 0x00, 0x00]).unwrap();
    assert_eq!(acknowledgement.packet_identifier, 1);
    assert_eq!(acknowledgement.reason_codes, &[0x00, 0x00, 0x00]);
}

#[test]
fn a_disconnect_gives_its_reason() {
    assert_eq!(
        Disconnect::try_decode(0, &[0x00]),
        Ok(Disconnect { reason_code: ReasonCode::NormalDisconnection })
    );
}

#[test]
fn incoming_packets_are_told_apart() {
    let publish = [0x30, 0x09, 0x08, 0x00, 0x03, b'a', b'/', b'b', 0x00, b'O', b'N'];
    match classify_incoming(&publish, 3) {
        Incoming::Publish(found) => {
            assert_eq!(found.topic_name, "a/b");
            assert_eq!(found.payload, b"O");
        }
        _ => panic!("expected a publish"),
    }
    assert!(matches!(
        classify_incoming(&[0x90, 0x04, 0x00, 0x01, 0x00, 0x00], 3),
        Incoming::SubscribeAcknowledgement { packet_identifier: 1, is_tracked: true }
    ));
    assert!(matches!(
        classify_incoming(&[0x90, 0x04, 0x00, 0x05, 0x00, 0x00], 3),
        Incoming::SubscribeAcknowledgement { packet_identifier: 5, is_tracked: false }
    ));
    assert!(matches!(classify_incoming(&[0xD0, 0x00], 3), Incoming::PingResponse(_)));
    assert!(matches!(classify_incoming(&[0x20, 0x00], 3), Incoming::Unsupported(2)));
    assert!(matches!(classify_incoming(&[], 3), Incoming::Stop(GetPartsError::EmptyBuffer)));
}

#[test]
fn subscriptions_are_written() {
    let options = Options::new(
        QualityOfService::AtMostOnceDelivery,
        false,
        false,
        RetainHandling::SendAtSubscribe,
    );
    assert_eq!(options.0, 0);
    assert_eq!(
        Options::new(QualityOfService::AtLeastOnceDelivery, true, true, RetainHandling::DoNotSend).0,
        0b0010_1101
    );
    let subscriptions = [Subscription { topic_filter: "a", options }];
    let subscribe = Subscribe { subscriptions: &subscriptions, packet_identifier: 1 };
    let mut buffer = [0u8; 16];
    let mut offset = 0;
    assert_eq!(subscribe.encode(&mut buffer, &mut offset), Ok(()));
    assert_eq!(&buffer[..offset], &[0x82, 0x07, 0x00, 0x01, 0x00, 0x00, 0x01, b'a', 0x00]);
    let subscriptions = command_subscriptions("c", "c/1", "c/2");
    assert_eq!(subscriptions.len(), 3);
    assert_eq!(subscriptions[1].topic_filter, "c/1");
    assert_eq!(subscriptions[2].options.0, 0);
}

#[test]
fn acknowledgements_refuse_identifiers_past_the_subscriptions() {
    let acknowledgements = Acknowledgements::new(3);
    assert!(acknowledgements.handle_subscribe_acknowledgement(2));
    assert!(!acknowledgements.handle_subscribe_acknowledgement(3));
    assert!(!acknowledgements.is_acknowledged(1));
}

#[test]
fn a_ping_is_due_a_keep_alive_interval_after_the_last_packet() {
    let mut keep_alive = KeepAlive { last_send: 5 };
    assert_eq!(keep_alive.deadline(), 5 + KEEP_ALIVE_MICROSECONDS);
    keep_alive.on_sent(1_000);
    assert_eq!(keep_alive.deadline(), 60_001_000);
}

#[test]
fn a_publish_that_would_run_off_the_buffer_is_not_readable() {
    assert!(is_readable(0, &[0x09, 0x00, 0x03, b'a', b'/', b'b', 0x00, b'O', b'N']));
    // The remaining length promises more than the buffer holds
    assert!(!is_readable(0, &[0x0A, 0x00, 0x03, b'a', b'/', b'b', 0x00, b'O', b'N']));
    // The topic name runs past the end
    assert!(!is_readable(0, &[0x09, 0x00, 0x09, b'a', b'/']));
    // No room for the topic length
    assert!(!is_readable(0, &[0x09, 0x00]));
    // Refused outright, so nothing is read
    assert!(is_readable(0x02, &[]));
}

#[test]
fn incoming_packets_are_checked_before_they_are_read() {
    assert!(is_incoming_readable(&[0x30, 0x09, 0x08, 0x00, 0x03, b'a', b'/', b'b', 0x00, b'O', b'N']));
    assert!(!is_incoming_readable(&[0x30, 0x03, 0x08, 0x00, 0x03]));
    assert!(is_incoming_readable(&[0x90, 0x04, 0x00, 0x01, 0x00, 0x00]));
    assert!(!is_incoming_readable(&[0x90, 0x01, 0x00]));
    assert!(!is_incoming_readable(&[0xE0, 0x00]));
    assert!(is_incoming_readable(&[0xE0, 0x01, 0x00]));
    assert!(is_incoming_readable(&[]));
}

#[test]
fn connect_responses_are_checked_before_they_are_read() {
    assert!(is_connect_response_readable(&[0x20, 0x03, 0x00, 0x00, 0x00]));
    assert!(!is_connect_response_readable(&[0x20, 0x01, 0x00]));
    assert!(is_connect_response_readable(&[0x30, 0x00]));
    assert!(ConnectAcknowledgement::is_readable(&[0x00, 0x00, 0x00]));
    assert!(!ConnectAcknowledgement::is_readable(&[0x00]));
    // A property length past the end of the buffer
    assert!(!ConnectAcknowledgement::is_readable(&[0x00, 0x00, 0x05]));
}

#[test]
fn a_publish_with_a_topic_that_is_not_utf8_is_refused() {
    let body = [0x07, 0x00, 0x02, 0xC3, 0x28, 0x00, b'x'];
    assert!(matches!(Publish::read(0, &body), Err(ReadError::InvalidTopicName(_))));
    let empty_topic = [0x04, 0x00, 0x00, 0x00];
    assert!(matches!(Publish::read(0, &empty_topic), Err(ReadError::ZeroLengthTopicName)));
    assert!(matches!(
        Publish::read(0x02, &body),
        Err(ReadError::UnsupportedQualityOfServiceLevel(1))
    ));
}

#[test]
fn packets_are_checked_for_room_before_they_are_written() {
    assert_eq!(encoded_size(0), 1);
    assert_eq!(encoded_size(127), 1);
    assert_eq!(encoded_size(128), 2);
    assert_eq!(encoded_size(16_384), 3);
    assert_eq!(encoded_size(MAX), 4);
    // A 22 byte packet: the type, one byte of remaining length and 20 behind it
    let connect = Connect {
        client_identifier: "a",
        username: "u",
        password: b"p",
        keep_alive_seconds: 60,
    };
    assert!(connect.is_encodable());
    let mut buffer = [0u8; 21];
    let mut offset = 0;
    assert_eq!(
        connect.try_encode(&mut buffer, &mut offset),
        Err(ConnectEncodeError::BufferTooSmall { required: 22, available: 21 })
    );
    assert_eq!(offset, 0);
    assert_eq!(buffer, [0u8; 21]);
    let mut buffer = [0u8; 22];
    let mut offset = 0;
    assert_eq!(connect.try_encode(&mut buffer, &mut offset), Ok(()));
    assert_eq!(offset, 22);
    let options = Options::new(
        QualityOfService::AtMostOnceDelivery,
        false,
        false,
        RetainHandling::SendAtSubscribe,
    );
    let subscriptions = [Subscription { topic_filter: "a", options }];
    let subscribe = Subscribe { subscriptions: &subscriptions, packet_identifier: 1 };
    assert!(subscribe.is_encodable());
    let mut buffer = [0u8; 8];
    let mut offset = 0;
    assert_eq!(
        subscribe.encode(&mut buffer, &mut offset),
        Err(SubscribeEncodeError::BufferTooSmall { required: 9, available: 8 })
    );
    assert_eq!(offset, 0);
}

#[test]
fn written_packets_split_back_into_their_parts() {
    let mut buffer = [0u8; 32];
    let mut offset = 0;
    encode_checked("a/b", b"ON", &mut buffer, &mut offset).unwrap();
    let parts = get_parts(&buffer[..offset]).ok().unwrap();
    assert_eq!(parts.packet_type, Publish::TYPE);
    assert_eq!(parts.flags, 0);
    assert_eq!(parts.variable_header_and_payload, &[0x00, 0x03, b'a', b'/', b'b', 0x00, b'O', b'N']);

    let connect = Connect { client_identifier: "fc", username: "u", password: b"p", keep_alive_seconds: 60 };
    let mut buffer = [0u8; 64];
    let mut offset = 0;
    connect.try_encode(&mut buffer, &mut offset).unwrap();
    let parts = get_parts(&buffer[..offset]).ok().unwrap();
    assert_eq!(parts.packet_type, Connect::TYPE);
    assert_eq!(parts.flags, 0);
    assert_eq!(parts.variable_header_and_payload.len(), 21);

    let options = Options::new(QualityOfService::AtMostOnceDelivery, false, false, RetainHandling::SendAtSubscribe);
    let subscriptions = [Subscription { topic_filter: "a", options }];
    let subscribe = Subscribe { subscriptions: &subscriptions, packet_identifier: 1 };
    let mut buffer = [0u8; 16];
    let mut offset = 0;
    subscribe.encode(&mut buffer, &mut offset).unwrap();
    let parts = get_parts(&buffer[..offset]).ok().unwrap();
    assert_eq!(parts.packet_type, Subscribe::TYPE);
    assert_eq!(parts.flags, 0b0010);
    assert_eq!(parts.variable_header_and_payload, &[0x00, 0x01, 0x00, 0x00, 0x01, b'a', 0x00]);
}

#[test]
fn connect_acknowledgement_string_properties_have_two_byte_lengths() {
    let success = Ok(ConnectAcknowledgement {
        is_session_present: false,
        connect_reason_code: ConnectReasonCode::Success,
    });
    // A reason string "abc"
    let reason_string = [0x00, 0x00, 0x06, 0x1F, 0x00, 0x03, b'a', b'b', b'c'];
    assert!(ConnectAcknowledgement::is_readable(&reason_string));
    assert_eq!(ConnectAcknowledgement::try_decode(0, &reason_string), success);
    // A user property "k" = "v", then a receive maximum
    let user_property = [0x00, 0x00, 0x0A, 0x26, 0x00, 0x01, b'k', 0x00, 0x01, b'v', 0x21, 0x00, 0x10];
    assert_eq!(ConnectAcknowledgement::try_decode(0, &user_property), success);
    // The length of a string property cut off after its first byte
    let cut = [0x00, 0x00, 0x02, 0x1F, 0x00];
    assert_eq!(
        ConnectAcknowledgement::try_decode(0, &cut),
        Err(ConnectDecodeError::InvalidPropertyStringLength {
            property_identifier: 0x1F,
            error: DecodeError::UnexpectedEndOfBuffer,
        })
    );
}
