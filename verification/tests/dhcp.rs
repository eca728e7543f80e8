use fan_controller::dhcp::{
    is_decodable, DecodeError, DhcpMessageType, HardwareAddressType, MaybeString, MessageType,
    Packet, ReplyType,
};

/// A DHCP discover from a client with hardware address 02:00:00:00:00:01, followed by `options`.
fn discover(options: &[u8]) -> Vec<u8> {
    let mut message = vec![0u8; 240];
    message[0] = 1;
    message[1] = 1;
    message[2] = 6;
    message[3] = 0;
    message[4..8].copy_from_slice(&[0x12, 0x34, 0x56, 0x78]);
    message[8..10].copy_from_slice(&[0x00, 0x05]);
    message[10] = 0x80;
    message[12..16].copy_from_slice(&[10, 0, 0, 7]);
    message[16..20].copy_from_slice(&[10, 0, 0, 8]);
    message[20..24].copy_from_slice(&[10, 0, 0, 1]);
    message[24..28].copy_from_slice(&[10, 0, 0, 254]);
    message[28..34].copy_from_slice(&[0x02, 0, 0, 0, 0, 0x01]);
    message[236..240].copy_from_slice(&[99, 130, 83, 99]);
    message.extend_from_slice(options);
    message
}

fn decoded(message: &[u8]) -> Result<Packet<'_>, DecodeError> {
    assert!(is_decodable(message));
    Packet::try_decode(message)
}

#[test]
fn a_discover_is_read() {
    let message = discover(&[
        53, 1, 1, // discover
        12, 3, b'f', b'a', b'n', // host name
        55, 3, 1, 3, 6, // parameter request list
        57, 2, 0x05, 0xDC, // maximum message size 1500
        51, 4, 0x00, 0x01, 0x51, 0x80, // lease 86400 seconds
        61, 2, 0x01, 0x02, // client identifier
        80, 0, // rapid commit
        255, 0, // end, padding
    ]);
    let packet = match decoded(&message) {
        Ok(packet) => packet,
        Err(error) => panic!("not read: {error:?}"),
    };
    assert_eq!(packet.option, MessageType::Request);
    assert_eq!(packet.address_type, HardwareAddressType::Ethernet);
    assert_eq!(packet.hardware_address_length, 6);
    assert_eq!(packet.hops_count, 0);
    assert_eq!(packet.transaction_id, 0x1234_5678);
    assert_eq!(packet.seconds_elapsed, 5);
    assert_eq!(packet.flags, ReplyType::Broadcast);
    assert_eq!(packet.client_address, [10, 0, 0, 7]);
    assert_eq!(packet.your_address, [10, 0, 0, 8]);
    assert_eq!(packet.server_address, [10, 0, 0, 1]);
    assert_eq!(packet.gateway_address, [10, 0, 0, 254]);
    assert_eq!(packet.client_hardware_address, [0x02, 0, 0, 0, 0, 0x01]);
    let options = packet.options;
    assert_eq!(options.message_type, Some(DhcpMessageType::Discover));
    assert!(matches!(options.host_name, Some(MaybeString::String("fan"))));
    assert_eq!(options.parameter_request_list, Some(&[1u8, 3, 6][..]));
    assert_eq!(options.maximum_dhcp_message_size, Some(1500));
    assert_eq!(options.lease_seconds, Some(86400));
    assert_eq!(options.client_identifier, Some(&[1u8, 2][..]));
    assert_eq!(options.rapid_commit, Some(()));
    assert_eq!(options.vendor_class_identifier.is_none(), true);
    assert_eq!(options.subnet_mask, None);
    assert_eq!(options.router, None);
    assert_eq!(options.address_time, None);
}

#[test]
fn options_end_with_the_buffer_or_the_end_marker() {
    let without_end_marker = discover(&[53, 1, 3]);
    let packet = decoded(&without_end_marker).ok().unwrap();
    assert_eq!(packet.options.message_type, Some(DhcpMessageType::Request));
    // What follows the end marker is not read
    let after_end = discover(&[255, 1, 2, 3]);
    assert!(decoded(&after_end).is_ok());
    // A later option replaces an earlier one of the same code
    let twice = discover(&[53, 1, 1, 53, 1, 5]);
    assert_eq!(
        decoded(&twice).ok().unwrap().options.message_type,
        Some(DhcpMessageType::Acknowledge)
    );
    // Unicast is flag 0
    let mut unicast = discover(&[]);
    unicast[10] = 0;
    assert_eq!(decoded(&unicast).ok().unwrap().flags, ReplyType::Unicast);
}

#[test]
fn a_host_name_that_is_not_text_is_kept_as_bytes() {
    let message = discover(&[12, 2, 0xC3, 0x28, 60, 2, b'p', b'i']);
    let options = decoded(&message).ok().unwrap().options;
    assert!(matches!(options.host_name, Some(MaybeString::Bytes(&[0xC3, 0x28]))));
    assert!(matches!(options.vendor_class_identifier, Some(MaybeString::String("pi"))));
}

#[test]
fn malformed_headers_are_refused() {
    let mut message = discover(&[]);
    message[0] = 3;
    assert_eq!(decoded(&message).err(), Some(DecodeError::UnkownMessageType(3)));
    let mut message = discover(&[]);
    message[1] = 6;
    assert_eq!(decoded(&message).err(), Some(DecodeError::UnkownHardwareAddressType(6)));
    let mut message = discover(&[]);
    message[2] = 8;
    assert_eq!(decoded(&message).err(), Some(DecodeError::UnsupportedHardwareAddressLength(8)));
    let mut message = discover(&[]);
    message[10] = 1;
    assert_eq!(decoded(&message).err(), Some(DecodeError::UnkownFlag(1)));
}

#[test]
fn malformed_options_are_refused() {
    assert_eq!(decoded(&discover(&[1, 4, 255, 255, 255, 0])).err(), Some(DecodeError::UnsupportedOption(1)));
    assert_eq!(decoded(&discover(&[53, 1, 14])).err(), Some(DecodeError::UnknownDhcpMessageType(14)));
    assert_eq!(
        decoded(&discover(&[51, 2, 0, 1])).err(),
        Some(DecodeError::InvalidOptionLength { option: 51, expected: 4, actual: 2 })
    );
    assert_eq!(
        decoded(&discover(&[57, 1, 0])).err(),
        Some(DecodeError::InvalidOptionLength { option: 57, expected: 2, actual: 1 })
    );
}

#[test]
fn messages_that_would_be_read_past_their_end_are_not_decodable() {
    assert!(!is_decodable(&[]));
    assert!(!is_decodable(&[1, 1, 6]));
    assert!(!is_decodable(&discover(&[])[..239]));
    // An option whose length runs past the end
    assert!(!is_decodable(&discover(&[12, 5, b'f'])));
    // An option code without its length
    assert!(!is_decodable(&discover(&[53])));
    // The end marker as the very last byte: its length byte is read too
    assert!(!is_decodable(&discover(&[255])));
    // A message type option with no content
    assert!(!is_decodable(&discover(&[53, 0])));
    // Refused before anything runs past the end
    assert!(is_decodable(&[3]));
    assert!(is_decodable(&[1, 1, 8]));
    assert!(is_decodable(&discover(&[1, 0])));
    // An unknown option is only refused once its length is known to fit
    assert!(!is_decodable(&discover(&[1, 9])));
}
