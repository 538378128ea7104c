use motu_mk5::protocol::sysex::{
    build_enable_api, build_message, build_probe, build_set_property, decode_7bit, encode_7bit,
    make_request_byte, parse_message, parse_property, RequestId, DIRECTION_HOST_TO_DEVICE,
    SYSEX_END,
};

#[test]
fn encode_decode_7bit_roundtrip() {
    let data: Vec<u8> = (0..=255).collect();
    let encoded = encode_7bit(&data);
    let decoded = decode_7bit(&encoded);
    assert_eq!(data, decoded);
}

#[test]
fn probe_message_format() {
    let msg = build_probe();
    assert_eq!(msg[0], 0xF0);
    assert_eq!(&msg[1..4], &[0x00, 0x00, 0x3B]);
    assert_eq!(msg[4], 0x00); // protocol ID
    assert_eq!(msg[5], 0x01); // protocol ID
    assert_eq!(msg[6], make_request_byte(DIRECTION_HOST_TO_DEVICE, RequestId::ProtocolProbe));
    assert_eq!(*msg.last().unwrap(), SYSEX_END);
}

#[test]
fn set_property_send_encodes_correctly() {
    let msg = build_set_property(1016, 5, &[0x00, 0x80, 0x00, 0x00]);
    let parsed = parse_message(&msg).unwrap();
    assert_eq!(parsed.request_id, RequestId::SetProperty);
    // Host→device includes length field: [prop_id(2), index(2), length(2), data(N)]
    assert_eq!(parsed.payload[0..2], 1016u16.to_be_bytes());
    assert_eq!(parsed.payload[2..4], 5u16.to_be_bytes());
    assert_eq!(parsed.payload[4..6], 4u16.to_be_bytes());
    assert_eq!(&parsed.payload[6..], &[0x00, 0x80, 0x00, 0x00]);
}

#[test]
fn parse_device_property_message() {
    // Device→host format: [prop_id(2), index(2), data(N)] — no length field
    let payload = vec![0x03, 0xF8, 0x00, 0x05, 0x00, 0x80, 0x00, 0x00];
    let prop = parse_property(&payload).unwrap();
    assert_eq!(prop.prop_id, 1016);
    assert_eq!(prop.index, 5);
    assert_eq!(prop.data, vec![0x00, 0x80, 0x00, 0x00]);
}

#[test]
fn encode_7bit_exact_bytes() {
    // One group: top bits of bytes 0 and 2 go to bits 0 and 2 of the lead byte.
    assert_eq!(encode_7bit(&[0x81, 0x02, 0xFF]), vec![0x05, 0x01, 0x02, 0x7F]);
    // Eight bytes make two groups.
    let data = [0x80u8; 8];
    assert_eq!(
        encode_7bit(&data),
        vec![0x7F, 0, 0, 0, 0, 0, 0, 0, 0x01, 0x00]
    );
    assert_eq!(encode_7bit(&[]), Vec::<u8>::new());
}

#[test]
fn decode_7bit_exact_bytes() {
    assert_eq!(decode_7bit(&[0x05, 0x01, 0x02, 0x7F]), vec![0x81, 0x02, 0xFF]);
    // A lone lead byte decodes to nothing.
    assert_eq!(decode_7bit(&[0x7F]), Vec::<u8>::new());
    assert_eq!(decode_7bit(&[]), Vec::<u8>::new());
}

#[test]
fn encoded_bytes_are_seven_bit() {
    let data: Vec<u8> = (0..=255).rev().collect();
    let encoded = encode_7bit(&data);
    assert!(encoded.iter().all(|b| *b < 0x80));
    assert_eq!(encoded.len(), data.len() + (data.len() + 6) / 7);
}

#[test]
fn build_message_parses_back() {
    let payload = [0xF7u8, 0xF0, 0x00, 0x7F, 0x80, 1, 2, 3, 4, 5, 6];
    let msg = build_message(RequestId::EnableSysexApi, &payload);
    assert_eq!(msg.iter().filter(|b| **b == SYSEX_END).count(), 1);
    let parsed = parse_message(&msg).unwrap();
    assert_eq!(parsed.request_id, RequestId::EnableSysexApi);
    assert_eq!(parsed.direction, DIRECTION_HOST_TO_DEVICE);
    assert_eq!(parsed.payload, payload.to_vec());
}

#[test]
fn enable_api_message_format() {
    assert_eq!(build_enable_api(), vec![0xF0, 0x00, 0x00, 0x3B, 0x00, 0x01, 0x02, 0xF7]);
    assert_eq!(build_probe(), vec![0xF0, 0x00, 0x00, 0x3B, 0x00, 0x01, 0x01, 0xF7]);
}

#[test]
fn request_byte_values() {
    assert_eq!(make_request_byte(0, RequestId::SetProperty), 0x00);
    assert_eq!(make_request_byte(1, RequestId::ProtocolProbe), 0x41);
    assert_eq!(make_request_byte(1, RequestId::EnableSysexApi), 0x42);
}

#[test]
fn parse_message_rejections() {
    // Too short.
    assert!(parse_message(&[0xF0, 0x00, 0x00, 0x3B, 0x00, 0x01, 0x00]).is_none());
    // Wrong header.
    assert!(parse_message(&[0xF0, 0x00, 0x00, 0x3C, 0x00, 0x01, 0x00, 0xF7]).is_none());
    // Missing end byte.
    assert!(parse_message(&[0xF0, 0x00, 0x00, 0x3B, 0x00, 0x01, 0x00, 0x00]).is_none());
    // Unknown request id.
    assert!(parse_message(&[0xF0, 0x00, 0x00, 0x3B, 0x00, 0x01, 0x03, 0xF7]).is_none());
    // Device direction bit.
    let m = parse_message(&[0xF0, 0x00, 0x00, 0x3B, 0x00, 0x01, 0x41, 0xF7]).unwrap();
    assert_eq!(m.direction, 1);
    assert_eq!(m.request_id, RequestId::ProtocolProbe);
    assert!(m.payload.is_empty());
}

#[test]
fn parse_property_needs_four_bytes() {
    assert!(parse_property(&[0x00, 0x01, 0x02]).is_none());
    let p = parse_property(&[0x13, 0x89, 0x00, 0x00]).unwrap();
    assert_eq!(p.prop_id, 5001);
    assert_eq!(p.index, 0);
    assert!(p.data.is_empty());
}
