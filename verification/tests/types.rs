use motu_mk5::protocol::types::{PropertyType, PropertyValue};

#[test]
fn byte_encode_decode() {
    let val = PropertyValue::Byte(42);
    let encoded = val.encode();
    let decoded = PropertyValue::decode(PropertyType::Byte, &encoded).unwrap();
    assert_eq!(val, decoded);
}

#[test]
fn string_null_terminated() {
    let val = PropertyValue::String("Mic 1".to_string());
    let encoded = val.encode();
    assert_eq!(encoded.len(), 32);
    assert_eq!(encoded[5], 0);
    let decoded = PropertyValue::decode(PropertyType::String, &encoded).unwrap();
    assert_eq!(val, decoded);
}

#[test]
fn integer_encodings_are_big_endian() {
    assert_eq!(PropertyValue::Int16(-2).encode(), vec![0xFF, 0xFE]);
    assert_eq!(PropertyValue::Int16(0x1234).encode(), vec![0x12, 0x34]);
    assert_eq!(PropertyValue::Int32(48000).encode(), vec![0x00, 0x00, 0xBB, 0x80]);
    assert_eq!(PropertyValue::Int32(-1).encode(), vec![0xFF, 0xFF, 0xFF, 0xFF]);
    // 0.5 in 8.24 fixed point.
    assert_eq!(PropertyValue::Float(0x0080_0000).encode(), vec![0x00, 0x80, 0x00, 0x00]);
    assert_eq!(PropertyValue::Array(vec![1, 2, 3]).encode(), vec![1, 2, 3]);
}

#[test]
fn integer_decodings() {
    assert_eq!(
        PropertyValue::decode(PropertyType::Int16, &[0x80, 0x00]),
        Some(PropertyValue::Int16(-32768))
    );
    assert_eq!(
        PropertyValue::decode(PropertyType::Int32, &[0x00, 0x00, 0xBB, 0x80, 0x99]),
        Some(PropertyValue::Int32(48000))
    );
    assert_eq!(
        PropertyValue::decode(PropertyType::Float, &[0xFF, 0x00, 0x00, 0x00]),
        Some(PropertyValue::Float(-0x0100_0000))
    );
    assert_eq!(PropertyValue::decode(PropertyType::Int16, &[0x01]), None);
    assert_eq!(PropertyValue::decode(PropertyType::Int32, &[1, 2, 3]), None);
    assert_eq!(PropertyValue::decode(PropertyType::Float, &[]), None);
    assert_eq!(PropertyValue::decode(PropertyType::Byte, &[]), None);
    assert_eq!(
        PropertyValue::decode(PropertyType::Array, &[]),
        Some(PropertyValue::Array(vec![]))
    );
}

#[test]
fn string_encoding_cuts_at_31_bytes() {
    let long = "abcdefghijklmnopqrstuvwxyz0123456789";
    let encoded = PropertyValue::String(long.to_string()).encode();
    assert_eq!(encoded.len(), 32);
    assert_eq!(&encoded[..31], &long.as_bytes()[..31]);
    assert_eq!(encoded[31], 0);
    assert_eq!(
        PropertyValue::decode(PropertyType::String, &encoded),
        Some(PropertyValue::String(long[..31].to_string()))
    );
}

#[test]
fn string_decoding_stops_at_nul_and_needs_utf8() {
    assert_eq!(
        PropertyValue::decode(PropertyType::String, b"ab\0cd"),
        Some(PropertyValue::String("ab".to_string()))
    );
    assert_eq!(
        PropertyValue::decode(PropertyType::String, b"abc"),
        Some(PropertyValue::String("abc".to_string()))
    );
    assert_eq!(PropertyValue::decode(PropertyType::String, &[0xFF, 0x00]), None);
    let word = "Grüße";
    let encoded = PropertyValue::String(word.to_string()).encode();
    assert_eq!(
        PropertyValue::decode(PropertyType::String, &encoded),
        Some(PropertyValue::String(word.to_string()))
    );
}

#[test]
fn values_of_different_kinds_differ() {
    assert_ne!(PropertyValue::Int32(5), PropertyValue::Float(5));
    assert_ne!(PropertyValue::Byte(0), PropertyValue::Array(vec![0]));
    assert_eq!(
        PropertyValue::Array(vec![1, 2]),
        PropertyValue::Array(vec![1, 2])
    );
    assert_ne!(
        PropertyValue::String("a".to_string()),
        PropertyValue::String("b".to_string())
    );
}
