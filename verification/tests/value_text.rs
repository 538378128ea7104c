use motu_mk5::protocol::types::{PropertyType, PropertyValue};
use motu_mk5::protocol::value_text::{format_value, parse_value, ValueError};

#[test]
fn reads_integers_like_str_parse() {
    assert_eq!(parse_value(PropertyType::Byte, "42"), Ok(PropertyValue::Byte(42)));
    assert_eq!(parse_value(PropertyType::Byte, "+7"), Ok(PropertyValue::Byte(7)));
    assert_eq!(parse_value(PropertyType::Byte, "255"), Ok(PropertyValue::Byte(255)));
    assert_eq!(parse_value(PropertyType::Int16, "-32768"), Ok(PropertyValue::Int16(-32768)));
    assert_eq!(parse_value(PropertyType::Int16, "0040"), Ok(PropertyValue::Int16(40)));
    assert_eq!(parse_value(PropertyType::Int32, "2147483647"), Ok(PropertyValue::Int32(i32::MAX)));
    assert_eq!(parse_value(PropertyType::Int32, "-2147483648"), Ok(PropertyValue::Int32(i32::MIN)));
}

#[test]
fn refuses_what_str_parse_refuses() {
    assert_eq!(parse_value(PropertyType::Byte, ""), Err(ValueError::Empty));
    assert_eq!(parse_value(PropertyType::Byte, "+"), Err(ValueError::InvalidDigit));
    assert_eq!(parse_value(PropertyType::Int16, "-"), Err(ValueError::InvalidDigit));
    assert_eq!(parse_value(PropertyType::Byte, "-1"), Err(ValueError::InvalidDigit));
    assert_eq!(parse_value(PropertyType::Byte, "256"), Err(ValueError::TooLarge));
    assert_eq!(parse_value(PropertyType::Byte, "1x"), Err(ValueError::InvalidDigit));
    assert_eq!(parse_value(PropertyType::Byte, "26x"), Err(ValueError::InvalidDigit));
    assert_eq!(parse_value(PropertyType::Byte, "999x"), Err(ValueError::TooLarge));
    assert_eq!(parse_value(PropertyType::Int16, "-32769"), Err(ValueError::TooSmall));
    assert_eq!(parse_value(PropertyType::Int32, " 1"), Err(ValueError::InvalidDigit));
    for (t, s) in [
        (PropertyType::Byte, "300"),
        (PropertyType::Byte, "26x"),
        (PropertyType::Byte, "999x"),
        (PropertyType::Byte, "-1"),
        (PropertyType::Byte, ""),
        (PropertyType::Int16, "+"),
        (PropertyType::Int16, "-40000"),
        (PropertyType::Int32, "12a"),
        (PropertyType::Int32, "99999999999"),
    ] {
        let ours = parse_value(t, s).unwrap_err();
        let std_message = match t {
            PropertyType::Byte => s.parse::<u8>().unwrap_err().to_string(),
            PropertyType::Int16 => s.parse::<i16>().unwrap_err().to_string(),
            _ => s.parse::<i32>().unwrap_err().to_string(),
        };
        assert_eq!(ours.message(), std_message);
    }
}

#[test]
fn strings_arrays_and_fixed_point() {
    assert_eq!(
        parse_value(PropertyType::String, "Studio A"),
        Ok(PropertyValue::String("Studio A".to_string()))
    );
    assert_eq!(parse_value(PropertyType::Array, "1,2"), Err(ValueError::ArrayNotSettable));
    assert_eq!(ValueError::ArrayNotSettable.message(), "cannot set array properties from CLI");
    assert_eq!(parse_value(PropertyType::Float, "0.5"), Err(ValueError::FloatText));
}

#[test]
fn printed_integers_read_back() {
    for x in [0u8, 7, 42, 255] {
        assert_eq!(parse_value(PropertyType::Byte, &x.to_string()), Ok(PropertyValue::Byte(x)));
    }
    for x in [i16::MIN, -1, 0, 40, i16::MAX] {
        assert_eq!(parse_value(PropertyType::Int16, &x.to_string()), Ok(PropertyValue::Int16(x)));
    }
    for x in [i32::MIN, -48000, 0, 96000, i32::MAX] {
        assert_eq!(parse_value(PropertyType::Int32, &x.to_string()), Ok(PropertyValue::Int32(x)));
    }
}

#[test]
fn values_print_like_the_format_macros() {
    assert_eq!(format_value(&PropertyValue::Byte(7)), Some("7".to_string()));
    assert_eq!(format_value(&PropertyValue::Int16(-300)), Some("-300".to_string()));
    assert_eq!(format_value(&PropertyValue::Int32(i32::MIN)), Some(format!("{}", i32::MIN)));
    assert_eq!(format_value(&PropertyValue::String("Mic 1".to_string())), Some("Mic 1".to_string()));
    let bytes = vec![0x00u8, 0x0a, 0x7f, 0xff];
    assert_eq!(format_value(&PropertyValue::Array(bytes.clone())), Some(format!("{bytes:02x?}")));
    assert_eq!(format_value(&PropertyValue::Array(vec![])), Some("[]".to_string()));
    assert_eq!(format_value(&PropertyValue::Float(0x0080_0000)), None);
}
