use steit::error::DecodeError;
use steit::wire::{
    append_bytes, decode_field, decode_header, decode_payload, encode_field, skip_payload,
    write_field, write_header, Value, WireType,
};

#[test]
fn wire_types_have_their_codes() {
    assert_eq!(WireType::Varint.code(), 0);
    assert_eq!(WireType::Sized.code(), 2);
    assert_eq!(WireType::from_code(0), Some(WireType::Varint));
    assert_eq!(WireType::from_code(2), Some(WireType::Sized));
    for code in [1u8, 3, 4, 5, 6, 7, 8, 255] {
        assert_eq!(WireType::from_code(code), None);
    }
}

#[test]
fn values_know_their_wire_type() {
    assert_eq!(Value::Varint(5).wire_type(), WireType::Varint);
    assert_eq!(Value::Sized(vec![]).wire_type(), WireType::Sized);
}

#[test]
fn headers_hold_tag_and_wire_type() {
    let mut out = Vec::new();
    write_header(&mut out, 3, WireType::Varint);
    assert_eq!(out, vec![0x18u8]);
    write_header(&mut out, 3, WireType::Sized);
    assert_eq!(out, vec![0x18u8, 0x1a]);
    write_header(&mut out, 0, WireType::Varint);
    assert_eq!(out, vec![0x18u8, 0x1a, 0x00]);
    write_header(&mut out, 65535, WireType::Sized);
    assert_eq!(out, vec![0x18u8, 0x1a, 0x00, 0xfa, 0xff, 0x1f]);
    assert_eq!(decode_header(&out), Ok((3, WireType::Varint, 1)));
    assert_eq!(decode_header(&out[1..]), Ok((3, WireType::Sized, 1)));
    assert_eq!(decode_header(&out[2..]), Ok((0, WireType::Varint, 1)));
    assert_eq!(decode_header(&out[3..]), Ok((65535, WireType::Sized, 3)));
    assert_eq!(decode_header(&out[6..]), Err(DecodeError::Truncated));
}

#[test]
fn headers_with_an_unknown_code_are_invalid() {
    assert_eq!(decode_header(&[0x19]), Err(DecodeError::InvalidHeader));
    assert_eq!(decode_header(&[0x1f]), Err(DecodeError::InvalidHeader));
}

#[test]
fn headers_with_a_tag_above_16_bits_are_invalid() {
    // 65536 * 8
    assert_eq!(decode_header(&[0x80, 0x80, 0x20]), Err(DecodeError::InvalidHeader));
    // 65535 * 8 + 2 is the last valid key
    assert_eq!(decode_header(&[0xfa, 0xff, 0x1f]), Ok((65535, WireType::Sized, 3)));
    assert_eq!(decode_header(&[0xff; 9]), Err(DecodeError::Truncated));
    assert_eq!(decode_header(&[0xff; 10]), Err(DecodeError::InvalidVarint));
}

#[test]
fn a_varint_field_is_header_and_number() {
    assert_eq!(encode_field(3, &Value::Varint(42)), vec![0x18u8, 0x2a]);
    assert_eq!(encode_field(1, &Value::Varint(300)), vec![0x08u8, 0xac, 0x02]);
    assert_eq!(decode_field(&[0x18, 0x2a]), Ok((3, Value::Varint(42), 2)));
}

#[test]
fn a_sized_field_is_header_length_and_bytes() {
    assert_eq!(encode_field(1, &Value::Sized(vec![1, 2, 3])), vec![0x0au8, 3, 1, 2, 3]);
    assert_eq!(encode_field(1, &Value::Sized(vec![])), vec![0x0au8, 0]);
    assert_eq!(decode_field(&[0x0a, 3, 1, 2, 3, 9, 9]), Ok((1, Value::Sized(vec![1, 2, 3]), 5)));
    assert_eq!(decode_field(&[0x0a, 0]), Ok((1, Value::Sized(vec![]), 2)));
    let long = vec![7u8; 200];
    let bytes = encode_field(2, &Value::Sized(long.clone()));
    assert_eq!(&bytes[..3], &[0x12u8, 0xc8, 0x01]);
    assert_eq!(decode_field(&bytes), Ok((2, Value::Sized(long), 203)));
}

#[test]
fn write_field_appends() {
    let mut out = vec![0xeeu8];
    write_field(&mut out, 3, &Value::Varint(42));
    write_field(&mut out, 1, &Value::Sized(vec![5]));
    assert_eq!(out, vec![0xeeu8, 0x18, 0x2a, 0x0a, 1, 5]);
    assert_eq!(decode_field(&out[1..]), Ok((3, Value::Varint(42), 2)));
    assert_eq!(decode_field(&out[3..]), Ok((1, Value::Sized(vec![5]), 3)));
}

#[test]
fn a_length_that_exceeds_the_buffer_fails() {
    assert_eq!(decode_field(&[0x0a, 5, 1, 2]), Err(DecodeError::LengthExceedsBuffer));
    assert_eq!(decode_field(&[0x0a, 1]), Err(DecodeError::LengthExceedsBuffer));
    assert_eq!(
        decode_payload(&[0xff, 0xff, 0xff, 0xff, 0xff, 0xff, 0xff, 0xff, 0xff, 0x01], WireType::Sized),
        Err(DecodeError::LengthExceedsBuffer)
    );
}

#[test]
fn a_field_that_ends_early_fails() {
    assert_eq!(decode_field(&[]), Err(DecodeError::Truncated));
    assert_eq!(decode_field(&[0x18]), Err(DecodeError::Truncated));
    assert_eq!(decode_field(&[0x0a]), Err(DecodeError::Truncated));
    assert_eq!(decode_field(&[0x18, 0x80]), Err(DecodeError::Truncated));
}

#[test]
fn skipping_measures_what_reading_takes() {
    let bytes = vec![3u8, 1, 2, 3, 0xac, 0x02];
    assert_eq!(skip_payload(&bytes, WireType::Sized), Ok(4));
    assert_eq!(decode_payload(&bytes, WireType::Sized), Ok((Value::Sized(vec![1, 2, 3]), 4)));
    assert_eq!(skip_payload(&bytes[4..], WireType::Varint), Ok(2));
    assert_eq!(decode_payload(&bytes[4..], WireType::Varint), Ok((Value::Varint(300), 2)));
    assert_eq!(skip_payload(&bytes[4..], WireType::Sized), Err(DecodeError::LengthExceedsBuffer));
    assert_eq!(skip_payload(&bytes[6..], WireType::Varint), Err(DecodeError::Truncated));
    assert_eq!(skip_payload(&[0x80; 10], WireType::Sized), Err(DecodeError::InvalidVarint));
}

#[test]
fn values_compare_by_wire_type_and_content() {
    assert!(Value::Varint(1) == Value::Varint(1));
    assert!(Value::Varint(1) != Value::Varint(2));
    assert!(Value::Sized(vec![1]) == Value::Sized(vec![1]));
    assert!(Value::Sized(vec![1]) != Value::Sized(vec![1, 0]));
    assert!(Value::Sized(vec![1]) != Value::Varint(1));
    let value = Value::Sized(vec![4, 5]);
    assert!(value.clone() == value);
}

#[test]
fn append_bytes_appends() {
    let mut out = vec![1u8];
    append_bytes(&mut out, &[2, 3]);
    append_bytes(&mut out, &[]);
    assert_eq!(out, vec![1u8, 2, 3]);
}
