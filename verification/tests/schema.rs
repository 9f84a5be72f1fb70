use steit::error::{DecodeError, SchemaError};
use steit::gen::meta::{Field, FieldType, Meta, Struct};
use steit::schema::{decode_message, decode_nested, encode_message, Schema};
use steit::wire::{encode_field, Value, WireType};

fn schema_of(rows: &[(u16, WireType)]) -> Schema {
    let mut schema = Schema::new();
    for (tag, wire_type) in rows {
        assert_eq!(schema.declare(*tag, *wire_type), Ok(()));
    }
    schema
}

#[test]
fn a_new_schema_knows_no_tag() {
    let schema = Schema::new();
    for tag in [0u16, 1, 7, 65535] {
        assert_eq!(schema.wire_type_for(tag), None);
    }
}

#[test]
fn a_declared_tag_has_its_wire_type() {
    let schema = schema_of(&[(1, WireType::Varint), (7, WireType::Sized)]);
    assert_eq!(schema.wire_type_for(1), Some(WireType::Varint));
    assert_eq!(schema.wire_type_for(7), Some(WireType::Sized));
    assert_eq!(schema.wire_type_for(2), None);
}

#[test]
fn the_wire_type_of_a_tag_never_changes() {
    let mut schema = schema_of(&[(1, WireType::Varint), (7, WireType::Sized)]);
    assert_eq!(schema.declare(1, WireType::Sized), Err(SchemaError::WireTypeChanged));
    assert_eq!(schema.declare(7, WireType::Varint), Err(SchemaError::WireTypeChanged));
    assert_eq!(schema.wire_type_for(1), Some(WireType::Varint));
    assert_eq!(schema.wire_type_for(7), Some(WireType::Sized));
    assert_eq!(schema.declare(1, WireType::Varint), Ok(()));
    assert_eq!(schema.declare(7, WireType::Sized), Ok(()));
    assert_eq!(schema.wire_type_for(1), Some(WireType::Varint));
}

#[test]
fn a_message_is_its_fields_one_after_the_other() {
    let fields = vec![(3u16, Value::Varint(42)), (1, Value::Sized(vec![1, 2, 3]))];
    assert_eq!(encode_message(&fields), vec![0x18u8, 0x2a, 0x0a, 3, 1, 2, 3]);
    assert_eq!(encode_message(&vec![]), Vec::<u8>::new());
}

#[test]
fn known_fields_are_decoded_in_order() {
    let schema = schema_of(&[(3, WireType::Varint), (1, WireType::Sized)]);
    let fields = vec![
        (3u16, Value::Varint(42)),
        (1, Value::Sized(vec![1, 2, 3])),
        (3, Value::Varint(0)),
    ];
    assert_eq!(decode_message(&encode_message(&fields), &schema), Ok(fields));
    assert_eq!(decode_message(&[], &schema), Ok(vec![]));
}

#[test]
fn an_unknown_sized_field_is_skipped_whatever_its_length() {
    let schema = schema_of(&[(1, WireType::Varint), (2, WireType::Sized)]);
    for len in [0usize, 1, 2, 127, 128, 300, 70000] {
        let content: Vec<u8> = (0..len).map(|i| (i % 251) as u8).collect();
        let mut bytes = encode_field(1, &Value::Varint(7));
        bytes.extend(encode_field(9, &Value::Sized(content)));
        bytes.extend(encode_field(2, &Value::Sized(vec![0x18, 0x2a])));
        assert_eq!(
            decode_message(&bytes, &schema),
            Ok(vec![(1u16, Value::Varint(7)), (2, Value::Sized(vec![0x18, 0x2a]))])
        );
    }
}

#[test]
fn an_unknown_varint_field_is_skipped() {
    let schema = schema_of(&[(1, WireType::Varint)]);
    let mut bytes = encode_field(5, &Value::Varint(u64::MAX));
    bytes.extend(encode_field(1, &Value::Varint(7)));
    bytes.extend(encode_field(6, &Value::Varint(0)));
    assert_eq!(decode_message(&bytes, &schema), Ok(vec![(1u16, Value::Varint(7))]));
}

#[test]
fn a_known_tag_under_the_other_wire_type_is_skipped() {
    let schema = schema_of(&[(1, WireType::Varint), (2, WireType::Sized)]);
    let mut bytes = encode_field(1, &Value::Sized(vec![1, 2]));
    bytes.extend(encode_field(2, &Value::Varint(3)));
    bytes.extend(encode_field(1, &Value::Varint(4)));
    assert_eq!(decode_message(&bytes, &schema), Ok(vec![(1u16, Value::Varint(4))]));
}

#[test]
fn a_broken_field_fails_the_message() {
    let schema = schema_of(&[(1, WireType::Varint)]);
    let mut bytes = encode_field(1, &Value::Varint(7));
    bytes.extend([0x4au8, 5, 1]);
    assert_eq!(decode_message(&bytes, &schema), Err(DecodeError::LengthExceedsBuffer));
    let mut bytes = encode_field(1, &Value::Varint(7));
    bytes.push(0x49);
    assert_eq!(decode_message(&bytes, &schema), Err(DecodeError::InvalidHeader));
    let mut bytes = encode_field(1, &Value::Varint(7));
    bytes.push(0x48);
    assert_eq!(decode_message(&bytes, &schema), Err(DecodeError::Truncated));
    let mut bytes = encode_field(1, &Value::Varint(7));
    bytes.push(0x08);
    bytes.extend([0x80u8; 10]);
    assert_eq!(decode_message(&bytes, &schema), Err(DecodeError::InvalidVarint));
}

#[test]
fn a_nested_state_is_a_length_and_a_message() {
    let schema = schema_of(&[(1, WireType::Varint)]);
    let message = encode_message(&vec![(1u16, Value::Varint(7)), (4, Value::Varint(1))]);
    let mut bytes = vec![message.len() as u8];
    bytes.extend(message);
    bytes.extend([0xffu8, 0xff]);
    assert_eq!(decode_nested(&bytes, &schema), Ok((vec![(1u16, Value::Varint(7))], 5)));
    assert_eq!(decode_nested(&[0], &schema), Ok((vec![], 1)));
    assert_eq!(decode_nested(&[3, 0x08, 7], &schema), Err(DecodeError::LengthExceedsBuffer));
    assert_eq!(decode_nested(&[], &schema), Err(DecodeError::Truncated));
    assert_eq!(decode_nested(&[1, 0x08], &schema), Err(DecodeError::Truncated));
}

fn primitive(name: &str, tag: u16, ty: &str) -> Field {
    Field { name: name.to_string(), tag, ty: FieldType::Primitive(ty.to_string()) }
}

fn nested(name: &str, tag: u16, ty: &str) -> Field {
    let described = Struct { name: ty.to_string(), fields: vec![] };
    Field { name: name.to_string(), tag, ty: FieldType::Meta(Box::new(Meta::Struct(described))) }
}

#[test]
fn a_struct_gives_the_table_of_its_fields() {
    let described = Struct {
        name: "Point".to_string(),
        fields: vec![primitive("x", 0, "i32"), nested("inner", 7, "Inner"), primitive("y", 1, "u8")],
    };
    let schema = described.schema().ok().unwrap();
    assert_eq!(schema.wire_type_for(0), Some(WireType::Varint));
    assert_eq!(schema.wire_type_for(1), Some(WireType::Varint));
    assert_eq!(schema.wire_type_for(7), Some(WireType::Sized));
    assert_eq!(schema.wire_type_for(2), None);
}

#[test]
fn a_struct_with_one_tag_for_two_wire_types_has_no_table() {
    let described = Struct {
        name: "Broken".to_string(),
        fields: vec![primitive("x", 3, "i32"), primitive("y", 4, "u8"), nested("z", 3, "Inner")],
    };
    assert_eq!(described.schema().err(), Some(SchemaError::WireTypeChanged));
    let repeated = Struct {
        name: "Repeated".to_string(),
        fields: vec![primitive("x", 3, "i32"), primitive("y", 3, "u8")],
    };
    assert!(repeated.schema().is_ok());
}

#[test]
fn field_types_travel_by_their_kind() {
    assert_eq!(FieldType::Primitive("u8".to_string()).wire_type(), WireType::Varint);
    assert!(!FieldType::Primitive("u8".to_string()).is_meta());
    let list = FieldType::Meta(Box::new(Meta::List(primitive("item", 0, "u8"))));
    assert_eq!(list.wire_type(), WireType::Sized);
    assert!(list.is_meta());
}
