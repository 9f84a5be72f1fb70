use steit::serialize::{zigzag_decode, zigzag_encode, Serialize};
use steit::wire::Value;

#[test]
fn zigzag_interleaves_the_signs() {
    assert_eq!(zigzag_encode(0), 0);
    assert_eq!(zigzag_encode(-1), 1);
    assert_eq!(zigzag_encode(1), 2);
    assert_eq!(zigzag_encode(-2), 3);
    assert_eq!(zigzag_encode(2), 4);
    assert_eq!(zigzag_encode(i64::MAX), u64::MAX - 1);
    assert_eq!(zigzag_encode(i64::MIN), u64::MAX);
}

#[test]
fn zigzag_decode_undoes_encode() {
    for v in [0i64, 1, -1, 2, -2, 63, -64, 64, i64::MAX, i64::MIN, i64::MIN + 1] {
        assert_eq!(zigzag_decode(zigzag_encode(v)), v);
    }
    for n in [0u64, 1, 2, 3, 4, u64::MAX, u64::MAX - 1, 1 << 63] {
        assert_eq!(zigzag_encode(zigzag_decode(n)), n);
    }
    assert_eq!(zigzag_decode(u64::MAX), i64::MIN);
    assert_eq!(zigzag_decode(3), -2);
}

#[test]
fn unsigned_scalars_travel_as_themselves() {
    assert_eq!(0u8.to_value(), Value::Varint(0));
    assert_eq!(255u8.to_value(), Value::Varint(255));
    assert_eq!(65535u16.to_value(), Value::Varint(65535));
    assert_eq!(42u32.to_value(), Value::Varint(42));
    assert_eq!(u32::MAX.to_value(), Value::Varint(4294967295));
    assert_eq!(u64::MAX.to_value(), Value::Varint(u64::MAX));
}

#[test]
fn booleans_travel_as_zero_and_one() {
    assert_eq!(false.to_value(), Value::Varint(0));
    assert_eq!(true.to_value(), Value::Varint(1));
}

#[test]
fn signed_scalars_travel_in_zigzag() {
    assert_eq!(0i8.to_value(), Value::Varint(0));
    assert_eq!((-1i8).to_value(), Value::Varint(1));
    assert_eq!(i8::MIN.to_value(), Value::Varint(255));
    assert_eq!(i8::MAX.to_value(), Value::Varint(254));
    assert_eq!((-300i16).to_value(), Value::Varint(599));
    assert_eq!(i32::MAX.to_value(), Value::Varint(4294967294));
    assert_eq!(i32::MIN.to_value(), Value::Varint(4294967295));
    assert_eq!(7i64.to_value(), Value::Varint(14));
    assert_eq!(i64::MIN.to_value(), Value::Varint(u64::MAX));
}

#[test]
fn wire_values_travel_as_they_are() {
    assert_eq!(Value::Varint(9).to_value(), Value::Varint(9));
    assert_eq!(Value::Sized(vec![1, 2]).to_value(), Value::Sized(vec![1, 2]));
}
