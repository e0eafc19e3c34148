//! Encoding of each protocol value kind into its storage field value.

use opcua_proxy::variant::{
    encode, guid_text, storage_value_eq, ArrayValue, LocalizedText, StorageValue, Variant,
};

fn assert_encodes(value: Variant, expected: StorageValue) {
    let encoded = encode(&value);
    assert!(
        storage_value_eq(&encoded, &expected),
        "encoded {:?}, expected {:?}",
        encoded,
        expected
    );
}

#[test]
fn empty() {
    assert_encodes(Variant::Empty, StorageValue::Null);
}

#[test]
fn boolean() {
    assert_encodes(Variant::Boolean(true), StorageValue::Boolean(true));
}

#[test]
fn sbyte() {
    assert_encodes(Variant::SByte(i8::MIN), StorageValue::Int32(-128));
}

#[test]
fn byte() {
    assert_encodes(Variant::Byte(u8::MAX), StorageValue::Int32(255));
}

#[test]
fn int16() {
    assert_encodes(Variant::Int16(i16::MIN), StorageValue::Int32(-32768));
}

#[test]
fn uint16() {
    assert_encodes(Variant::UInt16(u16::MAX), StorageValue::Int32(65535));
}

#[test]
fn int32() {
    assert_encodes(Variant::Int32(i32::MIN), StorageValue::Int32(-2147483648));
}

#[test]
fn uint32() {
    assert_encodes(Variant::UInt32(u32::MAX), StorageValue::Int64(4294967295));
}

#[test]
fn int64() {
    assert_encodes(
        Variant::Int64(i64::MIN),
        StorageValue::Int64(-9223372036854775808),
    );
}

#[test]
fn uint64() {
    assert_encodes(
        Variant::UInt64(u64::from(u32::MAX)),
        StorageValue::Int64(4294967295),
    );
}

#[test]
fn uint64_overflowing() {
    assert_encodes(Variant::UInt64(u64::MAX), StorageValue::Null);
}

#[test]
fn float() {
    let bits = (42.0f32 as f64).to_bits();
    let encoded = encode(&Variant::Float(bits));
    match encoded {
        StorageValue::Double(b) => assert_eq!(f64::from_bits(b), 42.0),
        other => panic!("expected a double, got {other:?}"),
    }
}

#[test]
fn double() {
    let bits = 456.54f64.to_bits();
    let encoded = encode(&Variant::Double(bits));
    match encoded {
        StorageValue::Double(b) => assert_eq!(f64::from_bits(b), 456.54),
        other => panic!("expected a double, got {other:?}"),
    }
}

#[test]
fn null_string() {
    assert_encodes(Variant::Text(None), StorageValue::Text(String::new()));
}

#[test]
fn string() {
    assert_encodes(
        Variant::Text(Some("test string".to_string())),
        StorageValue::Text("test string".to_string()),
    );
}

#[test]
fn null_localized_text() {
    assert_encodes(
        Variant::LocalizedText(LocalizedText {
            locale: String::new(),
            text: String::new(),
        }),
        StorageValue::Text(String::new()),
    );
}

#[test]
fn localized_text() {
    assert_encodes(
        Variant::LocalizedText(LocalizedText {
            locale: "somelocale".to_string(),
            text: "some text".to_string(),
        }),
        StorageValue::Text("some text".to_string()),
    );
}

#[test]
fn datetime() {
    assert_encodes(
        Variant::DateTime(0),
        StorageValue::Text("1601-01-01T00:00:00Z".to_string()),
    );
}

#[test]
fn guid() {
    assert_encodes(
        Variant::Guid([0u8; 16]),
        StorageValue::Text("00000000-0000-0000-0000-000000000000".to_string()),
    );
}

#[test]
fn statuscode() {
    assert_encodes(
        Variant::StatusCode(0x8001_0000),
        StorageValue::Int64(2147549184),
    );
}

#[test]
fn null_bytestring() {
    assert_encodes(Variant::ByteString(None), StorageValue::Binary(vec![]));
}

#[test]
fn bytestring() {
    assert_encodes(
        Variant::ByteString(Some(vec![1, 2, 3, 4])),
        StorageValue::Binary(vec![1, 2, 3, 4]),
    );
}

#[test]
fn one_dimension_array() {
    let values = (1u8..=4u8).map(Variant::Byte).collect::<Vec<_>>();
    assert_encodes(
        Variant::Array(Box::new(ArrayValue {
            values,
            dimensions: None,
        })),
        StorageValue::List(vec![
            StorageValue::Int32(1),
            StorageValue::Int32(2),
            StorageValue::Int32(3),
            StorageValue::Int32(4),
        ]),
    );
}

#[test]
fn multi_dimension_array() {
    let values = (1u8..=4u8).map(Variant::Byte).collect::<Vec<_>>();
    assert_encodes(
        Variant::Array(Box::new(ArrayValue {
            values,
            dimensions: Some(vec![2, 2]),
        })),
        StorageValue::Null,
    );
}

#[test]
fn unimplemented() {
    assert_encodes(Variant::Unsupported, StorageValue::Null);
}

#[test]
fn nested_array_encodes_recursively() {
    let inner = Variant::Array(Box::new(ArrayValue {
        values: vec![Variant::Byte(7)],
        dimensions: None,
    }));
    assert_encodes(
        Variant::Array(Box::new(ArrayValue {
            values: vec![inner],
            dimensions: None,
        })),
        StorageValue::List(vec![StorageValue::List(vec![StorageValue::Int32(7)])]),
    );
}

#[test]
fn guid_text_renders_canonically() {
    let bytes: [u8; 16] = [
        0x00, 0x11, 0x22, 0x33, 0x44, 0x55, 0x66, 0x77, 0x88, 0x99, 0xaa, 0xbb, 0xcc, 0xdd, 0xee,
        0xff,
    ];
    assert_eq!(guid_text(&bytes), "00112233-4455-6677-8899-aabbccddeeff");
}

#[test]
fn datetime_with_subseconds() {
    // 100 ticks past the epoch second boundary: ten microseconds.
    let ticks: i64 = 116_444_736_000_000_000 + 100;
    let encoded = encode(&Variant::DateTime(ticks));
    match encoded {
        StorageValue::Text(s) => assert_eq!(s, "1970-01-01T00:00:00.000010Z"),
        other => panic!("expected text, got {other:?}"),
    }
}
