use mdcs::codec::{decode_value, encode_value};
use mdcs::schema::Schema;
use mdcs::value::Value;

fn round_trip(schema: Schema, value: Value) {
    let bytes = encode_value(&schema, &value).expect("value conforms to its schema");
    let (decoded, end) = decode_value(&schema, &bytes, 0).expect("own encoding decodes");
    assert_eq!(decoded, value);
    assert_eq!(end, bytes.len());
}

#[test]
fn round_trips_every_schema() {
    round_trip(Schema::Null, Value::Null);
    round_trip(Schema::Boolean, Value::Boolean(true));
    round_trip(Schema::Boolean, Value::Boolean(false));
    round_trip(Schema::Int, Value::Int(0));
    round_trip(Schema::Int, Value::Int(-2147483648));
    round_trip(Schema::Int, Value::Int(2147483647));
    round_trip(Schema::Long, Value::Long(-1));
    round_trip(Schema::Long, Value::Long(i64::MIN));
    round_trip(Schema::Long, Value::Long(i64::MAX));
    round_trip(Schema::Double, Value::Double(0x400921FB54442D18));
    round_trip(Schema::Bytes, Value::Bytes(vec![]));
    round_trip(Schema::Bytes, Value::Bytes(vec![0, 255, 7]));
    round_trip(Schema::String, Value::String(String::new()));
    round_trip(Schema::String, Value::String("ABC123".to_string()));
    round_trip(Schema::String, Value::String("héllo wörld".to_string()));
}

#[test]
fn string_encoding_is_length_then_utf8() {
    let bytes = encode_value(&Schema::String, &Value::String("ABC123".to_string())).unwrap();
    assert_eq!(
        bytes,
        vec![6, 0, 0, 0, 0, 0, 0, 0, 65, 66, 67, 49, 50, 51]
    );
}

#[test]
fn long_encoding_is_offset_binary() {
    let bytes = encode_value(&Schema::Long, &Value::Long(-1)).unwrap();
    assert_eq!(bytes, vec![255, 255, 255, 255, 255, 255, 255, 127]);
    let bytes = encode_value(&Schema::Long, &Value::Long(0)).unwrap();
    assert_eq!(bytes, vec![0, 0, 0, 0, 0, 0, 0, 128]);
}

#[test]
fn int_encoding_is_offset_binary() {
    let bytes = encode_value(&Schema::Int, &Value::Int(0)).unwrap();
    assert_eq!(bytes, vec![0, 0, 0, 128]);
}

#[test]
fn mismatched_value_is_refused() {
    assert!(encode_value(&Schema::Int, &Value::String("5".to_string())).is_none());
    assert!(encode_value(&Schema::Null, &Value::Boolean(true)).is_none());
}

#[test]
fn malformed_bytes_are_refused() {
    // a boolean must be exactly 0 or 1
    assert!(decode_value(&Schema::Boolean, &[2], 0).is_none());
    // too short for the fixed width
    assert!(decode_value(&Schema::Long, &[1, 2, 3], 0).is_none());
    // length prefix promising more than the buffer holds
    assert!(decode_value(&Schema::Bytes, &[9, 0, 0, 0, 0, 0, 0, 0, 1], 0).is_none());
    // invalid UTF-8 under a string schema
    assert!(decode_value(&Schema::String, &[1, 0, 0, 0, 0, 0, 0, 0, 0xFF], 0).is_none());
}

#[test]
fn decode_advances_past_one_datum() {
    let mut stream = Vec::new();
    stream.extend_from_slice(&encode_value(&Schema::Boolean, &Value::Boolean(true)).unwrap());
    stream.extend_from_slice(&encode_value(&Schema::Int, &Value::Int(7)).unwrap());
    let (first, after_first) = decode_value(&Schema::Boolean, &stream, 0).unwrap();
    assert_eq!(first, Value::Boolean(true));
    let (second, end) = decode_value(&Schema::Int, &stream, after_first).unwrap();
    assert_eq!(second, Value::Int(7));
    assert_eq!(end, stream.len());
}
