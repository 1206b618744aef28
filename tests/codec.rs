use ink_dispatch::codec::{decode_args_at, decode_value_at, encode, encode_result, encode_tuple, ArgType, Value};
use parity_scale_codec::Encode;

fn samples() -> Vec<Value> {
    vec![
        Value::Bool(false),
        Value::Bool(true),
        Value::U8(0),
        Value::U8(255),
        Value::U16(0xBEEF),
        Value::U32(41),
        Value::U32(u32::MAX),
        Value::U64(0x0102_0304_0506_0708),
        Value::U128(u128::MAX),
        Value::U128(1 << 100),
    ]
}

fn type_of(v: &Value) -> ArgType {
    match v {
        Value::Bool(_) => ArgType::Bool,
        Value::U8(_) => ArgType::U8,
        Value::U16(_) => ArgType::U16,
        Value::U32(_) => ArgType::U32,
        Value::U64(_) => ArgType::U64,
        Value::U128(_) => ArgType::U128,
    }
}

#[test]
fn encoding_matches_scale() {
    assert_eq!(encode(Value::Bool(true)), true.encode());
    assert_eq!(encode(Value::U8(200)), 200u8.encode());
    assert_eq!(encode(Value::U16(0xBEEF)), 0xBEEFu16.encode());
    assert_eq!(encode(Value::U32(41)), 41u32.encode());
    assert_eq!(encode(Value::U64(0x0102_0304_0506_0708)), 0x0102_0304_0506_0708u64.encode());
    assert_eq!(encode(Value::U128(u128::MAX - 5)), (u128::MAX - 5).encode());
    assert_eq!(encode(Value::U32(41)), vec![41, 0, 0, 0]);
}

#[test]
fn tuple_encoding_matches_scale() {
    let vs = [Value::U8(1), Value::U32(2), Value::Bool(true)];
    assert_eq!(encode_tuple(&vs), (1u8, 2u32, true).encode());
    assert_eq!(encode_tuple(&[]), Vec::<u8>::new());
    assert_eq!(encode_tuple(&[Value::U16(7)]), 7u16.encode());
}

#[test]
fn decoding_an_encoding_gives_the_value_back() {
    for v in samples() {
        let mut bytes = encode(v);
        assert_eq!(decode_value_at(type_of(&v), &bytes, 0), Some(v));
        bytes.extend_from_slice(&[9, 9, 9]);
        assert_eq!(decode_value_at(type_of(&v), &bytes, 0), Some(v));
    }
}

#[test]
fn decoding_an_encoded_tuple_gives_the_tuple_back() {
    let vs = samples();
    let ts: Vec<ArgType> = vs.iter().map(type_of).collect();
    let bytes = encode_tuple(&vs);
    assert_eq!(decode_args_at(&ts, &bytes, 0), Some(vs.clone()));
    let mut prefixed = vec![1, 2, 3];
    prefixed.extend_from_slice(&bytes);
    assert_eq!(decode_args_at(&ts, &prefixed, 3), Some(vs));
}

#[test]
fn short_or_invalid_bytes_do_not_decode() {
    assert_eq!(decode_value_at(ArgType::U32, &[1, 2, 3], 0), None);
    assert_eq!(decode_value_at(ArgType::U128, &[0; 16], 1), None);
    assert_eq!(decode_value_at(ArgType::Bool, &[2], 0), None);
    assert_eq!(decode_value_at(ArgType::Bool, &[], 0), None);
    assert_eq!(decode_args_at(&[ArgType::U8, ArgType::U16], &[1, 2], 0), None);
    assert_eq!(decode_args_at(&[], &[], 0), Some(vec![]));
}

#[test]
fn result_encoding_is_empty_without_a_value() {
    assert_eq!(encode_result(None), Vec::<u8>::new());
    assert_eq!(encode_result(Some(Value::U16(0x0102))), vec![2, 1]);
}
