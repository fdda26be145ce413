use iostio_core_derive::declaration::{Body, Member, TypeDeclaration};
use iostio_core_derive::error::{EncodeError, ReadError};
use iostio_core_derive::schema::{IntKind, TypeRef};
use iostio_core_derive::value::{Integer, Value};
use iostio_core_derive::{
    derive_digest, derive_num_bytes, derive_read, derive_serialize_data, derive_write,
};

fn member(name: &str, ty: TypeRef) -> Member {
    Member { name: name.to_string(), ty, attrs: Vec::new() }
}

fn record(fields: Vec<(&str, TypeRef)>) -> TypeDeclaration {
    TypeDeclaration {
        name: "Record".to_string(),
        attrs: Vec::new(),
        body: Body::Struct(fields.into_iter().map(|(name, ty)| member(name, ty)).collect()),
    }
}

fn choice(variants: Vec<(&str, TypeRef)>) -> TypeDeclaration {
    TypeDeclaration {
        name: "Choice".to_string(),
        attrs: Vec::new(),
        body: Body::Enum(variants.into_iter().map(|(name, ty)| member(name, ty)).collect()),
    }
}

fn one(ty: TypeRef) -> TypeDeclaration {
    record(vec![("only", ty)])
}

fn serialize(decl: &TypeDeclaration, value: &Value) -> Vec<u8> {
    let writer = derive_write(decl).unwrap();
    let mut bytes = Vec::new();
    let mut pos = 0usize;
    writer.write(value, &mut bytes, &mut pos).unwrap();
    assert_eq!(pos, bytes.len());
    bytes
}

fn deserialize(decl: &TypeDeclaration, bytes: &[u8]) -> Result<(Value, usize), ReadError> {
    let reader = derive_read(decl).unwrap();
    let mut pos = 0usize;
    reader.read(bytes, &mut pos).map(|value| (value, pos))
}

fn fnv(bytes: Vec<u8>) -> Vec<u8> {
    let mut state: u64 = 0xcbf2_9ce4_8422_2325;
    for byte in bytes {
        state ^= byte as u64;
        state = state.wrapping_mul(0x0000_0100_0000_01b3);
    }
    state.to_le_bytes().to_vec()
}

fn everything() -> (TypeDeclaration, Value) {
    let inner = TypeRef::Product(vec![TypeRef::Int(IntKind::I16), TypeRef::Optional(Box::new(TypeRef::Str))]);
    let either = TypeRef::Sum(vec![TypeRef::Product(Vec::new()), TypeRef::Int(IntKind::U64), TypeRef::Bool]);
    let decl = record(vec![
        ("flag", TypeRef::Bool),
        ("tiny", TypeRef::Int(IntKind::I8)),
        ("wide", TypeRef::Int(IntKind::I64)),
        ("count", TypeRef::VarUint),
        ("label", TypeRef::Str),
        ("rows", TypeRef::List(Box::new(inner))),
        ("maybe", TypeRef::Optional(Box::new(TypeRef::Int(IntKind::U32)))),
        ("either", either),
    ]);
    let value = Value::Product(vec![
        Value::Bool(true),
        Value::Int(Integer::I8(-128)),
        Value::Int(Integer::I64(-2)),
        Value::VarUint(70_000),
        Value::text("héllo"),
        Value::List(vec![
            Value::Product(vec![Value::Int(Integer::I16(-1)), Value::Optional(None)]),
            Value::Product(vec![
                Value::Int(Integer::I16(258)),
                Value::Optional(Some(Box::new(Value::text("x")))),
            ]),
        ]),
        Value::Optional(Some(Box::new(Value::Int(Integer::U32(7))))),
        Value::Sum(1, Box::new(Value::Int(Integer::U64(u64::MAX)))),
    ]);
    (decl, value)
}

#[test]
fn product_of_count_and_name_serializes_to_eight_bytes() {
    let decl = record(vec![("count", TypeRef::Int(IntKind::U32)), ("name", TypeRef::Str)]);
    let value = Value::Product(vec![Value::Int(Integer::U32(300)), Value::text("abc")]);
    let bytes = serialize(&decl, &value);
    assert_eq!(bytes, vec![0x2C, 0x01, 0x00, 0x00, 0x03, 0x61, 0x62, 0x63]);
    assert_eq!(derive_num_bytes(&decl).unwrap().num_bytes(&value), Ok(8));
    assert_eq!(deserialize(&decl, &bytes), Ok((value, 8)));
}

#[test]
fn second_variant_holding_true_serializes_to_two_bytes() {
    let decl = choice(vec![("Nothing", TypeRef::Product(Vec::new())), ("Flag", TypeRef::Bool)]);
    let value = Value::Sum(1, Box::new(Value::Bool(true)));
    let bytes = serialize(&decl, &value);
    assert_eq!(bytes, vec![0x01, 0x01]);
    assert_eq!(deserialize(&decl, &bytes), Ok((value, 2)));
    assert_eq!(deserialize(&decl, &[0x02, 0x01]), Err(ReadError::InvalidDiscriminant));
}

#[test]
fn deserializing_what_was_serialized_gives_the_value_back() {
    let (decl, value) = everything();
    let bytes = serialize(&decl, &value);
    assert_eq!(deserialize(&decl, &bytes), Ok((value, bytes.len())));
}

#[test]
fn round_trip_leaves_following_bytes_alone() {
    let (decl, value) = everything();
    let mut bytes = vec![0xEE, 0xEE];
    let writer = derive_write(&decl).unwrap();
    let mut pos = 2usize;
    writer.write(&value, &mut bytes, &mut pos).unwrap();
    let end = pos;
    bytes.extend_from_slice(&[0x55, 0x55, 0x55]);
    let reader = derive_read(&decl).unwrap();
    let mut cursor = 2usize;
    assert_eq!(reader.read(&bytes, &mut cursor), Ok(value));
    assert_eq!(cursor, end);
}

#[test]
fn size_is_the_length_of_the_serialized_bytes() {
    let (decl, value) = everything();
    let bytes = serialize(&decl, &value);
    assert_eq!(derive_num_bytes(&decl).unwrap().num_bytes(&value), Ok(bytes.len()));
    let unit = record(Vec::new());
    assert_eq!(derive_num_bytes(&unit).unwrap().num_bytes(&Value::Product(Vec::new())), Ok(0));
}

#[test]
fn size_of_each_kind_of_item() {
    let cases: Vec<(TypeRef, Value, usize)> = vec![
        (TypeRef::Bool, Value::Bool(false), 1),
        (TypeRef::Int(IntKind::U8), Value::Int(Integer::U8(1)), 1),
        (TypeRef::Int(IntKind::I16), Value::Int(Integer::I16(1)), 2),
        (TypeRef::Int(IntKind::U32), Value::Int(Integer::U32(1)), 4),
        (TypeRef::Int(IntKind::I64), Value::Int(Integer::I64(1)), 8),
        (TypeRef::VarUint, Value::VarUint(127), 1),
        (TypeRef::VarUint, Value::VarUint(128), 2),
        (TypeRef::VarUint, Value::VarUint(u64::MAX), 10),
        (TypeRef::Str, Value::text(""), 1),
        (TypeRef::Str, Value::Str(vec![7; 200]), 202),
        (
            TypeRef::List(Box::new(TypeRef::Int(IntKind::U16))),
            Value::List(vec![Value::Int(Integer::U16(1)), Value::Int(Integer::U16(2))]),
            5,
        ),
        (TypeRef::Optional(Box::new(TypeRef::Bool)), Value::Optional(None), 1),
        (
            TypeRef::Optional(Box::new(TypeRef::Bool)),
            Value::Optional(Some(Box::new(Value::Bool(true)))),
            2,
        ),
        (
            TypeRef::Sum(vec![TypeRef::Int(IntKind::U32)]),
            Value::Sum(0, Box::new(Value::Int(Integer::U32(9)))),
            5,
        ),
    ];
    for (ty, value, expected) in cases {
        let decl = one(ty);
        let row = Value::Product(vec![value]);
        assert_eq!(derive_num_bytes(&decl).unwrap().num_bytes(&row), Ok(expected));
        assert_eq!(serialize(&decl, &row).len(), expected);
    }
}

#[test]
fn every_proper_prefix_underruns() {
    let (decl, value) = everything();
    let bytes = serialize(&decl, &value);
    for cut in 0..bytes.len() {
        assert_eq!(deserialize(&decl, &bytes[..cut]), Err(ReadError::Underrun));
    }
    let scenario = record(vec![("count", TypeRef::Int(IntKind::U32)), ("name", TypeRef::Str)]);
    let full = [0x2C, 0x01, 0x00, 0x00, 0x03, 0x61, 0x62, 0x63];
    for cut in 0..full.len() {
        assert_eq!(deserialize(&scenario, &full[..cut]), Err(ReadError::Underrun));
    }
}

#[test]
fn discriminant_beyond_the_variants_is_rejected() {
    let decl = choice(vec![
        ("A", TypeRef::Bool),
        ("B", TypeRef::Bool),
        ("C", TypeRef::Bool),
    ]);
    assert_eq!(deserialize(&decl, &[3, 1]), Err(ReadError::InvalidDiscriminant));
    assert_eq!(deserialize(&decl, &[255, 1]), Err(ReadError::InvalidDiscriminant));
    assert_eq!(deserialize(&decl, &[3]), Err(ReadError::InvalidDiscriminant));
    assert_eq!(
        deserialize(&decl, &[2, 1]),
        Ok((Value::Sum(2, Box::new(Value::Bool(true))), 2))
    );
    assert_eq!(deserialize(&decl, &[]), Err(ReadError::Underrun));
}

#[test]
fn exchanging_two_fields_changes_the_bytes() {
    let forth = record(vec![("a", TypeRef::Int(IntKind::U16)), ("b", TypeRef::Str)]);
    let back = record(vec![("b", TypeRef::Str), ("a", TypeRef::Int(IntKind::U16))]);
    let a = Value::Int(Integer::U16(0x0102));
    let b = Value::text("z");
    let one_way = serialize(&forth, &Value::Product(vec![a.clone(), b.clone()]));
    let other_way = serialize(&back, &Value::Product(vec![b, a]));
    assert_eq!(one_way, vec![0x02, 0x01, 0x01, 0x7A]);
    assert_eq!(other_way, vec![0x01, 0x7A, 0x02, 0x01]);
    assert_ne!(one_way, other_way);
}

#[test]
fn digest_is_the_hash_of_the_serialized_bytes() {
    let (decl, value) = everything();
    let bytes = serialize(&decl, &value);
    let digester = derive_digest(&decl).unwrap();
    let first = digester.digest(&value, fnv).unwrap();
    let second = digester.digest(&value, fnv).unwrap();
    assert_eq!(first, fnv(bytes));
    assert_eq!(first, second);
    assert_eq!(first.len(), 8);
    let copy = value.clone();
    assert_eq!(digester.digest(&copy, fnv).unwrap(), first);
}

#[test]
fn digest_of_known_bytes() {
    let decl = one(TypeRef::Int(IntKind::U8));
    let digester = derive_digest(&decl).unwrap();
    let value = Value::Product(vec![Value::Int(Integer::U8(0x61))]);
    let expected = 0xaf63_dc4c_8601_ec8c_u64.to_le_bytes().to_vec();
    assert_eq!(digester.digest(&value, fnv), Ok(expected));
}

#[test]
fn payload_is_the_serialized_value() {
    let (decl, value) = everything();
    let payload = derive_serialize_data(&decl).unwrap().to_serialize_data(&value).unwrap();
    assert_eq!(payload, serialize(&decl, &value));
    let scenario = record(vec![("count", TypeRef::Int(IntKind::U32)), ("name", TypeRef::Str)]);
    let row = Value::Product(vec![Value::Int(Integer::U32(300)), Value::text("abc")]);
    assert_eq!(
        derive_serialize_data(&scenario).unwrap().to_serialize_data(&row),
        Ok(vec![0x2C, 0x01, 0x00, 0x00, 0x03, 0x61, 0x62, 0x63])
    );
}

#[test]
fn variable_length_integers_use_seven_bit_groups() {
    let decl = one(TypeRef::VarUint);
    let cases: Vec<(u64, Vec<u8>)> = vec![
        (0, vec![0x00]),
        (1, vec![0x01]),
        (127, vec![0x7F]),
        (128, vec![0x80, 0x01]),
        (300, vec![0xAC, 0x02]),
        (16_383, vec![0xFF, 0x7F]),
        (16_384, vec![0x80, 0x80, 0x01]),
        (u64::MAX, vec![0xFF, 0xFF, 0xFF, 0xFF, 0xFF, 0xFF, 0xFF, 0xFF, 0xFF, 0x01]),
    ];
    for (number, expected) in cases {
        let row = Value::Product(vec![Value::VarUint(number)]);
        assert_eq!(serialize(&decl, &row), expected);
        assert_eq!(deserialize(&decl, &expected), Ok((row, expected.len())));
    }
}

#[test]
fn fixed_width_integers_are_little_endian() {
    let cases: Vec<(IntKind, Integer, Vec<u8>)> = vec![
        (IntKind::U8, Integer::U8(0xAB), vec![0xAB]),
        (IntKind::U16, Integer::U16(0x1234), vec![0x34, 0x12]),
        (IntKind::U32, Integer::U32(0x1234_5678), vec![0x78, 0x56, 0x34, 0x12]),
        (
            IntKind::U64,
            Integer::U64(0x0102_0304_0506_0708),
            vec![0x08, 0x07, 0x06, 0x05, 0x04, 0x03, 0x02, 0x01],
        ),
        (IntKind::U64, Integer::U64(u64::MAX), vec![0xFF; 8]),
        (IntKind::I8, Integer::I8(-1), vec![0xFF]),
        (IntKind::I8, Integer::I8(-128), vec![0x80]),
        (IntKind::I8, Integer::I8(127), vec![0x7F]),
        (IntKind::I16, Integer::I16(-2), vec![0xFE, 0xFF]),
        (IntKind::I16, Integer::I16(i16::MIN), vec![0x00, 0x80]),
        (IntKind::I32, Integer::I32(-2), vec![0xFE, 0xFF, 0xFF, 0xFF]),
        (IntKind::I32, Integer::I32(i32::MAX), vec![0xFF, 0xFF, 0xFF, 0x7F]),
        (IntKind::I64, Integer::I64(-1), vec![0xFF; 8]),
        (IntKind::I64, Integer::I64(i64::MIN), vec![0, 0, 0, 0, 0, 0, 0, 0x80]),
        (IntKind::I64, Integer::I64(i64::MAX), vec![0xFF, 0xFF, 0xFF, 0xFF, 0xFF, 0xFF, 0xFF, 0x7F]),
    ];
    for (kind, number, expected) in cases {
        let decl = one(TypeRef::Int(kind));
        let row = Value::Product(vec![Value::Int(number)]);
        assert_eq!(serialize(&decl, &row), expected);
        assert_eq!(deserialize(&decl, &expected), Ok((row, expected.len())));
    }
}

#[test]
fn integer_bits_are_twos_complement() {
    assert_eq!(Integer::I8(-1).to_bits(), 0xFF);
    assert_eq!(Integer::I16(-1).to_bits(), 0xFFFF);
    assert_eq!(Integer::I32(-1).to_bits(), 0xFFFF_FFFF);
    assert_eq!(Integer::I64(-1).to_bits(), u64::MAX);
    assert_eq!(Integer::I64(i64::MIN).to_bits(), 1 << 63);
    assert_eq!(Integer::U32(5).to_bits(), 5);
    assert_eq!(Integer::from_bits(IntKind::I8, 0x80), Integer::I8(-128));
    assert_eq!(Integer::from_bits(IntKind::I16, 0xFFFE), Integer::I16(-2));
    assert_eq!(Integer::from_bits(IntKind::I32, 0x7FFF_FFFF), Integer::I32(i32::MAX));
    assert_eq!(Integer::from_bits(IntKind::I64, u64::MAX), Integer::I64(-1));
    assert_eq!(Integer::from_bits(IntKind::U16, 0xFFFF), Integer::U16(0xFFFF));
    assert_eq!(Integer::I32(3).kind(), IntKind::I32);
    assert_eq!(IntKind::I32.byte_width(), 4);
    assert!(IntKind::U8.same(IntKind::U8));
    assert!(!IntKind::U8.same(IntKind::I8));
}

#[test]
fn variable_length_integer_that_does_not_end_is_malformed() {
    let decl = one(TypeRef::VarUint);
    assert_eq!(deserialize(&decl, &[0x80; 10]), Err(ReadError::MalformedVarint));
    assert_eq!(deserialize(&decl, &[0x80; 11]), Err(ReadError::MalformedVarint));
    assert_eq!(deserialize(&decl, &[0x80; 9]), Err(ReadError::Underrun));
    let mut too_wide = vec![0xFF; 9];
    too_wide.push(0x02);
    assert_eq!(deserialize(&decl, &too_wide), Err(ReadError::MalformedVarint));
    let mut widest = vec![0xFF; 9];
    widest.push(0x01);
    assert_eq!(
        deserialize(&decl, &widest),
        Ok((Value::Product(vec![Value::VarUint(u64::MAX)]), 10))
    );
}

#[test]
fn variable_length_integer_with_padding_groups_is_read() {
    let decl = one(TypeRef::VarUint);
    assert_eq!(
        deserialize(&decl, &[0x80, 0x00]),
        Ok((Value::Product(vec![Value::VarUint(0)]), 2))
    );
    assert_eq!(
        deserialize(&decl, &[0x81, 0x80, 0x00, 0x33]),
        Ok((Value::Product(vec![Value::VarUint(1)]), 3))
    );
}

#[test]
fn bytes_other_than_one_read_as_false_and_absent() {
    let flag = one(TypeRef::Bool);
    assert_eq!(deserialize(&flag, &[0]), Ok((Value::Product(vec![Value::Bool(false)]), 1)));
    assert_eq!(deserialize(&flag, &[1]), Ok((Value::Product(vec![Value::Bool(true)]), 1)));
    assert_eq!(deserialize(&flag, &[2]), Ok((Value::Product(vec![Value::Bool(false)]), 1)));
    let maybe = one(TypeRef::Optional(Box::new(TypeRef::Int(IntKind::U8))));
    assert_eq!(deserialize(&maybe, &[0]), Ok((Value::Product(vec![Value::Optional(None)]), 1)));
    assert_eq!(
        deserialize(&maybe, &[2, 9]),
        Ok((Value::Product(vec![Value::Optional(None)]), 1))
    );
    assert_eq!(
        deserialize(&maybe, &[1, 9]),
        Ok((
            Value::Product(vec![Value::Optional(Some(Box::new(Value::Int(Integer::U8(9)))))]),
            2
        ))
    );
    assert_eq!(deserialize(&maybe, &[1]), Err(ReadError::Underrun));
}

#[test]
fn optional_and_sequence_forms() {
    let maybe = one(TypeRef::Optional(Box::new(TypeRef::Int(IntKind::U8))));
    assert_eq!(serialize(&maybe, &Value::Product(vec![Value::Optional(None)])), vec![0]);
    assert_eq!(
        serialize(
            &maybe,
            &Value::Product(vec![Value::Optional(Some(Box::new(Value::Int(Integer::U8(7)))))])
        ),
        vec![1, 7]
    );
    let list = one(TypeRef::List(Box::new(TypeRef::Int(IntKind::U16))));
    assert_eq!(
        serialize(
            &list,
            &Value::Product(vec![Value::List(vec![
                Value::Int(Integer::U16(1)),
                Value::Int(Integer::U16(2))
            ])])
        ),
        vec![2, 1, 0, 2, 0]
    );
    assert_eq!(serialize(&list, &Value::Product(vec![Value::List(Vec::new())])), vec![0]);
    assert_eq!(deserialize(&list, &[2, 1, 0, 2]), Err(ReadError::Underrun));
    let text = one(TypeRef::Str);
    assert_eq!(deserialize(&text, &[3, 0x61, 0x62]), Err(ReadError::Underrun));
    assert_eq!(
        deserialize(&text, &[0xFF, 0xFF, 0xFF, 0xFF, 0xFF, 0xFF, 0xFF, 0xFF, 0xFF, 0x01, 0x61]),
        Err(ReadError::Underrun)
    );
    let long = Value::Product(vec![Value::Str(vec![0x41; 130])]);
    let bytes = serialize(&text, &long);
    assert_eq!(&bytes[..2], &[0x82, 0x01]);
    assert_eq!(bytes.len(), 132);
    assert_eq!(deserialize(&text, &bytes), Ok((long, 132)));
}

#[test]
fn sequence_of_items_without_bytes() {
    let list = one(TypeRef::List(Box::new(TypeRef::Product(Vec::new()))));
    let three = Value::Product(vec![Value::List(vec![
        Value::Product(Vec::new()),
        Value::Product(Vec::new()),
        Value::Product(Vec::new()),
    ])]);
    assert_eq!(serialize(&list, &three), vec![3]);
    assert_eq!(deserialize(&list, &[3]), Ok((three, 1)));
}

#[test]
fn write_overwrites_the_region_at_the_cursor() {
    let decl = one(TypeRef::Int(IntKind::U16));
    let writer = derive_write(&decl).unwrap();
    let value = Value::Product(vec![Value::Int(Integer::U16(0x0102))]);
    let mut bytes = vec![9, 9, 9, 9, 9];
    let mut pos = 1usize;
    assert_eq!(writer.write(&value, &mut bytes, &mut pos), Ok(()));
    assert_eq!(bytes, vec![9, 2, 1, 9, 9]);
    assert_eq!(pos, 3);
    let mut pos = 4usize;
    assert_eq!(writer.write(&value, &mut bytes, &mut pos), Ok(()));
    assert_eq!(bytes, vec![9, 2, 1, 9, 2, 1]);
    assert_eq!(pos, 6);
    assert_eq!(writer.write(&value, &mut bytes, &mut pos), Ok(()));
    assert_eq!(bytes, vec![9, 2, 1, 9, 2, 1, 2, 1]);
    assert_eq!(pos, 8);
}

#[test]
fn write_beyond_the_end_fills_the_gap_with_zeros() {
    let decl = one(TypeRef::Int(IntKind::U8));
    let writer = derive_write(&decl).unwrap();
    let value = Value::Product(vec![Value::Int(Integer::U8(5))]);
    let mut bytes = vec![9];
    let mut pos = 3usize;
    assert_eq!(writer.write(&value, &mut bytes, &mut pos), Ok(()));
    assert_eq!(bytes, vec![9, 0, 0, 5]);
    assert_eq!(pos, 4);
}

#[test]
fn value_of_another_type_is_a_mismatch() {
    let decl = record(vec![("count", TypeRef::Int(IntKind::U32)), ("name", TypeRef::Str)]);
    let wrong: Vec<Value> = vec![
        Value::Bool(true),
        Value::Product(vec![Value::Int(Integer::U32(1))]),
        Value::Product(vec![Value::Int(Integer::I32(1)), Value::text("a")]),
        Value::Product(vec![Value::text("a"), Value::Int(Integer::U32(1))]),
        Value::Product(vec![Value::Int(Integer::U32(1)), Value::text("a"), Value::Bool(true)]),
    ];
    for value in wrong {
        assert_eq!(
            derive_num_bytes(&decl).unwrap().num_bytes(&value),
            Err(EncodeError::TypeMismatch)
        );
        let mut bytes = vec![1, 2, 3];
        let mut pos = 1usize;
        assert_eq!(
            derive_write(&decl).unwrap().write(&value, &mut bytes, &mut pos),
            Err(EncodeError::TypeMismatch)
        );
        assert_eq!(bytes, vec![1, 2, 3]);
        assert_eq!(pos, 1);
        assert_eq!(
            derive_digest(&decl).unwrap().digest(&value, fnv),
            Err(EncodeError::TypeMismatch)
        );
        assert_eq!(
            derive_serialize_data(&decl).unwrap().to_serialize_data(&value),
            Err(EncodeError::TypeMismatch)
        );
    }
    let sum = choice(vec![("A", TypeRef::Bool)]);
    let beyond = Value::Sum(1, Box::new(Value::Bool(true)));
    assert_eq!(
        derive_num_bytes(&sum).unwrap().num_bytes(&beyond),
        Err(EncodeError::TypeMismatch)
    );
    let list = one(TypeRef::List(Box::new(TypeRef::Bool)));
    let mixed = Value::Product(vec![Value::List(vec![Value::Bool(true), Value::VarUint(1)])]);
    assert_eq!(
        derive_num_bytes(&list).unwrap().num_bytes(&mixed),
        Err(EncodeError::TypeMismatch)
    );
}

#[test]
fn cursor_beyond_the_end_reads_nothing() {
    let unit = record(Vec::new());
    let reader = derive_read(&unit).unwrap();
    let mut pos = 7usize;
    assert_eq!(reader.read(&[1, 2], &mut pos), Ok(Value::Product(Vec::new())));
    assert_eq!(pos, 7);
    let byte = one(TypeRef::Int(IntKind::U8));
    let reader = derive_read(&byte).unwrap();
    let mut pos = 3usize;
    assert_eq!(reader.read(&[1, 2], &mut pos), Err(ReadError::Underrun));
    let mut pos = 2usize;
    assert_eq!(reader.read(&[1, 2], &mut pos), Err(ReadError::Underrun));
    let mut pos = 1usize;
    assert_eq!(
        reader.read(&[1, 2], &mut pos),
        Ok(Value::Product(vec![Value::Int(Integer::U8(2))]))
    );
    assert_eq!(pos, 2);
}

#[test]
fn cursor_advances_once_per_field() {
    let inner = TypeRef::Product(vec![TypeRef::Int(IntKind::U8), TypeRef::Int(IntKind::U8)]);
    let decl = record(vec![("pair", inner), ("last", TypeRef::Int(IntKind::U16))]);
    let reader = derive_read(&decl).unwrap();
    let mut pos = 0usize;
    let value = reader.read(&[1, 2, 3, 4, 5], &mut pos).unwrap();
    assert_eq!(pos, 4);
    assert_eq!(
        value,
        Value::Product(vec![
            Value::Product(vec![Value::Int(Integer::U8(1)), Value::Int(Integer::U8(2))]),
            Value::Int(Integer::U16(0x0403)),
        ])
    );
}

#[test]
fn text_holds_utf8_bytes() {
    assert_eq!(Value::text("abc"), Value::Str(vec![0x61, 0x62, 0x63]));
    assert_eq!(Value::text("é"), Value::Str(vec![0xC3, 0xA9]));
}

#[test]
fn encoded_values_are_equal_when_their_bytes_are() {
    let decl = one(TypeRef::Int(IntKind::U16));
    let writer = derive_write(&decl).unwrap();
    let a = writer.serialize(&Value::Product(vec![Value::Int(Integer::U16(0x0102))])).unwrap();
    let b = writer.serialize(&Value::Product(vec![Value::Int(Integer::U16(0x0102))])).unwrap();
    let c = writer.serialize(&Value::Product(vec![Value::Int(Integer::U16(0x0103))])).unwrap();
    assert_eq!(a.len(), 2);
    assert_eq!(a.as_bytes(), &vec![0x02, 0x01]);
    assert!(a == b);
    assert!(a != c);
    assert!(a == iostio_core_derive::encoded::EncodedValue::new(vec![0x02, 0x01]));
    assert!(a != iostio_core_derive::encoded::EncodedValue::new(vec![0x02]));
    assert!(a != iostio_core_derive::encoded::EncodedValue::new(vec![0x02, 0x01, 0x00]));
    assert_eq!(
        writer.serialize(&Value::Bool(true)).map(|encoded| encoded.into_bytes()),
        Err(EncodeError::TypeMismatch)
    );
    assert_eq!(
        iostio_core_derive::generated::digest_encoded(&a, fnv),
        fnv(vec![0x02, 0x01])
    );
    assert_eq!(c.into_bytes(), vec![0x03, 0x01]);
}

#[test]
fn write_that_would_reach_beyond_the_largest_offset_is_too_large() {
    let flag = one(TypeRef::Bool);
    let writer = derive_write(&flag).unwrap();
    let value = Value::Product(vec![Value::Bool(true)]);
    let mut bytes = vec![7, 7];
    let mut pos = usize::MAX;
    assert_eq!(writer.write(&value, &mut bytes, &mut pos), Err(EncodeError::TooLarge));
    assert_eq!(bytes, vec![7, 7]);
    assert_eq!(pos, usize::MAX);
    let wide = one(TypeRef::Int(IntKind::U64));
    let writer = derive_write(&wide).unwrap();
    let value = Value::Product(vec![Value::Int(Integer::U64(1))]);
    let mut pos = usize::MAX - 7;
    assert_eq!(writer.write(&value, &mut bytes, &mut pos), Err(EncodeError::TooLarge));
    assert_eq!(bytes, vec![7, 7]);
    assert_eq!(pos, usize::MAX - 7);
    let mut pos = usize::MAX;
    assert_eq!(
        writer.write(&Value::Bool(true), &mut bytes, &mut pos),
        Err(EncodeError::TypeMismatch)
    );
    assert_eq!(pos, usize::MAX);
}
