use std::collections::BTreeMap;

use parquet_footer::compact::{CompactReader, CompactWriter, FieldHeader};
use parquet_footer::error::OverrideError;
use parquet_footer::read::{read_footer_field_value, FieldAction, OverrideInputProtocol};
use parquet_footer::value::{
    FooterFieldReadOverrides, FooterFieldValue, FooterFieldValueType, FooterFieldValues, WireType,
};
use parquet_footer::write::{footer_field_header, write_footer_field_value};
use thrift::protocol::{
    TCompactOutputProtocol, TFieldIdentifier, TListIdentifier, TMapIdentifier,
    TMessageIdentifier, TMessageType, TOutputProtocol, TSetIdentifier, TStructIdentifier, TType,
};

/// The bytes of a struct holding only the given override fields, written
/// with the library, followed by the stop byte.
fn struct_with_fields(fields: &[(i16, &str, FooterFieldValue)]) -> Vec<u8> {
    let mut buf = Vec::new();
    {
        let mut w = CompactWriter::new(&mut buf);
        for (id, name, value) in fields {
            write_footer_field_value(&mut w, *id, name, value).unwrap();
        }
    }
    buf.push(0x00);
    buf
}

/// Reads a whole struct through the override reader and returns the headers
/// it passed on (before the stop) and the captured values.
fn read_struct(
    bytes: Vec<u8>,
    overrides: &FooterFieldReadOverrides,
) -> Result<(Vec<FieldHeader>, FooterFieldValues), OverrideError> {
    let mut reader = CompactReader::new(bytes);
    let mut p = OverrideInputProtocol::new(&mut reader, overrides);
    p.read_struct_begin().unwrap();
    let mut passed = Vec::new();
    loop {
        let h = p.read_field_begin()?;
        if h.field_type == WireType::Stop {
            break;
        }
        match h.field_type {
            WireType::I32 => {
                p.read_i32().unwrap();
            }
            WireType::I64 => {
                p.read_i64().unwrap();
            }
            WireType::String => {
                p.read_bytes().unwrap();
            }
            WireType::Bool => {
                p.read_bool().unwrap();
            }
            other => panic!("unexpected field type {other:?}"),
        }
        p.read_field_end().unwrap();
        passed.push(h);
    }
    p.read_struct_end().unwrap();
    Ok((passed, p.into_values()))
}

fn overrides(entries: &[(i16, FooterFieldValueType)]) -> FooterFieldReadOverrides {
    entries.iter().copied().collect::<BTreeMap<_, _>>()
}

#[test]
fn roundtrip_bool_field_8() {
    let bytes = struct_with_fields(&[(8, "encrypted", FooterFieldValue::Bool(true))]);
    let (passed, values) =
        read_struct(bytes, &overrides(&[(8, FooterFieldValueType::Bool)])).unwrap();
    assert!(passed.is_empty());
    assert!(matches!(values.get(&8), Some(FooterFieldValue::Bool(true))));
    assert_eq!(values.len(), 1);
}

#[test]
fn roundtrip_false_bool() {
    let bytes = struct_with_fields(&[(8, "encrypted", FooterFieldValue::Bool(false))]);
    let (_, values) = read_struct(bytes, &overrides(&[(8, FooterFieldValueType::Bool)])).unwrap();
    assert!(matches!(values.get(&8), Some(FooterFieldValue::Bool(false))));
}

#[test]
fn roundtrip_string_field_9() {
    let bytes = struct_with_fields(&[(
        9,
        "keyname",
        FooterFieldValue::String("my_key".to_string()),
    )]);
    let (_, values) =
        read_struct(bytes, &overrides(&[(9, FooterFieldValueType::String)])).unwrap();
    match values.get(&9) {
        Some(FooterFieldValue::String(s)) => assert_eq!(s, "my_key"),
        other => panic!("unexpected {other:?}"),
    }
}

#[test]
fn roundtrip_bytes_int32_int64() {
    let bytes = struct_with_fields(&[
        (8, "encrypted", FooterFieldValue::Int32(42)),
        (9, "keyname", FooterFieldValue::Bytes(b"my_key".to_vec())),
        (10, "counter", FooterFieldValue::Int64(-1234567890123)),
    ]);
    let (passed, values) = read_struct(
        bytes,
        &overrides(&[
            (8, FooterFieldValueType::Int32),
            (9, FooterFieldValueType::Bytes),
            (10, FooterFieldValueType::Int64),
        ]),
    )
    .unwrap();
    assert!(passed.is_empty());
    assert!(matches!(values.get(&8), Some(FooterFieldValue::Int32(42))));
    match values.get(&9) {
        Some(FooterFieldValue::Bytes(b)) => assert_eq!(b, b"my_key"),
        other => panic!("unexpected {other:?}"),
    }
    assert!(matches!(values.get(&10), Some(FooterFieldValue::Int64(-1234567890123))));
}

#[test]
fn string_written_reads_as_bytes() {
    let bytes = struct_with_fields(&[(9, "keyname", FooterFieldValue::String("k".to_string()))]);
    let (_, values) = read_struct(bytes, &overrides(&[(9, FooterFieldValueType::Bytes)])).unwrap();
    match values.get(&9) {
        Some(FooterFieldValue::Bytes(b)) => assert_eq!(b, b"k"),
        other => panic!("unexpected {other:?}"),
    }
}

#[test]
fn fields_without_override_are_passed_on() {
    let bytes = struct_with_fields(&[
        (1, "version", FooterFieldValue::Int32(2)),
        (8, "encrypted", FooterFieldValue::Bool(true)),
        (9, "keyname", FooterFieldValue::String("abc".to_string())),
    ]);
    let (passed, values) =
        read_struct(bytes, &overrides(&[(8, FooterFieldValueType::Bool)])).unwrap();
    assert_eq!(passed.len(), 2);
    assert_eq!(passed[0].id, Some(1));
    assert_eq!(passed[0].field_type, WireType::I32);
    assert_eq!(passed[1].id, Some(9));
    assert_eq!(passed[1].field_type, WireType::String);
    assert_eq!(values.len(), 1);
    assert!(matches!(values.get(&8), Some(FooterFieldValue::Bool(true))));
}

#[test]
fn no_overrides_captures_nothing() {
    let bytes = struct_with_fields(&[(8, "encrypted", FooterFieldValue::Bool(true))]);
    let (passed, values) = read_struct(bytes, &BTreeMap::new()).unwrap();
    assert_eq!(passed.len(), 1);
    assert_eq!(passed[0].id, Some(8));
    assert_eq!(passed[0].field_type, WireType::Bool);
    assert!(values.is_empty());
}

#[test]
fn wrong_wire_type_is_refused() {
    let bytes = struct_with_fields(&[(8, "encrypted", FooterFieldValue::Int32(42))]);
    let err = read_struct(bytes, &overrides(&[(8, FooterFieldValueType::Bool)])).unwrap_err();
    match err {
        OverrideError::TypeMismatch { field_id, expected, found } => {
            assert_eq!(field_id, 8);
            assert_eq!(expected, FooterFieldValueType::Bool);
            assert_eq!(found, WireType::I32);
        }
        other => panic!("unexpected {other:?}"),
    }
}

#[test]
fn int64_written_is_refused_as_int32() {
    let bytes = struct_with_fields(&[(8, "x", FooterFieldValue::Int64(1))]);
    let err = read_struct(bytes, &overrides(&[(8, FooterFieldValueType::Int32)])).unwrap_err();
    assert!(matches!(
        err,
        OverrideError::TypeMismatch {
            field_id: 8,
            expected: FooterFieldValueType::Int32,
            found: WireType::I64
        }
    ));
}

#[test]
fn nested_struct_fields_are_not_captured() {
    // Outer struct: field 1 is a struct whose field 8 is an i32, then the
    // outer field 8 is a bool.
    let mut buf = Vec::new();
    {
        let mut p = TCompactOutputProtocol::new(&mut buf);
        p.write_struct_begin(&TStructIdentifier::new("outer")).unwrap();
        p.write_field_begin(&TFieldIdentifier::new("inner", TType::Struct, 1)).unwrap();
        p.write_struct_begin(&TStructIdentifier::new("inner")).unwrap();
        p.write_field_begin(&TFieldIdentifier::new("x", TType::I32, 8)).unwrap();
        p.write_i32(7).unwrap();
        p.write_field_end().unwrap();
        p.write_field_stop().unwrap();
        p.write_struct_end().unwrap();
        p.write_field_end().unwrap();
        p.write_field_begin(&TFieldIdentifier::new("encrypted", TType::Bool, 8)).unwrap();
        p.write_bool(true).unwrap();
        p.write_field_end().unwrap();
        p.write_field_stop().unwrap();
        p.write_struct_end().unwrap();
    }
    let ov = overrides(&[(8, FooterFieldValueType::Bool)]);
    let mut reader = CompactReader::new(buf);
    let mut p = OverrideInputProtocol::new(&mut reader, &ov);
    p.read_struct_begin().unwrap();
    let h = p.read_field_begin().unwrap();
    assert_eq!(h.id, Some(1));
    assert_eq!(h.field_type, WireType::Struct);
    p.read_struct_begin().unwrap();
    let h = p.read_field_begin().unwrap();
    assert_eq!(h.id, Some(8));
    assert_eq!(h.field_type, WireType::I32);
    assert_eq!(p.read_i32().unwrap(), 7);
    p.read_field_end().unwrap();
    let h = p.read_field_begin().unwrap();
    assert_eq!(h.field_type, WireType::Stop);
    assert_eq!(h.id, None);
    p.read_struct_end().unwrap();
    p.read_field_end().unwrap();
    let h = p.read_field_begin().unwrap();
    assert_eq!(h.field_type, WireType::Stop);
    p.read_struct_end().unwrap();
    let values = p.into_values();
    assert_eq!(values.len(), 1);
    assert!(matches!(values.get(&8), Some(FooterFieldValue::Bool(true))));
}

#[test]
fn truncated_footer_is_a_thrift_error() {
    let mut bytes = struct_with_fields(&[(9, "k", FooterFieldValue::String("abcdef".into()))]);
    bytes.truncate(4);
    let err = read_struct(bytes, &overrides(&[(9, FooterFieldValueType::String)])).unwrap_err();
    assert!(matches!(err, OverrideError::Thrift(_)));
}

#[test]
fn empty_input_is_a_thrift_error() {
    let err = read_struct(Vec::new(), &BTreeMap::new()).unwrap_err();
    assert!(matches!(err, OverrideError::Thrift(_)));
}

#[test]
fn written_bytes_match_thrift_encoding() {
    // Field 8 as a bool packs the value into the header byte: delta 8, type 1.
    let bytes = struct_with_fields(&[(8, "encrypted", FooterFieldValue::Bool(true))]);
    assert_eq!(bytes, vec![0x81, 0x00]);
    // Field 9 as a string: delta 9, type 8, then length 2 and the bytes.
    let bytes = struct_with_fields(&[(9, "keyname", FooterFieldValue::String("ab".into()))]);
    assert_eq!(bytes, vec![0x98, 0x02, b'a', b'b', 0x00]);
    // Field 8 as an i32 42: delta 8, type 5, zigzag varint 84.
    let bytes = struct_with_fields(&[(8, "n", FooterFieldValue::Int32(42))]);
    assert_eq!(bytes, vec![0x85, 84, 0x00]);
    // The same through thrift directly.
    let mut direct = Vec::new();
    {
        let mut p = TCompactOutputProtocol::new(&mut direct);
        p.write_field_begin(&TFieldIdentifier::new("n", TType::I64, 8)).unwrap();
        p.write_i64(-3).unwrap();
        p.write_field_end().unwrap();
    }
    direct.push(0);
    assert_eq!(struct_with_fields(&[(8, "n", FooterFieldValue::Int64(-3))]), direct);
}

#[test]
fn read_value_checks_type_before_reading() {
    let mut reader = CompactReader::new(vec![0x05]);
    let r = read_footer_field_value(&mut reader, 8, WireType::I32, FooterFieldValueType::Bool);
    assert!(matches!(
        r,
        Err(OverrideError::TypeMismatch {
            field_id: 8,
            expected: FooterFieldValueType::Bool,
            found: WireType::I32
        })
    ));
    // Nothing was read: the byte is still there to be read as an i8.
    let r = read_footer_field_value(&mut reader, 8, WireType::I32, FooterFieldValueType::Int32);
    // 0x05 is the zigzag varint of -3.
    assert!(matches!(r, Ok(FooterFieldValue::Int32(-3))));
}

#[test]
fn header_for_each_value_type() {
    let h = footer_field_header(8, "encrypted", &FooterFieldValue::Bool(true));
    assert_eq!(h.name.as_deref(), Some("encrypted"));
    assert_eq!(h.field_type, WireType::Bool);
    assert_eq!(h.id, Some(8));
    let h = footer_field_header(9, "keyname", &FooterFieldValue::Bytes(vec![1]));
    assert_eq!(h.field_type, WireType::String);
    let h = footer_field_header(9, "keyname", &FooterFieldValue::String("a".into()));
    assert_eq!(h.field_type, WireType::String);
    let h = footer_field_header(3, "n", &FooterFieldValue::Int32(1));
    assert_eq!(h.field_type, WireType::I32);
    let h = footer_field_header(3, "n", &FooterFieldValue::Int64(1));
    assert_eq!(h.field_type, WireType::I64);
    assert_eq!(h.id, Some(3));
}

#[test]
fn type_labels_and_wire_types() {
    assert_eq!(FooterFieldValueType::Bool.label(), "bool");
    assert_eq!(FooterFieldValueType::String.label(), "string");
    assert_eq!(FooterFieldValueType::Int32.label(), "i32");
    assert_eq!(FooterFieldValueType::Int64.label(), "i64");
    assert_eq!(FooterFieldValueType::Bytes.label(), "bytes");
    assert_eq!(FooterFieldValueType::Bytes.wire_type(), WireType::String);
    assert_eq!(FooterFieldValueType::String.wire_type(), WireType::String);
    assert_eq!(FooterFieldValueType::Bool.wire_type(), WireType::Bool);
    assert_eq!(FooterFieldValue::Bytes(vec![]).value_type(), FooterFieldValueType::Bytes);
    assert_eq!(FooterFieldValue::Int64(0).value_type(), FooterFieldValueType::Int64);
}

#[test]
fn field_action_decisions() {
    let ov = overrides(&[(8, FooterFieldValueType::Bool)]);
    let mut reader = CompactReader::new(vec![]);
    let mut p = OverrideInputProtocol::new(&mut reader, &ov);
    let h8 = FieldHeader { name: None, field_type: WireType::Bool, id: Some(8) };
    let h9 = FieldHeader { name: None, field_type: WireType::Bool, id: Some(9) };
    let stop = FieldHeader { name: None, field_type: WireType::Stop, id: None };
    // Outside any struct nothing is captured.
    assert_eq!(p.field_action(&h8), FieldAction::PassOn);
    p.read_struct_begin().unwrap();
    assert_eq!(p.field_action(&h8), FieldAction::Capture(8, FooterFieldValueType::Bool));
    assert_eq!(p.field_action(&h9), FieldAction::PassOn);
    assert_eq!(p.field_action(&stop), FieldAction::PassOn);
    p.read_struct_begin().unwrap();
    assert_eq!(p.field_action(&h8), FieldAction::PassOn);
    p.read_struct_end().unwrap();
    assert_eq!(p.field_action(&h8), FieldAction::Capture(8, FooterFieldValueType::Bool));
}

#[test]
fn read_double_bits_pass_through() {
    let mut buf = Vec::new();
    {
        let mut p = TCompactOutputProtocol::new(&mut buf);
        p.write_double(1.5).unwrap();
    }
    let ov = BTreeMap::new();
    let mut reader = CompactReader::new(buf);
    let mut p = OverrideInputProtocol::new(&mut reader, &ov);
    let bits = p.read_double_bits().unwrap();
    assert_eq!(f64::from_bits(bits), 1.5);
}

#[test]
fn struct_end_at_depth_zero_stays_zero() {
    let ov = BTreeMap::new();
    let mut reader = CompactReader::new(vec![]);
    {
        let mut first = OverrideInputProtocol::new(&mut reader, &ov);
        first.read_struct_begin().unwrap();
        assert_eq!(first.struct_depth(), 1);
        first.into_values();
    }
    let mut second = OverrideInputProtocol::new(&mut reader, &ov);
    assert_eq!(second.struct_depth(), 0);
    second.read_struct_end().unwrap();
    assert_eq!(second.struct_depth(), 0);
}

#[test]
fn other_reads_pass_through() {
    let mut buf = Vec::new();
    {
        let mut p = TCompactOutputProtocol::new(&mut buf);
        p.write_message_begin(&TMessageIdentifier::new("call", TMessageType::Call, 7)).unwrap();
        p.write_i8(-5).unwrap();
        p.write_i16(300).unwrap();
        p.write_byte(0xAB).unwrap();
        p.write_list_begin(&TListIdentifier::new(TType::I32, 2)).unwrap();
        p.write_i32(1).unwrap();
        p.write_i32(2).unwrap();
        p.write_list_end().unwrap();
        p.write_set_begin(&TSetIdentifier::new(TType::String, 1)).unwrap();
        p.write_string("s").unwrap();
        p.write_set_end().unwrap();
        p.write_map_begin(&TMapIdentifier::new(TType::I32, TType::I64, 1)).unwrap();
        p.write_i32(3).unwrap();
        p.write_i64(4).unwrap();
        p.write_map_end().unwrap();
        p.write_bool(true).unwrap();
        p.write_message_end().unwrap();
    }
    let ov = BTreeMap::new();
    let mut reader = CompactReader::new(buf);
    let mut p = OverrideInputProtocol::new(&mut reader, &ov);
    let m = p.read_message_begin().unwrap();
    assert_eq!(m.name, "call");
    assert_eq!(m.sequence_number, 7);
    assert_eq!(p.read_i8().unwrap(), -5);
    assert_eq!(p.read_i16().unwrap(), 300);
    assert_eq!(p.read_byte().unwrap(), 0xAB);
    let l = p.read_list_begin().unwrap();
    assert_eq!((l.element_type, l.size), (TType::I32, 2));
    assert_eq!(p.read_i32().unwrap(), 1);
    assert_eq!(p.read_i32().unwrap(), 2);
    p.read_list_end().unwrap();
    let s = p.read_set_begin().unwrap();
    assert_eq!((s.element_type, s.size), (TType::String, 1));
    assert_eq!(p.read_string().unwrap(), "s");
    p.read_set_end().unwrap();
    let m = p.read_map_begin().unwrap();
    assert_eq!((m.key_type, m.value_type, m.size), (Some(TType::I32), Some(TType::I64), 1));
    assert_eq!(p.read_i32().unwrap(), 3);
    assert_eq!(p.read_i64().unwrap(), 4);
    p.read_map_end().unwrap();
    assert!(p.read_bool().unwrap());
    p.read_message_end().unwrap();
    assert!(p.into_values().is_empty());
}

#[test]
fn raw_reads_on_bytes_and_on_empty_input() {
    let ov = BTreeMap::new();
    let mut reader = CompactReader::new(vec![0x01, 0x02, 0x07, 0xFF, 0x80]);
    let mut p = OverrideInputProtocol::new(&mut reader, &ov);
    assert!(p.read_bool().unwrap());
    assert!(!p.read_bool().unwrap());
    assert!(p.read_bool().is_err());
    assert_eq!(p.read_i8().unwrap(), -1);
    assert_eq!(p.read_byte().unwrap(), 0x80);
    assert!(p.read_byte().is_err());
    assert!(p.read_i8().is_err());
    assert!(p.read_i16().is_err());
    assert!(p.read_i32().is_err());
    assert!(p.read_i64().is_err());
    assert!(p.read_bytes().is_err());
    assert!(p.read_string().is_err());
    assert!(p.read_double_bits().is_err());
    assert!(p.read_list_begin().is_err());
    assert!(p.read_set_begin().is_err());
    assert!(p.read_map_begin().is_err());
    assert!(p.read_message_begin().is_err());
}

#[test]
fn double_needs_eight_bytes() {
    let ov = BTreeMap::new();
    let mut reader = CompactReader::new(vec![0, 0, 0, 0, 0, 0, 0]);
    let mut p = OverrideInputProtocol::new(&mut reader, &ov);
    assert!(p.read_double_bits().is_err());
    let mut reader = CompactReader::new(vec![0, 0, 0, 0, 0, 0, 0xF0, 0x3F, 9]);
    let mut p = OverrideInputProtocol::new(&mut reader, &ov);
    assert_eq!(f64::from_bits(p.read_double_bits().unwrap()), 1.0);
    assert_eq!(p.read_byte().unwrap(), 9);
}

#[test]
fn two_overridden_fields_in_a_row_then_stop() {
    let bytes = struct_with_fields(&[
        (8, "encrypted", FooterFieldValue::Bool(true)),
        (9, "keyname", FooterFieldValue::String("my_key".to_string())),
    ]);
    let ov = overrides(&[(8, FooterFieldValueType::Bool), (9, FooterFieldValueType::String)]);
    let mut reader = CompactReader::new(bytes);
    let mut p = OverrideInputProtocol::new(&mut reader, &ov);
    p.read_struct_begin().unwrap();
    let h = p.read_field_begin().unwrap();
    assert_eq!(h.field_type, WireType::Stop);
    assert_eq!(h.id, None);
    assert_eq!(p.struct_depth(), 1);
    p.read_struct_end().unwrap();
    let values = p.into_values();
    assert_eq!(values.len(), 2);
    assert!(matches!(values.get(&8), Some(FooterFieldValue::Bool(true))));
    match values.get(&9) {
        Some(FooterFieldValue::String(s)) => assert_eq!(s, "my_key"),
        other => panic!("unexpected {other:?}"),
    }
}

#[test]
fn first_header_not_taken_out_is_returned() {
    let bytes = struct_with_fields(&[
        (8, "encrypted", FooterFieldValue::Bool(false)),
        (12, "num_rows", FooterFieldValue::Int64(99)),
    ]);
    let ov = overrides(&[(8, FooterFieldValueType::Bool)]);
    let mut reader = CompactReader::new(bytes);
    let mut p = OverrideInputProtocol::new(&mut reader, &ov);
    p.read_struct_begin().unwrap();
    let h = p.read_field_begin().unwrap();
    assert_eq!(h.id, Some(12));
    assert_eq!(h.field_type, WireType::I64);
    assert!(h.name.is_none());
    assert_eq!(p.read_i64().unwrap(), 99);
    p.read_field_end().unwrap();
    let h = p.read_field_begin().unwrap();
    assert_eq!(h.field_type, WireType::Stop);
    p.read_struct_end().unwrap();
    let values = p.into_values();
    assert_eq!(values.len(), 1);
    assert!(matches!(values.get(&8), Some(FooterFieldValue::Bool(false))));
}

#[test]
fn struct_arriving_as_overridden_field_is_refused() {
    let mut buf = Vec::new();
    {
        let mut p = TCompactOutputProtocol::new(&mut buf);
        p.write_struct_begin(&TStructIdentifier::new("outer")).unwrap();
        p.write_field_begin(&TFieldIdentifier::new("encryption_algorithm", TType::Struct, 8))
            .unwrap();
        p.write_struct_begin(&TStructIdentifier::new("inner")).unwrap();
        p.write_field_stop().unwrap();
        p.write_struct_end().unwrap();
        p.write_field_end().unwrap();
        p.write_field_stop().unwrap();
        p.write_struct_end().unwrap();
    }
    let ov = overrides(&[(8, FooterFieldValueType::Bool)]);
    let mut reader = CompactReader::new(buf);
    let mut p = OverrideInputProtocol::new(&mut reader, &ov);
    p.read_struct_begin().unwrap();
    let err = p.read_field_begin().unwrap_err();
    assert!(matches!(
        err,
        OverrideError::TypeMismatch {
            field_id: 8,
            expected: FooterFieldValueType::Bool,
            found: WireType::Struct
        }
    ));
    assert!(p.into_values().is_empty());
}

#[test]
fn bytes_written_read_as_string() {
    let bytes = struct_with_fields(&[(9, "keyname", FooterFieldValue::Bytes(b"key".to_vec()))]);
    let (_, values) =
        read_struct(bytes, &overrides(&[(9, FooterFieldValueType::String)])).unwrap();
    match values.get(&9) {
        Some(FooterFieldValue::String(s)) => assert_eq!(s, "key"),
        other => panic!("unexpected {other:?}"),
    }
}

#[test]
fn i16_and_collection_headers_on_raw_bytes() {
    let ov = BTreeMap::new();
    // -2 as a zigzag varint is 3; a list of 3 i32 (type code 5) is 0x35; an
    // empty map is a single zero byte.
    let mut reader = CompactReader::new(vec![0x03, 0x35, 0x00, 0x2C]);
    let mut p = OverrideInputProtocol::new(&mut reader, &ov);
    assert_eq!(p.read_i16().unwrap(), -2);
    let l = p.read_list_begin().unwrap();
    assert_eq!((l.element_type, l.size), (TType::I32, 3));
    let m = p.read_map_begin().unwrap();
    assert_eq!(m.size, 0);
    let s = p.read_set_begin().unwrap();
    assert_eq!((s.element_type, s.size), (TType::Struct, 2));
    assert!(p.read_byte().is_err());
}

#[test]
fn read_value_hands_on_the_inner_read() {
    let mut reader = CompactReader::new(vec![0x02]);
    let v = read_footer_field_value(&mut reader, 8, WireType::Bool, FooterFieldValueType::Bool)
        .unwrap();
    assert!(matches!(v, FooterFieldValue::Bool(false)));
    let mut reader = CompactReader::new(vec![0x07]);
    let err = read_footer_field_value(&mut reader, 8, WireType::Bool, FooterFieldValueType::Bool)
        .unwrap_err();
    assert!(matches!(err, OverrideError::Thrift(_)));
    let mut reader = CompactReader::new(vec![0x05]);
    let v = read_footer_field_value(&mut reader, 3, WireType::I32, FooterFieldValueType::Int32)
        .unwrap();
    assert!(matches!(v, FooterFieldValue::Int32(-3)));
}

#[test]
fn field_bytes_follow_the_compact_layout() {
    let mut buf = Vec::new();
    {
        let mut w = CompactWriter::new(&mut buf);
        write_footer_field_value(&mut w, 8, "a", &FooterFieldValue::Int32(-3)).unwrap();
        write_footer_field_value(&mut w, 30, "b", &FooterFieldValue::String("ab".into())).unwrap();
        write_footer_field_value(&mut w, 31, "c", &FooterFieldValue::Bool(true)).unwrap();
        write_footer_field_value(&mut w, 40, "d", &FooterFieldValue::Int64(300)).unwrap();
        write_footer_field_value(&mut w, 39, "e", &FooterFieldValue::Bool(false)).unwrap();
    }
    assert_eq!(
        buf,
        vec![
            0x85, 0x05, // short header (delta 8, i32), zigzag -3
            0x08, 0x3C, 0x02, b'a', b'b', // long header (string, id 30), length 2
            0x11, // short header (delta 1, true)
            0x96, 0xD8, 0x04, // short header (delta 9, i64), zigzag 300 as varint
            0x02, 0x4E, // long header (false, id 39: delta -1)
        ]
    );
}

#[test]
fn bytes_ending_after_a_captured_field_keep_its_value() {
    let mut bytes = struct_with_fields(&[(8, "encrypted", FooterFieldValue::Bool(true))]);
    bytes.pop();
    let ov = overrides(&[(8, FooterFieldValueType::Bool)]);
    let mut reader = CompactReader::new(bytes);
    let mut p = OverrideInputProtocol::new(&mut reader, &ov);
    p.read_struct_begin().unwrap();
    let err = p.read_field_begin().unwrap_err();
    assert!(matches!(err, OverrideError::Thrift(_)));
    let values = p.into_values();
    assert_eq!(values.len(), 1);
    assert!(matches!(values.get(&8), Some(FooterFieldValue::Bool(true))));
}

#[test]
fn field_cut_off_before_its_value_adds_no_entry() {
    let mut buf = Vec::new();
    {
        let mut p = TCompactOutputProtocol::new(&mut buf);
        p.write_field_begin(&TFieldIdentifier::new("encrypted", TType::Bool, 8)).unwrap();
        p.write_bool(true).unwrap();
        p.write_field_end().unwrap();
        p.write_field_begin(&TFieldIdentifier::new("keyname", TType::String, 9)).unwrap();
    }
    let ov = overrides(&[(8, FooterFieldValueType::Bool), (9, FooterFieldValueType::String)]);
    let mut reader = CompactReader::new(buf);
    let mut p = OverrideInputProtocol::new(&mut reader, &ov);
    p.read_struct_begin().unwrap();
    let err = p.read_field_begin().unwrap_err();
    assert!(matches!(err, OverrideError::Thrift(_)));
    let values = p.into_values();
    assert_eq!(values.len(), 1);
    assert!(matches!(values.get(&8), Some(FooterFieldValue::Bool(true))));
    assert!(values.get(&9).is_none());
}

#[test]
fn string_override_that_is_not_utf8_is_a_thrift_error() {
    // Field 9 (short header, delta 9, binary), length 2, then invalid UTF-8,
    // then field 10 (i32) and the stop byte.
    let bytes = vec![0x98, 0x02, 0xFF, 0xFE, 0x15, 0x02, 0x00];
    let ov = overrides(&[(9, FooterFieldValueType::String)]);
    let mut reader = CompactReader::new(bytes);
    let mut p = OverrideInputProtocol::new(&mut reader, &ov);
    p.read_struct_begin().unwrap();
    let err = p.read_field_begin().unwrap_err();
    assert!(matches!(err, OverrideError::Thrift(_)));
    assert!(p.into_values().is_empty());
}

#[test]
fn length_prefix_past_the_end_is_a_thrift_error() {
    let bytes = vec![0x98, 0x05, b'a', b'b'];
    let ov = overrides(&[(9, FooterFieldValueType::Bytes)]);
    let mut reader = CompactReader::new(bytes);
    let mut p = OverrideInputProtocol::new(&mut reader, &ov);
    p.read_struct_begin().unwrap();
    let err = p.read_field_begin().unwrap_err();
    assert!(matches!(err, OverrideError::Thrift(_)));
    assert!(p.into_values().is_empty());
}

#[test]
fn headers_in_other_forms_are_decoded() {
    // Field 15 as a short header with delta 15 (i32, passed on); field 8 in
    // long form with a non-minimal varint id (bool true, taken out); field 9
    // in long form (i64, passed on); stop.
    let bytes = vec![0xF5, 0x02, 0x01, 0x90, 0x00, 0x06, 0x12, 0x04, 0x00];
    let ov = overrides(&[(8, FooterFieldValueType::Bool)]);
    let mut reader = CompactReader::new(bytes);
    let mut p = OverrideInputProtocol::new(&mut reader, &ov);
    p.read_struct_begin().unwrap();
    let h = p.read_field_begin().unwrap();
    assert_eq!((h.field_type, h.id), (WireType::I32, Some(15)));
    assert_eq!(p.read_i32().unwrap(), 1);
    p.read_field_end().unwrap();
    let h = p.read_field_begin().unwrap();
    assert_eq!((h.field_type, h.id), (WireType::I64, Some(9)));
    assert_eq!(p.read_i64().unwrap(), 2);
    p.read_field_end().unwrap();
    let h = p.read_field_begin().unwrap();
    assert_eq!(h.field_type, WireType::Stop);
    p.read_struct_end().unwrap();
    let values = p.into_values();
    assert_eq!(values.len(), 1);
    assert!(matches!(values.get(&8), Some(FooterFieldValue::Bool(true))));
}

#[test]
fn unknown_type_code_is_a_thrift_error() {
    let ov = overrides(&[(8, FooterFieldValueType::Bool)]);
    let mut reader = CompactReader::new(vec![0x1D]);
    let mut p = OverrideInputProtocol::new(&mut reader, &ov);
    p.read_struct_begin().unwrap();
    assert!(matches!(p.read_field_begin(), Err(OverrideError::Thrift(_))));
}

#[test]
fn later_occurrence_replaces_earlier_across_calls() {
    let bytes = struct_with_fields(&[
        (8, "a", FooterFieldValue::Int32(1)),
        (9, "b", FooterFieldValue::Int64(5)),
        (8, "a", FooterFieldValue::Int32(2)),
    ]);
    let ov = overrides(&[(8, FooterFieldValueType::Int32)]);
    let mut reader = CompactReader::new(bytes);
    let mut p = OverrideInputProtocol::new(&mut reader, &ov);
    p.read_struct_begin().unwrap();
    let h = p.read_field_begin().unwrap();
    assert_eq!(h.id, Some(9));
    assert_eq!(p.read_i64().unwrap(), 5);
    p.read_field_end().unwrap();
    let h = p.read_field_begin().unwrap();
    assert_eq!(h.field_type, WireType::Stop);
    let values = p.into_values();
    assert_eq!(values.len(), 1);
    assert!(matches!(values.get(&8), Some(FooterFieldValue::Int32(2))));
}
