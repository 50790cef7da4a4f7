use druid_segment::column::{parse_column_header, read_column, read_column_values, ColumnData};
use druid_segment::error::ErrorKind;
use druid_segment::segment::column_descriptor::{
    same_text, ColumnDescriptor, ColumnPartSerde, ValueType,
};
use druid_segment::segment::{druid_type_to_arrow, LogicalType};

fn with_header(json: &str, payload: &[u8]) -> Vec<u8> {
    let mut buf = (json.len() as i32).to_be_bytes().to_vec();
    buf.extend_from_slice(json.as_bytes());
    buf.extend_from_slice(payload);
    buf
}

fn uncompressed_longs(values: &[i64]) -> Vec<u8> {
    let block: Vec<u8> = values.iter().flat_map(|v| v.to_be_bytes()).collect();
    let mut buf = vec![0x02];
    buf.extend_from_slice(&(values.len() as i32).to_be_bytes());
    buf.extend_from_slice(&(values.len() as i32).to_be_bytes());
    buf.push(0xFF);
    buf.extend_from_slice(&[0x01, 0x00]);
    buf.extend_from_slice(&((12 + block.len()) as i32).to_be_bytes());
    buf.extend_from_slice(&1i32.to_be_bytes());
    buf.extend_from_slice(&((4 + block.len()) as i32).to_be_bytes());
    buf.extend_from_slice(&(block.len() as i32).to_be_bytes());
    buf.extend_from_slice(&block);
    buf
}

const LONG_DESCRIPTOR: &str =
    r#"{"valueType":"LONG","hasMultipleValues":false,"parts":[{"type":"longV2","byteOrder":"LITTLE_ENDIAN"}]}"#;

#[test]
fn descriptor_is_decoded_from_json() {
    let descriptor = ColumnDescriptor::from_slice(LONG_DESCRIPTOR.as_bytes()).unwrap();
    assert_eq!(descriptor.value_type, ValueType::Long);
    assert!(!descriptor.has_multiple_values);
    assert_eq!(descriptor.parts.len(), 1);
    assert_eq!(descriptor.parts[0].serde_type, "longV2");
    assert_eq!(
        descriptor.parts[0].extra.get("byteOrder").and_then(|v| v.as_str()),
        Some("LITTLE_ENDIAN")
    );
}

#[test]
fn every_value_type_name_is_known() {
    assert_eq!(ValueType::from_name("STRING"), Some(ValueType::String));
    assert_eq!(ValueType::from_name("LONG"), Some(ValueType::Long));
    assert_eq!(ValueType::from_name("FLOAT"), Some(ValueType::Float));
    assert_eq!(ValueType::from_name("DOUBLE"), Some(ValueType::Double));
    assert_eq!(ValueType::from_name("COMPLEX"), Some(ValueType::Complex));
    assert_eq!(ValueType::from_name("long"), None);
    assert_eq!(ValueType::from_name(""), None);
    assert!(same_text("abc", "abc"));
    assert!(!same_text("abc", "abd"));
}

#[test]
fn absent_multi_value_flag_means_false() {
    let descriptor =
        ColumnDescriptor::from_slice(br#"{"valueType":"STRING","parts":[]}"#).unwrap();
    assert_eq!(descriptor.value_type, ValueType::String);
    assert!(!descriptor.has_multiple_values);
    assert!(descriptor.parts.is_empty());
    let multi = ColumnDescriptor::from_slice(
        br#"{"parts":[],"hasMultipleValues":true,"valueType":"DOUBLE","other":[1,2]}"#,
    )
    .unwrap();
    assert_eq!(multi.value_type, ValueType::Double);
    assert!(multi.has_multiple_values);
}

#[test]
fn unknown_part_types_are_kept() {
    let descriptor = ColumnDescriptor::from_slice(
        br#"{"valueType":"COMPLEX","parts":[{"type":"futureSerde","level":3},{"type":"second"}]}"#,
    )
    .unwrap();
    assert_eq!(descriptor.value_type, ValueType::Complex);
    assert_eq!(descriptor.parts.len(), 2);
    assert_eq!(descriptor.parts[0].serde_type, "futureSerde");
    assert_eq!(descriptor.parts[0].extra.get("level").and_then(|v| v.as_i64()), Some(3));
    assert_eq!(descriptor.parts[1].serde_type, "second");
}

#[test]
fn malformed_descriptors_are_json_errors() {
    let cases: [&[u8]; 11] = [
        b"",
        b"{",
        b"not json",
        b"[]",
        b"{}",
        br#"{"valueType":"LONG"}"#,
        br#"{"parts":[]}"#,
        br#"{"valueType":"long","parts":[]}"#,
        br#"{"valueType":7,"parts":[]}"#,
        br#"{"valueType":"LONG","hasMultipleValues":"no","parts":[]}"#,
        br#"{"valueType":"LONG","parts":[{"name":"x"}]}"#,
    ];
    for case in cases.iter() {
        assert_eq!(
            ColumnDescriptor::from_slice(case).unwrap_err().kind(),
            ErrorKind::JsonError
        );
    }
    assert_eq!(
        ColumnDescriptor::from_slice(br#"{"valueType":"LONG","parts":{}}"#).unwrap_err().kind(),
        ErrorKind::JsonError
    );
    assert_eq!(
        ColumnDescriptor::from_slice(br#"{"valueType":"LONG","parts":[{"type":1}]}"#)
            .unwrap_err()
            .kind(),
        ErrorKind::JsonError
    );
}

#[test]
fn descriptor_from_a_parsed_document() {
    let document: serde_json::Value =
        serde_json::from_str(r#"{"valueType":"FLOAT","parts":[{"type":"floatV2"}]}"#).unwrap();
    let descriptor = ColumnDescriptor::from_json(&document).unwrap();
    assert_eq!(descriptor.value_type, ValueType::Float);
    assert_eq!(descriptor.parts[0].serde_type, "floatV2");
    assert_eq!(descriptor.parts[0].extra, document["parts"][0]);
    assert!(ColumnPartSerde::from_json(&serde_json::Value::Null).is_none());
    assert_eq!(
        ColumnDescriptor::from_json(&serde_json::Value::Bool(true)).unwrap_err().kind(),
        ErrorKind::JsonError
    );
}

#[test]
fn column_header_is_split_from_the_payload() {
    let data = with_header(LONG_DESCRIPTOR, &[9, 8, 7]);
    let (descriptor, payload) = parse_column_header(&data).unwrap();
    assert_eq!(descriptor.value_type, ValueType::Long);
    assert_eq!(payload, &[9, 8, 7][..]);
    let bare = with_header(LONG_DESCRIPTOR, &[]);
    let (_, empty) = parse_column_header(&bare).unwrap();
    assert!(empty.is_empty());
}

#[test]
fn column_header_errors() {
    assert_eq!(parse_column_header(&[0, 0, 0]).err().unwrap().kind(), ErrorKind::InvalidData);
    assert_eq!(
        parse_column_header(&[0, 0, 0, 5, b'{', b'}']).err().unwrap().kind(),
        ErrorKind::InvalidData
    );
    assert_eq!(
        parse_column_header(&[0xFF, 0xFF, 0xFF, 0xFF, b'{', b'}']).err().unwrap().kind(),
        ErrorKind::InvalidData
    );
    assert_eq!(
        parse_column_header(&[0, 0, 0, 2, b'{', b'}']).err().unwrap().kind(),
        ErrorKind::JsonError
    );
    let full = with_header(LONG_DESCRIPTOR, &[]);
    assert_eq!(
        parse_column_header(&full[..full.len() - 1]).err().unwrap().kind(),
        ErrorKind::InvalidData
    );
}

#[test]
fn columns_are_read_by_their_value_type() {
    let data = with_header(LONG_DESCRIPTOR, &uncompressed_longs(&[5, -6, 7]));
    let (descriptor, column) = read_column("added", &data).unwrap();
    assert_eq!(descriptor.value_type, ValueType::Long);
    assert!(matches!(&column, ColumnData::Long(v) if *v == vec![5, -6, 7]));
    assert_eq!(column.len(), 3);
    let (_, time) = read_column("__time", &data).unwrap();
    assert!(matches!(&time, ColumnData::Timestamp(v) if *v == vec![5, -6, 7]));
    assert_eq!(time.len(), 3);
}

#[test]
fn time_column_is_read_as_timestamps_whatever_its_type() {
    let json = r#"{"valueType":"COMPLEX","parts":[]}"#;
    let data = with_header(json, &uncompressed_longs(&[1_442_016_000_000]));
    let (_, time) = read_column("__time", &data).unwrap();
    assert!(matches!(&time, ColumnData::Timestamp(v) if *v == vec![1_442_016_000_000]));
}

#[test]
fn complex_and_multi_value_columns_are_unsupported() {
    let complex = with_header(r#"{"valueType":"COMPLEX","parts":[]}"#, &[1, 2, 3]);
    assert_eq!(
        read_column("sketch", &complex).err().unwrap().kind(),
        ErrorKind::UnsupportedColumnType
    );
    let multi = with_header(
        r#"{"valueType":"STRING","hasMultipleValues":true,"parts":[]}"#,
        &[1, 2, 3],
    );
    assert_eq!(
        read_column("tags", &multi).err().unwrap().kind(),
        ErrorKind::UnsupportedColumnType
    );
    assert_eq!(
        read_column("__time", &multi).err().unwrap().kind(),
        ErrorKind::UnsupportedColumnType
    );
}

#[test]
fn payload_is_decoded_under_a_given_descriptor() {
    let descriptor =
        ColumnDescriptor { value_type: ValueType::Double, has_multiple_values: false, parts: vec![] };
    let payload = uncompressed_longs(&[0x4000_0000_0000_0000]);
    let column = read_column_values("price", &descriptor, &payload).unwrap();
    assert!(matches!(&column, ColumnData::Double(v) if f64::from_bits(v[0]) == 2.0));
    let floats =
        ColumnDescriptor { value_type: ValueType::Float, has_multiple_values: false, parts: vec![] };
    assert_eq!(
        read_column_values("ratio", &floats, &payload).unwrap_err().kind(),
        ErrorKind::DecompressionError
    );
    let mut two_floats = payload.clone();
    two_floats[4] = 2;
    two_floats[8] = 2;
    let column = read_column_values("ratio", &floats, &two_floats).unwrap();
    assert!(matches!(&column, ColumnData::Float(v) if v.len() == 2 && f32::from_bits(v[0]) == 2.0));
}

#[test]
fn logical_types() {
    let of = |value_type| ColumnDescriptor { value_type, has_multiple_values: false, parts: vec![] };
    assert_eq!(druid_type_to_arrow(&of(ValueType::String), "channel"), LogicalType::Utf8);
    assert_eq!(druid_type_to_arrow(&of(ValueType::Long), "added"), LogicalType::Int64);
    assert_eq!(druid_type_to_arrow(&of(ValueType::Float), "ratio"), LogicalType::Float32);
    assert_eq!(druid_type_to_arrow(&of(ValueType::Double), "price"), LogicalType::Float64);
    assert_eq!(druid_type_to_arrow(&of(ValueType::Complex), "sketch"), LogicalType::Binary);
    assert_eq!(
        druid_type_to_arrow(&of(ValueType::String), "__time"),
        LogicalType::TimestampMillis
    );
}
