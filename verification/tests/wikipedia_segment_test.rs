//! Tests on a segment of the shape of the Wikipedia sample: nineteen
//! columns beside `__time`, an index file and a metadata file, packed into
//! one chunk.

use druid_segment::column::generic_indexed::GenericIndexedV1;
use druid_segment::column::ColumnData;
use druid_segment::error::ErrorKind;
use druid_segment::segment::column_descriptor::{ColumnDescriptor, ValueType};
use druid_segment::segment::smoosh::{SmooshIndex, SmooshReader};
use druid_segment::segment::{count_rows, read_batch, DruidSegment, LogicalType};

const COLUMNS: [&str; 19] = [
    "channel",
    "cityName",
    "comment",
    "countryIsoCode",
    "countryName",
    "isAnonymous",
    "isMinor",
    "isNew",
    "isRobot",
    "isUnpatrolled",
    "metroCode",
    "namespace",
    "page",
    "regionIsoCode",
    "regionName",
    "user",
    "added",
    "deleted",
    "delta",
];

const ROWS: usize = 5;

fn object_strings(elements: &[&str]) -> Vec<u8> {
    let mut values = Vec::new();
    let mut offsets = Vec::new();
    for elem in elements {
        values.extend_from_slice(&[0, 0, 0, 0]);
        values.extend_from_slice(elem.as_bytes());
        offsets.push(values.len() as i32);
    }
    let mut buf = vec![0x01, 0x00];
    buf.extend_from_slice(&((4 + elements.len() * 4 + values.len()) as i32).to_be_bytes());
    buf.extend_from_slice(&(elements.len() as i32).to_be_bytes());
    for off in offsets {
        buf.extend_from_slice(&off.to_be_bytes());
    }
    buf.extend_from_slice(&values);
    buf
}

fn one_block_container(block: &[u8]) -> Vec<u8> {
    let mut buf = vec![0x01, 0x00];
    buf.extend_from_slice(&((12 + block.len()) as i32).to_be_bytes());
    buf.extend_from_slice(&1i32.to_be_bytes());
    buf.extend_from_slice(&((4 + block.len()) as i32).to_be_bytes());
    buf.extend_from_slice(&(block.len() as i32).to_be_bytes());
    buf.extend_from_slice(block);
    buf
}

fn with_header(json: &str, payload: &[u8]) -> Vec<u8> {
    let mut buf = (json.len() as i32).to_be_bytes().to_vec();
    buf.extend_from_slice(json.as_bytes());
    buf.extend_from_slice(payload);
    buf
}

fn long_column(values: &[i64]) -> Vec<u8> {
    let block: Vec<u8> = values.iter().flat_map(|v| v.to_be_bytes()).collect();
    let mut payload = vec![0x02];
    payload.extend_from_slice(&(values.len() as i32).to_be_bytes());
    payload.extend_from_slice(&8192i32.to_be_bytes());
    payload.push(0x01);
    payload.extend_from_slice(&one_block_container(&lz4_flex::block::compress(&block)));
    with_header(
        r#"{"valueType":"LONG","hasMultipleValues":false,"parts":[{"type":"longV2","byteOrder":"LITTLE_ENDIAN"}]}"#,
        &payload,
    )
}

fn string_column(dictionary: &[&str], ids: &[u8]) -> Vec<u8> {
    let mut payload = vec![0x02, 0, 0, 0, 0];
    payload.extend_from_slice(&object_strings(dictionary));
    payload.push(0x02);
    payload.extend_from_slice(&(ids.len() as i32).to_be_bytes());
    payload.extend_from_slice(&8192i32.to_be_bytes());
    payload.push(1);
    payload.push(0xFF);
    payload.extend_from_slice(&one_block_container(ids));
    with_header(
        r#"{"valueType":"STRING","hasMultipleValues":false,"parts":[{"type":"stringDictionary","bitmapSerdeFactory":{"type":"roaring"},"byteOrder":"LITTLE_ENDIAN"}]}"#,
        &payload,
    )
}

fn index_drd() -> Vec<u8> {
    let mut buf = object_strings(&COLUMNS);
    buf.extend_from_slice(&object_strings(&COLUMNS));
    buf.extend_from_slice(&1_442_016_000_000i64.to_be_bytes());
    buf.extend_from_slice(&1_442_102_400_000i64.to_be_bytes());
    buf.extend_from_slice(br#"{"type":"roaring"}"#);
    buf
}

const METADATA_DRD: &str = r#"{"container":{},"aggregators":[],"timestampSpec":{"column":"time","format":"iso"},"queryGranularity":{"type":"none"},"rollup":false,"ordering":[{"columnName":"__time","order":"ascending"}]}"#;

/// The text of the archive index and the one chunk that it describes.
fn sample_archive() -> (String, Vec<u8>) {
    let mut files: Vec<(String, Vec<u8>)> = Vec::new();
    files.push((
        "__time".to_string(),
        long_column(&[
            1_442_016_000_000,
            1_442_016_000_001,
            1_442_016_000_500,
            1_442_050_000_000,
            1_442_102_399_999,
        ]),
    ));
    for name in COLUMNS.iter() {
        let data = match *name {
            "added" => long_column(&[36, 17, 0, 1_000_000, 5]),
            "deleted" => long_column(&[0, 0, 12, 0, 3]),
            "delta" => long_column(&[36, 17, -12, 1_000_000, 2]),
            "channel" => string_column(&["#en.wikipedia", "#fr.wikipedia"], &[0, 1, 0, 0, 1]),
            "cityName" => string_column(&["", "Paris"], &[0, 1, 0, 0, 0]),
            _ => string_column(&["false", "true"], &[0, 0, 1, 0, 1]),
        };
        files.push((name.to_string(), data));
    }
    files.push(("index.drd".to_string(), index_drd()));
    files.push(("metadata.drd".to_string(), METADATA_DRD.as_bytes().to_vec()));
    let mut meta = String::from("v1,2147483647,1\n");
    let mut chunk = Vec::new();
    for (name, data) in files.iter() {
        let start = chunk.len();
        chunk.extend_from_slice(data);
        meta.push_str(&format!("{},0,{},{}\n", name, start, chunk.len()));
    }
    (meta, chunk)
}

fn open_index(meta: &str) -> SmooshIndex {
    SmooshIndex::parse(meta).expect("Failed to open smoosh")
}

fn open_reader<'a>(index: &'a SmooshIndex, chunk: &'a [u8]) -> SmooshReader<'a> {
    SmooshReader::open(index, vec![chunk]).expect("Failed to open smoosh")
}

#[test]
fn test_smoosh_reader_opens() {
    let (meta, chunk) = sample_archive();
    let index = open_index(&meta);
    let reader = open_reader(&index, &chunk);
    assert!(reader.len() > 0, "Expected at least some files");
    assert_eq!(reader.len(), 22);
    assert!(reader.has_file("__time"), "Missing __time column");
    assert!(reader.has_file("channel"), "Missing channel column");
    assert!(reader.has_file("index.drd"), "Missing index.drd");
    assert!(reader.has_file("metadata.drd"), "Missing metadata.drd");
}

#[test]
fn test_read_column_descriptor() {
    let (meta, chunk) = sample_archive();
    let index = open_index(&meta);
    let reader = open_reader(&index, &chunk);
    let time_data = reader.map_file("__time").expect("Failed to read __time");
    let json_len =
        u32::from_be_bytes([time_data[0], time_data[1], time_data[2], time_data[3]]) as usize;
    let json_bytes = &time_data[4..4 + json_len];
    let json_str = std::str::from_utf8(json_bytes).expect("Invalid UTF-8 in descriptor");
    println!("__time descriptor: {}", json_str);
    let descriptor = ColumnDescriptor::from_slice(json_str.as_bytes())
        .expect("Failed to parse column descriptor");
    assert_eq!(descriptor.value_type, ValueType::Long);
    assert!(!descriptor.has_multiple_values);
    assert_eq!(descriptor.parts.len(), 1);
    assert_eq!(descriptor.parts[0].serde_type, "longV2");
}

#[test]
fn test_read_string_column_descriptor() {
    let (meta, chunk) = sample_archive();
    let index = open_index(&meta);
    let reader = open_reader(&index, &chunk);
    let channel_data = reader.map_file("channel").expect("Failed to read channel");
    let json_len = u32::from_be_bytes([
        channel_data[0],
        channel_data[1],
        channel_data[2],
        channel_data[3],
    ]) as usize;
    let json_bytes = &channel_data[4..4 + json_len];
    let json_str = std::str::from_utf8(json_bytes).expect("Invalid UTF-8 in descriptor");
    println!("channel descriptor: {}", json_str);
    let descriptor = ColumnDescriptor::from_slice(json_str.as_bytes())
        .expect("Failed to parse column descriptor");
    assert_eq!(descriptor.value_type, ValueType::String);
    assert!(!descriptor.has_multiple_values);
    assert_eq!(descriptor.parts.len(), 1);
    assert_eq!(descriptor.parts[0].serde_type, "stringDictionary");
}

#[test]
fn test_read_metadata_drd() {
    let (meta, chunk) = sample_archive();
    let index = open_index(&meta);
    let reader = open_reader(&index, &chunk);
    let metadata_data = reader.map_file("metadata.drd").expect("Failed to read metadata.drd");
    let metadata_str = std::str::from_utf8(metadata_data).expect("Invalid UTF-8 in metadata.drd");
    println!("metadata.drd: {}", metadata_str);
    let metadata: serde_json::Value =
        serde_json::from_str(metadata_str).expect("Failed to parse metadata.drd JSON");
    assert!(metadata.get("container").is_some());
    assert!(metadata.get("aggregators").is_some());
    assert!(metadata.get("timestampSpec").is_some());
    assert!(metadata.get("queryGranularity").is_some());
    assert!(metadata.get("ordering").is_some());
    assert_eq!(metadata.get("rollup"), Some(&serde_json::Value::Bool(false)));
}

#[test]
fn test_read_index_drd_structure() {
    let (meta, chunk) = sample_archive();
    let index = open_index(&meta);
    let reader = open_reader(&index, &chunk);
    let index_data = reader.map_file("index.drd").expect("Failed to read index.drd");
    println!("index.drd size: {} bytes", index_data.len());
    println!("First 20 bytes: {:02x?}", &index_data[..20.min(index_data.len())]);
    let version = index_data[0];
    let flags = index_data[1];
    let total_bytes =
        u32::from_be_bytes([index_data[2], index_data[3], index_data[4], index_data[5]]) as usize;
    let num_elements =
        u32::from_be_bytes([index_data[6], index_data[7], index_data[8], index_data[9]]) as usize;
    println!(
        "GenericIndexed: version={}, flags={:#x}, total_bytes={}, num_elements={}",
        version, flags, total_bytes, num_elements
    );
    assert_eq!(version, 0x01, "Expected version 1");
    assert_eq!(num_elements, 19, "Expected 19 column names");
    assert_eq!(total_bytes, 312, "Expected total_bytes to be 312");
    let offsets_start = 10;
    let mut offsets = Vec::with_capacity(num_elements);
    for i in 0..num_elements {
        let offset = u32::from_be_bytes([
            index_data[offsets_start + i * 4],
            index_data[offsets_start + i * 4 + 1],
            index_data[offsets_start + i * 4 + 2],
            index_data[offsets_start + i * 4 + 3],
        ]) as usize;
        offsets.push(offset);
    }
    println!("Offsets: {:?}", offsets);
    let values_start = 10 + num_elements * 4;
    println!("Values start at offset: {}", values_start);
    let mut strings = Vec::new();
    let mut prev_offset = 0;
    for &end_offset in &offsets {
        let start = values_start + prev_offset;
        let end = values_start + end_offset;
        let element_data = &index_data[start..end];
        println!("Element bytes [{}, {}): {:02x?}", start, end, element_data);
        if element_data.len() > 4 {
            let str_part = &element_data[4..];
            let str_end = str_part.iter().position(|&b| b == 0).unwrap_or(str_part.len());
            if let Ok(s) = std::str::from_utf8(&str_part[..str_end]) {
                strings.push(s.to_string());
                println!("  Extracted string: {:?}", s);
            }
        }
        prev_offset = end_offset;
    }
    println!("\nExtracted column names: {:?}", strings);
    let expected = vec![
        "channel",
        "cityName",
        "comment",
        "countryIsoCode",
        "countryName",
        "isAnonymous",
        "isMinor",
        "isNew",
        "isRobot",
        "isUnpatrolled",
        "metroCode",
        "namespace",
        "page",
        "regionIsoCode",
        "regionName",
        "user",
        "added",
        "deleted",
        "delta",
    ];
    assert_eq!(strings, expected, "Column names don't match expected");
}

#[test]
fn test_generic_indexed_v1_parse_column_names() {
    let (meta, chunk) = sample_archive();
    let index = open_index(&meta);
    let reader = open_reader(&index, &chunk);
    let index_data = reader.map_file("index.drd").expect("Failed to read index.drd");
    let gi = GenericIndexedV1::from_bytes(index_data).expect("Failed to parse GenericIndexed");
    assert_eq!(gi.len(), 19, "Expected 19 column names");
    let mut column_names = Vec::new();
    for i in 0..gi.len() {
        let name = gi.get_object_string(i).expect("Failed to get column name");
        column_names.push(name.expect("Column name should not be null"));
    }
    println!("Column names via GenericIndexedV1: {:?}", column_names);
    let expected = vec![
        "channel",
        "cityName",
        "comment",
        "countryIsoCode",
        "countryName",
        "isAnonymous",
        "isMinor",
        "isNew",
        "isRobot",
        "isUnpatrolled",
        "metroCode",
        "namespace",
        "page",
        "regionIsoCode",
        "regionName",
        "user",
        "added",
        "deleted",
        "delta",
    ];
    assert_eq!(column_names, expected);
    let first_size = gi.total_size().expect("Failed to get total size");
    println!("First GenericIndexed total size: {} bytes", first_size);
    assert_eq!(first_size, 318, "Unexpected total size");
}

#[test]
fn test_list_all_files() {
    let (meta, chunk) = sample_archive();
    let index = open_index(&meta);
    let reader = open_reader(&index, &chunk);
    println!("Logical files in segment:");
    for name in reader.file_names() {
        let entry = reader.entry(&name).unwrap();
        println!("  {} ({} bytes)", name, entry.size());
    }
    let expected_columns = vec![
        "__time",
        "added",
        "channel",
        "cityName",
        "comment",
        "countryIsoCode",
        "countryName",
        "deleted",
        "delta",
        "isAnonymous",
        "isMinor",
        "isNew",
        "isRobot",
        "isUnpatrolled",
        "metroCode",
        "namespace",
        "page",
        "regionIsoCode",
        "regionName",
        "user",
    ];
    for col in &expected_columns {
        assert!(reader.has_file(col), "Missing column: {}", col);
    }
}

#[test]
fn segment_opens_end_to_end() {
    let (meta, chunk) = sample_archive();
    let index = open_index(&meta);
    let segment = DruidSegment::open(&[0, 0, 0, 9], open_reader(&index, &chunk)).unwrap();
    let metadata = segment.metadata();
    assert_eq!(metadata.dimensions, COLUMNS.to_vec());
    assert_eq!(metadata.columns, COLUMNS.to_vec());
    assert_eq!(metadata.interval_start_ms, 1_442_016_000_000);
    assert_eq!(metadata.interval_end_ms, 1_442_102_400_000);
    let schema = segment.schema();
    assert_eq!(schema.len(), 19);
    for (field, name) in schema.iter().zip(COLUMNS.iter()) {
        assert_eq!(field.name, *name);
    }
    assert_eq!(schema[0].data_type, LogicalType::Utf8);
    assert_eq!(schema[16].data_type, LogicalType::Int64);
    assert!(segment.num_rows().unwrap() > 0);
    assert_eq!(segment.num_rows().unwrap(), ROWS);
    assert_eq!(segment.smoosh().len(), 22);

    let batch = segment.read_columns(&["__time", "channel"]).unwrap();
    assert_eq!(batch.fields.len(), 2);
    assert_eq!(batch.fields[0].name, "__time");
    assert_eq!(batch.fields[0].data_type, LogicalType::TimestampMillis);
    assert_eq!(batch.fields[1].name, "channel");
    assert_eq!(batch.fields[1].data_type, LogicalType::Utf8);
    assert_eq!(batch.num_rows(), ROWS);
    match (&batch.columns[0], &batch.columns[1]) {
        (ColumnData::Timestamp(times), ColumnData::String(channels)) => {
            assert_eq!(times.len(), channels.len());
            assert_eq!(times[0], 1_442_016_000_000);
            assert_eq!(times[4], 1_442_102_399_999);
            assert_eq!(channels[0].as_deref(), Some("#en.wikipedia"));
            assert_eq!(channels[1].as_deref(), Some("#fr.wikipedia"));
        }
        other => panic!("unexpected columns: {:?}", other),
    }
}

#[test]
fn batch_follows_the_names_and_the_row_count() {
    let (meta, chunk) = sample_archive();
    let index = open_index(&meta);
    let segment = DruidSegment::open(&[0, 0, 0, 9], open_reader(&index, &chunk)).unwrap();
    let names = ["delta", "cityName", "__time", "added", "delta"];
    let batch = segment.read_columns(&names).unwrap();
    let rows = segment.num_rows().unwrap();
    assert_eq!(batch.fields.len(), names.len());
    assert_eq!(batch.columns.len(), names.len());
    for (field, name) in batch.fields.iter().zip(names.iter()) {
        assert_eq!(field.name, *name);
    }
    for column in batch.columns.iter() {
        assert_eq!(column.len(), rows);
    }
    assert_eq!(batch.num_rows(), rows);
    assert!(matches!(&batch.columns[0], ColumnData::Long(v) if *v == vec![36, 17, -12, 1_000_000, 2]));
    assert!(matches!(&batch.columns[1], ColumnData::String(v)
        if v[0].is_none() && v[1].as_deref() == Some("Paris")));
}

#[test]
fn read_all_reads_the_index_columns_in_order() {
    let (meta, chunk) = sample_archive();
    let index = open_index(&meta);
    let segment = DruidSegment::open(&[0, 0, 0, 9], open_reader(&index, &chunk)).unwrap();
    let batch = segment.read_all().unwrap();
    assert_eq!(batch.fields.len(), 19);
    for (i, name) in COLUMNS.iter().enumerate() {
        assert_eq!(batch.fields[i].name, *name);
        assert_eq!(batch.fields[i].data_type, segment.schema()[i].data_type);
        assert_eq!(batch.columns[i].len(), ROWS);
    }
}

#[test]
fn version_gate() {
    let (meta, chunk) = sample_archive();
    let index = open_index(&meta);
    let err = DruidSegment::open(&[0, 0, 0, 8], open_reader(&index, &chunk)).err().unwrap();
    assert_eq!(err.kind(), ErrorKind::InvalidVersion(8));
    for marker in [[0u8, 0, 0, 0], [0, 0, 0, 10], [9, 0, 0, 0], [0xFF, 0xFF, 0xFF, 0xF7]] {
        let err = DruidSegment::open(&marker, open_reader(&index, &chunk)).err().unwrap();
        assert_eq!(err.kind(), ErrorKind::InvalidVersion(i32::from_be_bytes(marker)));
    }
    let err = DruidSegment::open(&[0, 9], open_reader(&index, &chunk)).err().unwrap();
    assert_eq!(err.kind(), ErrorKind::InvalidData);
}

#[test]
fn segment_failures_are_typed() {
    let (meta, chunk) = sample_archive();
    let index = open_index(&meta);
    let segment = DruidSegment::open(&[0, 0, 0, 9], open_reader(&index, &chunk)).unwrap();
    assert_eq!(
        segment.read_columns(&["nope"]).err().unwrap().kind(),
        ErrorKind::LogicalFileNotFound
    );
    assert_eq!(segment.read_columns(&[]).err().unwrap().kind(), ErrorKind::ArrowError);
    assert_eq!(
        segment.read_columns(&["metadata.drd"]).err().unwrap().kind(),
        ErrorKind::InvalidData
    );

    let without_index = open_index(&meta.replace("index.drd", "index.bak"));
    assert_eq!(
        DruidSegment::open(&[0, 0, 0, 9], open_reader(&without_index, &chunk))
            .err()
            .unwrap()
            .kind(),
        ErrorKind::LogicalFileNotFound
    );
    let without_column = open_index(&meta.replace("\npage,", "\npages,"));
    assert_eq!(
        DruidSegment::open(&[0, 0, 0, 9], open_reader(&without_column, &chunk))
            .err()
            .unwrap()
            .kind(),
        ErrorKind::LogicalFileNotFound
    );
}

#[test]
fn columns_of_unequal_length_cannot_stand_in_one_batch() {
    let mut files: Vec<(&str, Vec<u8>)> = Vec::new();
    files.push(("__time", long_column(&[1, 2, 3])));
    files.push(("short", long_column(&[1, 2])));
    let mut index = object_strings(&["short"]);
    index.extend_from_slice(&object_strings(&["short"]));
    index.extend_from_slice(&[0; 16]);
    files.push(("index.drd", index));
    let mut meta = String::from("v1,2147483647,1\n");
    let mut chunk = Vec::new();
    for (name, data) in files.iter() {
        let start = chunk.len();
        chunk.extend_from_slice(data);
        meta.push_str(&format!("{},0,{},{}\n", name, start, chunk.len()));
    }
    let index = open_index(&meta);
    let segment = DruidSegment::open(&[0, 0, 0, 9], open_reader(&index, &chunk)).unwrap();
    assert_eq!(segment.num_rows().unwrap(), 3);
    assert_eq!(
        segment.read_columns(&["__time", "short"]).err().unwrap().kind(),
        ErrorKind::ArrowError
    );
    let alone = segment.read_columns(&["short"]).unwrap();
    assert_eq!(alone.num_rows(), 2);
    let reader = open_reader(&index, &chunk);
    assert_eq!(count_rows(&reader).unwrap(), 3);
    assert_eq!(read_batch(&reader, &["short"]).unwrap().num_rows(), 2);
    assert_eq!(
        read_batch(&reader, &["short", "__time"]).err().unwrap().kind(),
        ErrorKind::ArrowError
    );
    assert_eq!(segment.read_all().unwrap().num_rows(), 2);
}
