use druid_segment::error::{DruidSegmentError, ErrorKind};
use druid_segment::segment::version::{read_version, SEGMENT_VERSION_V9};

#[test]
fn test_valid_v9() {
    let data = [0x00, 0x00, 0x00, 0x09];
    assert_eq!(read_version(&data).unwrap(), 9);
}

#[test]
fn version_test_invalid_version() {
    let data = [0x00, 0x00, 0x00, 0x08];
    let err = read_version(&data).unwrap_err();
    assert!(matches!(err, DruidSegmentError::InvalidVersion(8)));
}

#[test]
fn test_truncated_data() {
    let data = [0x00, 0x00];
    assert!(read_version(&data).is_err());
}

#[test]
fn truncated_marker_is_invalid_data() {
    assert_eq!(read_version(&[0, 0, 0]).unwrap_err().kind(), ErrorKind::InvalidData);
    assert_eq!(read_version(&[]).unwrap_err().kind(), ErrorKind::InvalidData);
}

#[test]
fn every_other_version_is_refused_by_its_number() {
    let cases: [([u8; 4], i32); 5] = [
        ([0, 0, 0, 0], 0),
        ([0, 0, 0, 10], 10),
        ([0xFF, 0xFF, 0xFF, 0xFF], -1),
        ([0x80, 0, 0, 0], i32::MIN),
        ([0x09, 0, 0, 0], 0x0900_0000),
    ];
    for (bytes, number) in cases.iter() {
        assert_eq!(
            read_version(bytes).unwrap_err().kind(),
            ErrorKind::InvalidVersion(*number)
        );
    }
}

#[test]
fn bytes_behind_the_marker_are_ignored() {
    assert_eq!(read_version(&[0, 0, 0, 9, 1, 2, 3]).unwrap(), SEGMENT_VERSION_V9);
}
