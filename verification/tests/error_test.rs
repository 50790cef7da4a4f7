use druid_segment::error::{invalid_data, DruidSegmentError, ErrorKind};

#[test]
fn every_error_has_its_kind() {
    let text = || "why".to_string();
    assert_eq!(DruidSegmentError::Io(text()).kind(), ErrorKind::Io);
    assert_eq!(DruidSegmentError::InvalidVersion(-3).kind(), ErrorKind::InvalidVersion(-3));
    assert_eq!(DruidSegmentError::InvalidSmooshMeta(text()).kind(), ErrorKind::InvalidSmooshMeta);
    assert_eq!(
        DruidSegmentError::LogicalFileNotFound(text()).kind(),
        ErrorKind::LogicalFileNotFound
    );
    assert_eq!(
        DruidSegmentError::UnsupportedCompression(0x7F).kind(),
        ErrorKind::UnsupportedCompression(0x7F)
    );
    assert_eq!(
        DruidSegmentError::UnsupportedColumnType(text()).kind(),
        ErrorKind::UnsupportedColumnType
    );
    assert_eq!(
        DruidSegmentError::InvalidGenericIndexedVersion(2).kind(),
        ErrorKind::InvalidGenericIndexedVersion(2)
    );
    assert_eq!(DruidSegmentError::DecompressionError(text()).kind(), ErrorKind::DecompressionError);
    assert_eq!(DruidSegmentError::JsonError(text()).kind(), ErrorKind::JsonError);
    assert_eq!(
        DruidSegmentError::ColumnDescriptorError(text()).kind(),
        ErrorKind::ColumnDescriptorError
    );
    assert_eq!(DruidSegmentError::InvalidData(text()).kind(), ErrorKind::InvalidData);
    assert_eq!(DruidSegmentError::ArrowError(text()).kind(), ErrorKind::ArrowError);
    assert_eq!(DruidSegmentError::DataFusionError(text()).kind(), ErrorKind::DataFusionError);
}

#[test]
fn kinds_with_different_numbers_differ() {
    assert_ne!(ErrorKind::InvalidVersion(8), ErrorKind::InvalidVersion(10));
    assert_ne!(ErrorKind::UnsupportedCompression(0), ErrorKind::UnsupportedCompression(2));
    assert_ne!(ErrorKind::InvalidData, ErrorKind::JsonError);
}

#[test]
fn invalid_data_carries_its_message() {
    let err = invalid_data::<u8>("too short").unwrap_err();
    assert!(matches!(err, DruidSegmentError::InvalidData(msg) if msg == "too short"));
}
