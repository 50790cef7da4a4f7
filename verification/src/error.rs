use vstd::prelude::*;

verus! {

/// Every way in which decoding a segment can fail.
///
/// The variants are disjoint. Variants that stand for a failure of a
/// collaborator (the filesystem, the JSON decoder, the columnar output
/// builder, the query engine) carry that failure's message.
#[derive(Debug)]
pub enum DruidSegmentError {
    /// A filesystem operation failed.
    Io(String),
    /// The version marker holds this value instead of 9.
    InvalidVersion(i32),
    /// The archive's text index is malformed, or an entry points outside its chunk.
    InvalidSmooshMeta(String),
    /// The archive has no logical file of this name.
    LogicalFileNotFound(String),
    /// The codec with this id is unknown or not implemented.
    UnsupportedCompression(u8),
    /// The column is complex or multi-valued, or its bitmap is of a legacy kind.
    UnsupportedColumnType(String),
    /// An offset-indexed container announces this version instead of 1.
    InvalidGenericIndexedVersion(u8),
    /// A block did not decompress to the size that its header implies.
    DecompressionError(String),
    /// A column descriptor is not the JSON that is expected.
    JsonError(String),
    /// A column descriptor is well-formed JSON of the wrong shape.
    ColumnDescriptorError(String),
    /// A bounds or structural violation in binary data.
    InvalidData(String),
    /// The columnar output could not be assembled.
    ArrowError(String),
    /// The query engine reported a failure.
    DataFusionError(String),
}

/// The variant of an error, with the payload of the variants that carry a
/// number and without the message of those that carry text.
#[derive(Debug, Clone, Copy, PartialEq, Eq, Structural)]
pub enum ErrorKind {
    Io,
    InvalidVersion(i32),
    InvalidSmooshMeta,
    LogicalFileNotFound,
    UnsupportedCompression(u8),
    UnsupportedColumnType,
    InvalidGenericIndexedVersion(u8),
    DecompressionError,
    JsonError,
    ColumnDescriptorError,
    InvalidData,
    ArrowError,
    DataFusionError,
}

impl DruidSegmentError {
    /// The variant of this error.
    pub open spec fn spec_kind(&self) -> ErrorKind {
        match self {
            DruidSegmentError::Io(_) => ErrorKind::Io,
            DruidSegmentError::InvalidVersion(v) => ErrorKind::InvalidVersion(*v),
            DruidSegmentError::InvalidSmooshMeta(_) => ErrorKind::InvalidSmooshMeta,
            DruidSegmentError::LogicalFileNotFound(_) => ErrorKind::LogicalFileNotFound,
            DruidSegmentError::UnsupportedCompression(id) => ErrorKind::UnsupportedCompression(
                *id,
            ),
            DruidSegmentError::UnsupportedColumnType(_) => ErrorKind::UnsupportedColumnType,
            DruidSegmentError::InvalidGenericIndexedVersion(v) =>
                ErrorKind::InvalidGenericIndexedVersion(*v),
            DruidSegmentError::DecompressionError(_) => ErrorKind::DecompressionError,
            DruidSegmentError::JsonError(_) => ErrorKind::JsonError,
            DruidSegmentError::ColumnDescriptorError(_) => ErrorKind::ColumnDescriptorError,
            DruidSegmentError::InvalidData(_) => ErrorKind::InvalidData,
            DruidSegmentError::ArrowError(_) => ErrorKind::ArrowError,
            DruidSegmentError::DataFusionError(_) => ErrorKind::DataFusionError,
        }
    }

    /// The variant of this error.
    #[verifier::when_used_as_spec(spec_kind)]
    pub fn kind(&self) -> (k: ErrorKind)
        ensures
            k == self.spec_kind(),
    {
        match self {
            DruidSegmentError::Io(_) => ErrorKind::Io,
            DruidSegmentError::InvalidVersion(v) => ErrorKind::InvalidVersion(*v),
            DruidSegmentError::InvalidSmooshMeta(_) => ErrorKind::InvalidSmooshMeta,
            DruidSegmentError::LogicalFileNotFound(_) => ErrorKind::LogicalFileNotFound,
            DruidSegmentError::UnsupportedCompression(id) => ErrorKind::UnsupportedCompression(
                *id,
            ),
            DruidSegmentError::UnsupportedColumnType(_) => ErrorKind::UnsupportedColumnType,
            DruidSegmentError::InvalidGenericIndexedVersion(v) =>
                ErrorKind::InvalidGenericIndexedVersion(*v),
            DruidSegmentError::DecompressionError(_) => ErrorKind::DecompressionError,
            DruidSegmentError::JsonError(_) => ErrorKind::JsonError,
            DruidSegmentError::ColumnDescriptorError(_) => ErrorKind::ColumnDescriptorError,
            DruidSegmentError::InvalidData(_) => ErrorKind::InvalidData,
            DruidSegmentError::ArrowError(_) => ErrorKind::ArrowError,
            DruidSegmentError::DataFusionError(_) => ErrorKind::DataFusionError,
        }
    }
}

/// An `InvalidData` error with the given static message.
pub fn invalid_data<T>(msg: &str) -> (r: Result<T, DruidSegmentError>)
    ensures
        r matches Err(DruidSegmentError::InvalidData(m)) && m@ == msg@,
{
    Err(DruidSegmentError::InvalidData(msg.to_owned()))
}

} // verus!
