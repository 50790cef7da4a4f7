use crate::byte_order::{be_i32, read_i32_at};
use crate::error::{invalid_data, DruidSegmentError, ErrorKind};
use vstd::prelude::*;

verus! {

/// The only segment format version that is read.
pub const SEGMENT_VERSION_V9: i32 = 9;

/// What a version marker is read as: fewer than four bytes are invalid data,
/// and a big-endian number other than 9 is an invalid version.
pub open spec fn version_checked(data: Seq<u8>) -> Result<i32, ErrorKind> {
    if data.len() < 4 {
        Err(ErrorKind::InvalidData)
    } else if be_i32(data, 0) != 9 {
        Err(ErrorKind::InvalidVersion(be_i32(data, 0) as i32))
    } else {
        Ok(9i32)
    }
}

/// Reads and validates the contents of the version marker file: a
/// big-endian `i32` that must equal 9. Bytes behind the fourth are ignored.
pub fn read_version(data: &[u8]) -> (r: Result<i32, DruidSegmentError>)
    ensures
        match version_checked(data@) {
            Ok(v) => r == Ok::<i32, DruidSegmentError>(v),
            Err(kind) => r matches Err(e) && e.spec_kind() == kind,
        },
{
    if data.len() < 4 {
        return invalid_data("version.bin too short, expected 4 bytes");
    }
    let version = read_i32_at(data, 0);
    if version != SEGMENT_VERSION_V9 {
        return Err(DruidSegmentError::InvalidVersion(version));
    }
    Ok(version)
}

/// Every marker that holds a number other than 9 is refused as an invalid
/// version that names that number.
pub proof fn lemma_version_gate(data: Seq<u8>)
    requires
        data.len() >= 4,
        be_i32(data, 0) != 9,
    ensures
        version_checked(data) == Err::<i32, ErrorKind>(
            ErrorKind::InvalidVersion(be_i32(data, 0) as i32),
        ),
{
}

} // verus!
