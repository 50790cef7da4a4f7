use crate::column::long::{long_column, read_long_column};
use crate::error::DruidSegmentError;
use vstd::prelude::*;

verus! {

/// Decodes the `__time` column from the bytes behind its descriptor: one
/// timestamp per row, in milliseconds since the Unix epoch, stored as a
/// compressed long column.
pub fn read_time_column(data: &[u8]) -> (r: Result<Vec<i64>, DruidSegmentError>)
    ensures
        match long_column(data@) {
            Ok(values) => r matches Ok(v) && v@ == values,
            Err(kind) => r matches Err(e) && e.spec_kind() == kind,
        },
{
    read_long_column(data)
}

} // verus!
