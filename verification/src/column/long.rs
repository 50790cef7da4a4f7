use crate::column::compressed_longs::{longs_decoded, longs_header, CompressedColumnarLongs};
use crate::error::{DruidSegmentError, ErrorKind};
use vstd::prelude::*;

verus! {

/// The values of a long column: its header, then its blocks.
pub open spec fn long_column(data: Seq<u8>) -> Result<Seq<i64>, ErrorKind> {
    match longs_header(data) {
        Ok(set) => longs_decoded(set),
        Err(kind) => Err(kind),
    }
}

/// Decodes a long column from the bytes behind its descriptor. Null bitmaps
/// are not consulted: every row has a value.
pub fn read_long_column(data: &[u8]) -> (r: Result<Vec<i64>, DruidSegmentError>)
    ensures
        match long_column(data@) {
            Ok(values) => r matches Ok(v) && v@ == values,
            Err(kind) => r matches Err(e) && e.spec_kind() == kind,
        },
{
    match CompressedColumnarLongs::from_bytes(data) {
        Ok(longs) => longs.decompress_all(),
        Err(e) => Err(e),
    }
}

} // verus!
