use crate::column::compressed_doubles::{
    doubles_decoded, floating_header, CompressedColumnarDoubles,
};
use crate::error::{DruidSegmentError, ErrorKind};
use vstd::prelude::*;

verus! {

/// The values of a double column, as IEEE 754 bit patterns.
pub open spec fn double_column(data: Seq<u8>) -> Result<Seq<u64>, ErrorKind> {
    match floating_header(data, 8) {
        Ok(set) => doubles_decoded(set),
        Err(kind) => Err(kind),
    }
}

/// Decodes a double column from the bytes behind its descriptor, as the
/// IEEE 754 bit pattern of each value.
pub fn read_double_column(data: &[u8]) -> (r: Result<Vec<u64>, DruidSegmentError>)
    ensures
        match double_column(data@) {
            Ok(values) => r matches Ok(v) && v@ == values,
            Err(kind) => r matches Err(e) && e.spec_kind() == kind,
        },
{
    match CompressedColumnarDoubles::from_bytes(data) {
        Ok(doubles) => doubles.decompress_all(),
        Err(e) => Err(e),
    }
}

} // verus!
