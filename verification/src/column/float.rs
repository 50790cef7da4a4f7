use crate::column::compressed_doubles::{floating_header, floats_decoded, CompressedColumnarFloats};
use crate::error::{DruidSegmentError, ErrorKind};
use vstd::prelude::*;

verus! {

/// The values of a float column, as IEEE 754 bit patterns.
pub open spec fn float_column(data: Seq<u8>) -> Result<Seq<u32>, ErrorKind> {
    match floating_header(data, 4) {
        Ok(set) => floats_decoded(set),
        Err(kind) => Err(kind),
    }
}

/// Decodes a float column from the bytes behind its descriptor, as the
/// IEEE 754 bit pattern of each value.
pub fn read_float_column(data: &[u8]) -> (r: Result<Vec<u32>, DruidSegmentError>)
    ensures
        match float_column(data@) {
            Ok(values) => r matches Ok(v) && v@ == values,
            Err(kind) => r matches Err(e) && e.spec_kind() == kind,
        },
{
    match CompressedColumnarFloats::from_bytes(data) {
        Ok(floats) => floats.decompress_all(),
        Err(e) => Err(e),
    }
}

} // verus!
