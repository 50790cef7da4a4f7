use crate::error::{DruidSegmentError, ErrorKind};
use vstd::prelude::*;
use vstd::slice::slice_subrange;

verus! {

/// Type tag of a roaring bitmap payload.
pub const BITMAP_TYPE_ROARING: u8 = 0x01;

/// Type tag of a legacy concise bitmap payload, which is not decoded.
pub const BITMAP_TYPE_CONCISE: u8 = 0x00;

#[verifier::external_type_specification]
#[verifier::external_body]
pub struct ExRoaringBitmap(roaring::RoaringBitmap);

#[verifier::external_type_specification]
#[verifier::external_body]
pub struct ExIoError(std::io::Error);

/// The integers that a bitmap holds.
pub uninterp spec fn bitmap_members(bitmap: roaring::RoaringBitmap) -> Set<u32>;

/// The set that `RoaringBitmap::deserialize_from` reads a byte string as, or
/// `None` where it reports an error. The roaring format is not restated here.
pub uninterp spec fn roaring_decoded(bytes: Seq<u8>) -> Option<Set<u32>>;

/// `RoaringBitmap::new`. Trusted: the crate's source builds a bitmap without
/// containers, which holds nothing.
#[verifier::external_body]
fn roaring_new() -> (r: roaring::RoaringBitmap)
    ensures
        bitmap_members(r) == Set::<u32>::empty(),
{
    roaring::RoaringBitmap::new()
}

/// `RoaringBitmap::deserialize_from`, reading from a byte slice. Trusted: the
/// result is a function of the bytes alone, named `roaring_decoded`.
#[verifier::external_body]
fn roaring_deserialize(bytes: &[u8]) -> (r: Result<roaring::RoaringBitmap, std::io::Error>)
    ensures
        r is Ok <==> roaring_decoded(bytes@) is Some,
        r matches Ok(bitmap) ==> roaring_decoded(bytes@) == Some(bitmap_members(bitmap)),
{
    roaring::RoaringBitmap::deserialize_from(bytes)
}

/// The `Display` text of an I/O error. Trusted; nothing is claimed of the text.
#[verifier::external_body]
fn io_error_text(e: &std::io::Error) -> String {
    format!("{}", e)
}

/// The set that a bitmap payload holds: nothing for an empty payload; for
/// tag `0x01` what the roaring decoder reads from the bytes behind the tag,
/// invalid data where it refuses them; tag `0x00` is unsupported; any other
/// tag is invalid data.
pub open spec fn bitmap_decoded(data: Seq<u8>) -> Result<Set<u32>, ErrorKind> {
    if data.len() == 0 {
        Ok(Set::empty())
    } else if data[0] == 1 {
        match roaring_decoded(data.subrange(1, data.len() as int)) {
            Some(members) => Ok(members),
            None => Err(ErrorKind::InvalidData),
        }
    } else if data[0] == 0 {
        Err(ErrorKind::UnsupportedColumnType)
    } else {
        Err(ErrorKind::InvalidData)
    }
}

/// What is handed on for each outcome of the roaring decoder: the bitmap, or
/// invalid data with the decoder's message.
pub fn accept_bitmap(decoded: Result<roaring::RoaringBitmap, std::io::Error>) -> (r: Result<
    roaring::RoaringBitmap,
    DruidSegmentError,
>)
    ensures
        match decoded {
            Ok(bitmap) => r == Ok::<roaring::RoaringBitmap, DruidSegmentError>(bitmap),
            Err(_) => r matches Err(DruidSegmentError::InvalidData(_)),
        },
{
    match decoded {
        Ok(bitmap) => Ok(bitmap),
        Err(e) => Err(DruidSegmentError::InvalidData(io_error_text(&e))),
    }
}

/// Reads a bitmap from its serialized form: a type tag, then the body.
pub fn read_bitmap(data: &[u8]) -> (r: Result<roaring::RoaringBitmap, DruidSegmentError>)
    ensures
        match bitmap_decoded(data@) {
            Ok(members) => r matches Ok(bitmap) && bitmap_members(bitmap) == members,
            Err(kind) => r matches Err(e) && e.spec_kind() == kind,
        },
{
    if data.len() == 0 {
        return Ok(roaring_new());
    }
    let bitmap_type = data[0];
    if bitmap_type == BITMAP_TYPE_ROARING {
        accept_bitmap(roaring_deserialize(slice_subrange(data, 1, data.len())))
    } else if bitmap_type == BITMAP_TYPE_CONCISE {
        Err(
            DruidSegmentError::UnsupportedColumnType(
                "Concise bitmap format is not supported".to_owned(),
            ),
        )
    } else {
        Err(DruidSegmentError::InvalidData("Unknown bitmap type".to_owned()))
    }
}

/// Reads a null bitmap: the set of rows that hold no value. An empty payload
/// means that no row is null.
pub fn read_null_bitmap(data: &[u8]) -> (r: Result<roaring::RoaringBitmap, DruidSegmentError>)
    ensures
        match bitmap_decoded(data@) {
            Ok(members) => r matches Ok(bitmap) && bitmap_members(bitmap) == members,
            Err(kind) => r matches Err(e) && e.spec_kind() == kind,
        },
{
    read_bitmap(data)
}

} // verus!
