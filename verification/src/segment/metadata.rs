use crate::byte_order::{be_i64, read_i64_at};
use crate::column::generic_indexed::{
    gi_count, gi_header_error, gi_object_string, gi_total_size, GenericIndexedV1,
};
use crate::error::{invalid_data, DruidSegmentError, ErrorKind};
use vstd::prelude::*;
use vstd::slice::slice_subrange;
use vstd::utf8::encode_utf8;

verus! {

/// Whether every element of a container is a non-empty object-prefixed string.
pub open spec fn all_named(data: Seq<u8>) -> bool {
    forall|i: int| 0 <= i < gi_count(data) ==> (#[trigger] gi_object_string(data, i)) matches Some(
        Some(_),
    )
}

/// The UTF-8 bytes of each element of a name list, in order.
pub open spec fn name_bytes(data: Seq<u8>) -> Seq<Seq<u8>> {
    Seq::new(gi_count(data) as nat, |i: int| gi_object_string(data, i).unwrap().unwrap())
}

/// Why a buffer is not accepted as a name list that is followed by more
/// data, or `None` where it is: its container header must be valid, every
/// element must be a non-empty object-prefixed string, and the container must
/// end inside the buffer.
pub open spec fn name_list_error(data: Seq<u8>) -> Option<ErrorKind> {
    match gi_header_error(data) {
        Some(kind) => Some(kind),
        None => match gi_total_size(data) {
            Some(size) => if all_named(data) && size <= data.len() {
                None
            } else {
                Some(ErrorKind::InvalidData)
            },
            None => Some(ErrorKind::InvalidData),
        },
    }
}

/// What an index file holds.
pub struct IndexLayout {
    /// The UTF-8 bytes of each column name, in order.
    pub columns: Seq<Seq<u8>>,
    /// The UTF-8 bytes of each dimension name, in order.
    pub dimensions: Seq<Seq<u8>>,
    /// Start of the interval, in milliseconds since the epoch.
    pub interval_start_ms: int,
    /// End of the interval (exclusive), in milliseconds since the epoch.
    pub interval_end_ms: int,
}

/// The contents of an index file: two name lists, one behind the other, then
/// two big-endian `i64` timestamps. What follows them is ignored.
pub open spec fn index_layout(data: Seq<u8>) -> Result<IndexLayout, ErrorKind> {
    match name_list_error(data) {
        Some(kind) => Err(kind),
        None => {
            let rest = data.subrange(gi_total_size(data).unwrap(), data.len() as int);
            match name_list_error(rest) {
                Some(kind) => Err(kind),
                None => {
                    let at = gi_total_size(rest).unwrap();
                    if rest.len() < at + 16 {
                        Err(ErrorKind::InvalidData)
                    } else {
                        Ok(
                            IndexLayout {
                                columns: name_bytes(data),
                                dimensions: name_bytes(rest),
                                interval_start_ms: be_i64(rest, at),
                                interval_end_ms: be_i64(rest, at + 8),
                            },
                        )
                    }
                },
            }
        },
    }
}

/// Whether a list of strings spells the given list of UTF-8 byte strings.
pub open spec fn spells(names: Seq<String>, bytes: Seq<Seq<u8>>) -> bool {
    &&& names.len() == bytes.len()
    &&& forall|i: int| 0 <= i < names.len() ==> encode_utf8(#[trigger] names[i]@) == bytes[i]
}

/// Segment metadata, decoded from the logical file `index.drd`.
#[derive(Debug, Clone)]
pub struct SegmentMetadata {
    /// Column names, in index order.
    pub columns: Vec<String>,
    /// Names of the columns that are dimensions, in index order.
    pub dimensions: Vec<String>,
    /// Start of the segment's interval, in milliseconds since the epoch.
    pub interval_start_ms: i64,
    /// End of the segment's interval (exclusive), in milliseconds since the epoch.
    pub interval_end_ms: i64,
}

/// Reads every element of a name list. `Ok` exactly where all of them are
/// non-empty object-prefixed strings.
fn read_names(list: &GenericIndexedV1<'_>) -> (r: Result<Vec<String>, DruidSegmentError>)
    ensures
        if all_named(list.bytes()) {
            r matches Ok(names) && spells(names@, name_bytes(list.bytes()))
        } else {
            r matches Err(DruidSegmentError::InvalidData(_))
        },
{
    let n = list.len();
    let ghost data = list.bytes();
    let mut names: Vec<String> = Vec::new();
    let mut i: usize = 0;
    while i < n
        invariant
            i <= n == gi_count(data),
            data == list.bytes(),
            names@.len() == i,
            forall|j: int| 0 <= j < i ==> (#[trigger] gi_object_string(data, j)) matches Some(Some(_)),
            forall|j: int|
                0 <= j < i ==> encode_utf8(#[trigger] names@[j]@) == gi_object_string(
                    data,
                    j,
                ).unwrap().unwrap(),
        decreases n - i,
    {
        match list.get_object_string(i) {
            Ok(Some(name)) => {
                names.push(name.to_owned());
            },
            Ok(None) => {
                return invalid_data("index.drd: null name");
            },
            Err(e) => {
                return Err(e);
            },
        }
        i = i + 1;
    }
    Ok(names)
}

/// Reads the name list at the start of `data` and returns it with the number
/// of bytes that it occupies.
fn read_name_list(data: &[u8]) -> (r: Result<(Vec<String>, usize), DruidSegmentError>)
    ensures
        match name_list_error(data@) {
            None => r matches Ok((names, size)) && spells(names@, name_bytes(data@)) && size
                == gi_total_size(data@).unwrap() && size <= data@.len(),
            Some(kind) => r matches Err(e) && e.spec_kind() == kind,
        },
{
    let len = data.len();
    let list = match GenericIndexedV1::from_bytes(data) {
        Ok(list) => list,
        Err(e) => {
            return Err(e);
        },
    };
    let names = match read_names(&list) {
        Ok(names) => names,
        Err(e) => {
            return Err(e);
        },
    };
    let size = match list.total_size() {
        Ok(size) => size,
        Err(e) => {
            return Err(e);
        },
    };
    if size > len {
        return invalid_data("index.drd: name list ends outside the file");
    }
    Ok((names, size))
}

impl SegmentMetadata {
    /// Whether this metadata is what an index file of the given layout holds.
    pub open spec fn matches_layout(&self, layout: IndexLayout) -> bool {
        &&& spells(self.columns@, layout.columns)
        &&& spells(self.dimensions@, layout.dimensions)
        &&& self.interval_start_ms == layout.interval_start_ms
        &&& self.interval_end_ms == layout.interval_end_ms
    }

    /// Decodes the raw bytes of `index.drd`.
    pub fn from_bytes(data: &[u8]) -> (r: Result<Self, DruidSegmentError>)
        ensures
            match index_layout(data@) {
                Ok(layout) => r matches Ok(m) && m.matches_layout(layout),
                Err(kind) => r matches Err(e) && e.spec_kind() == kind,
            },
    {
        let (columns, first) = match read_name_list(data) {
            Ok(list) => list,
            Err(e) => {
                return Err(e);
            },
        };
        let rest = slice_subrange(data, first, data.len());
        let (dimensions, at) = match read_name_list(rest) {
            Ok(list) => list,
            Err(e) => {
                return Err(e);
            },
        };
        if rest.len() - at < 16 {
            return invalid_data("index.drd: data too short for interval timestamps");
        }
        let interval_start_ms = read_i64_at(rest, at);
        let interval_end_ms = read_i64_at(rest, at + 8);
        Ok(Self { columns, dimensions, interval_start_ms, interval_end_ms })
    }
}

} // verus!
