use crate::byte_order::{be_i32, read_i32_at};
use crate::column::compressed_ints::{ints_decoded, ints_header, CompressedColumnarInts};
use crate::column::generic_indexed::{
    gi_header_error, gi_object_string, gi_total_size, GenericIndexedV1,
};
use crate::column::vsize_ints::{vs_header_ok, vs_values, VSizeColumnarInts};
use crate::error::{invalid_data, DruidSegmentError, ErrorKind};
use vstd::prelude::*;
use vstd::slice::slice_subrange;
use vstd::utf8::encode_utf8;

verus! {

/// Whether every id names a dictionary entry that can be read.
pub open spec fn all_resolvable(dictionary: Seq<u8>, ids: Seq<u32>) -> bool {
    forall|i: int|
        0 <= i < ids.len() ==> (#[trigger] gi_object_string(dictionary, ids[i] as int)) is Some
}

/// Each id replaced by the UTF-8 bytes of its dictionary entry, with `None`
/// for an entry that is empty. An id whose entry cannot be read, because it
/// is out of range or malformed, makes the column invalid data.
pub open spec fn resolved(dictionary: Seq<u8>, ids: Seq<u32>) -> Result<
    Seq<Option<Seq<u8>>>,
    ErrorKind,
> {
    if all_resolvable(dictionary, ids) {
        Ok(Seq::new(ids.len(), |i: int| gi_object_string(dictionary, ids[i] as int).unwrap()))
    } else {
        Err(ErrorKind::InvalidData)
    }
}

/// The dictionary that starts at byte `at` of a string column and the bytes
/// behind it, or why the dictionary is refused: its header must be valid and
/// it must end inside the buffer.
pub open spec fn dictionary_split(data: Seq<u8>, at: int) -> Result<(Seq<u8>, Seq<u8>), ErrorKind> {
    let dictionary = data.subrange(at, data.len() as int);
    match gi_header_error(dictionary) {
        Some(kind) => Err(kind),
        None => match gi_total_size(dictionary) {
            Some(size) => if size <= dictionary.len() {
                Ok((dictionary, dictionary.subrange(size, dictionary.len() as int)))
            } else {
                Err(ErrorKind::InvalidData)
            },
            None => Err(ErrorKind::InvalidData),
        },
    }
}

/// The ids of a legacy string column: a packed variable-width stream.
pub open spec fn packed_ids(encoded: Seq<u8>) -> Result<Seq<u32>, ErrorKind> {
    if vs_header_ok(encoded) {
        match vs_values(encoded) {
            Some(ids) => Ok(ids),
            None => Err(ErrorKind::InvalidData),
        }
    } else {
        Err(ErrorKind::InvalidData)
    }
}

/// The ids of a modern string column: a compressed integer column.
pub open spec fn compressed_ids(encoded: Seq<u8>) -> Result<Seq<u32>, ErrorKind> {
    match ints_header(encoded) {
        Ok(set) => ints_decoded(set),
        Err(kind) => Err(kind),
    }
}

/// The values of a string column that consists of a dictionary at byte `at`
/// and, behind it, an id stream of the given flavor.
pub open spec fn dictionary_column(data: Seq<u8>, at: int, compressed: bool) -> Result<
    Seq<Option<Seq<u8>>>,
    ErrorKind,
> {
    match dictionary_split(data, at) {
        Err(kind) => Err(kind),
        Ok((dictionary, encoded)) => {
            let ids = if compressed {
                compressed_ids(encoded)
            } else {
                packed_ids(encoded)
            };
            match ids {
                Err(kind) => Err(kind),
                Ok(ids) => resolved(dictionary, ids),
            }
        },
    }
}

/// The values of a dictionary-encoded string column, each as its UTF-8 bytes
/// or `None` for a null slot. The first byte selects the layout:
/// `0x00`, a dictionary and a packed id stream; `0x02`, four flag bytes that
/// are ignored, a dictionary and a compressed id stream; `0x03`, as `0x02`
/// with the four bytes read as a feature mask that must be zero. Whatever
/// follows the id stream is ignored.
pub open spec fn string_column(data: Seq<u8>) -> Result<Seq<Option<Seq<u8>>>, ErrorKind> {
    if data.len() == 0 {
        Err(ErrorKind::InvalidData)
    } else if data[0] == 0 {
        dictionary_column(data, 1, false)
    } else if data[0] == 2 {
        if data.len() < 5 {
            Err(ErrorKind::InvalidData)
        } else {
            dictionary_column(data, 5, true)
        }
    } else if data[0] == 3 {
        if data.len() < 5 || be_i32(data, 1) != 0 {
            Err(ErrorKind::InvalidData)
        } else {
            dictionary_column(data, 5, true)
        }
    } else {
        Err(ErrorKind::InvalidData)
    }
}

/// Whether a list of optional strings spells the given list of optional
/// UTF-8 byte strings, null slots in the same places.
pub open spec fn spells_optional(values: Seq<Option<String>>, bytes: Seq<Option<Seq<u8>>>) -> bool {
    &&& values.len() == bytes.len()
    &&& forall|i: int|
        0 <= i < values.len() ==> match (#[trigger] values[i], bytes[i]) {
            (Some(s), Some(b)) => encode_utf8(s@) == b,
            (None, None) => true,
            _ => false,
        }
}

/// Parses the dictionary at byte `at` of `data` and returns it with the
/// bytes behind it.
fn split_dictionary<'a>(data: &'a [u8], at: usize) -> (r: Result<
    (GenericIndexedV1<'a>, &'a [u8]),
    DruidSegmentError,
>)
    requires
        at <= data@.len(),
    ensures
        match dictionary_split(data@, at as int) {
            Ok((dictionary, encoded)) => r matches Ok((d, e)) && d.bytes() == dictionary && e@
                == encoded,
            Err(kind) => r matches Err(e) && e.spec_kind() == kind,
        },
{
    let bytes = slice_subrange(data, at, data.len());
    let len = bytes.len();
    let dictionary = match GenericIndexedV1::from_bytes(bytes) {
        Ok(dictionary) => dictionary,
        Err(e) => {
            return Err(e);
        },
    };
    let size = match dictionary.total_size() {
        Ok(size) => size,
        Err(e) => {
            return Err(e);
        },
    };
    if size > len {
        return invalid_data("String column: dictionary ends outside the column");
    }
    Ok((dictionary, slice_subrange(bytes, size, len)))
}

/// Replaces each id by its dictionary entry.
fn resolve_dictionary(dictionary: &GenericIndexedV1<'_>, ids: &Vec<u32>) -> (r: Result<
    Vec<Option<String>>,
    DruidSegmentError,
>)
    ensures
        match resolved(dictionary.bytes(), ids@) {
            Ok(values) => r matches Ok(v) && spells_optional(v@, values),
            Err(kind) => r matches Err(e) && e.spec_kind() == kind,
        },
{
    let ghost dict = dictionary.bytes();
    let n = ids.len();
    let mut values: Vec<Option<String>> = Vec::with_capacity(n);
    let mut i: usize = 0;
    while i < n
        invariant
            i <= n == ids@.len(),
            dict == dictionary.bytes(),
            values@.len() == i,
            forall|j: int| 0 <= j < i ==> (#[trigger] gi_object_string(dict, ids@[j] as int)) is Some,
            forall|j: int|
                0 <= j < i ==> match (#[trigger] values@[j], gi_object_string(
                    dict,
                    ids@[j] as int,
                ).unwrap()) {
                    (Some(s), Some(b)) => encode_utf8(s@) == b,
                    (None, None) => true,
                    _ => false,
                },
        decreases n - i,
    {
        let id = ids[i];
        match dictionary.get_object_string(id as usize) {
            Ok(Some(value)) => {
                values.push(Some(value.to_owned()));
            },
            Ok(None) => {
                values.push(None);
            },
            Err(e) => {
                return Err(e);
            },
        }
        i = i + 1;
    }
    Ok(values)
}

/// Legacy layout: a dictionary and a packed id stream behind the version byte.
fn read_string_v0(data: &[u8]) -> (r: Result<Vec<Option<String>>, DruidSegmentError>)
    requires
        data@.len() >= 1,
    ensures
        match dictionary_column(data@, 1, false) {
            Ok(values) => r matches Ok(v) && spells_optional(v@, values),
            Err(kind) => r matches Err(e) && e.spec_kind() == kind,
        },
{
    let (dictionary, rest) = match split_dictionary(data, 1) {
        Ok(parts) => parts,
        Err(e) => {
            return Err(e);
        },
    };
    let encoded = match VSizeColumnarInts::from_bytes(rest) {
        Ok(encoded) => encoded,
        Err(e) => {
            return Err(e);
        },
    };
    let ids = match encoded.to_vec() {
        Ok(ids) => ids,
        Err(e) => {
            return Err(e);
        },
    };
    resolve_dictionary(&dictionary, &ids)
}

/// Modern layout: a dictionary and a compressed id stream behind the version
/// byte and four more bytes.
fn read_string_compressed(data: &[u8]) -> (r: Result<Vec<Option<String>>, DruidSegmentError>)
    requires
        data@.len() >= 5,
    ensures
        match dictionary_column(data@, 5, true) {
            Ok(values) => r matches Ok(v) && spells_optional(v@, values),
            Err(kind) => r matches Err(e) && e.spec_kind() == kind,
        },
{
    let (dictionary, rest) = match split_dictionary(data, 5) {
        Ok(parts) => parts,
        Err(e) => {
            return Err(e);
        },
    };
    let encoded = match CompressedColumnarInts::from_bytes(rest) {
        Ok(encoded) => encoded,
        Err(e) => {
            return Err(e);
        },
    };
    let ids = match encoded.decompress_all() {
        Ok(ids) => ids,
        Err(e) => {
            return Err(e);
        },
    };
    resolve_dictionary(&dictionary, &ids)
}

/// Version `0x02`: the four bytes behind the version are flags, which are ignored.
fn read_string_v2(data: &[u8]) -> (r: Result<Vec<Option<String>>, DruidSegmentError>)
    requires
        data@.len() >= 1,
        data@[0] == 2,
    ensures
        match string_column(data@) {
            Ok(values) => r matches Ok(v) && spells_optional(v@, values),
            Err(kind) => r matches Err(e) && e.spec_kind() == kind,
        },
{
    if data.len() < 5 {
        return invalid_data("String column v2: data too short for flags");
    }
    read_string_compressed(data)
}

/// Version `0x03`: the four bytes behind the version are a feature mask, of
/// which no bit is known, so that any bit set is refused.
fn read_string_v3(data: &[u8]) -> (r: Result<Vec<Option<String>>, DruidSegmentError>)
    requires
        data@.len() >= 1,
        data@[0] == 3,
    ensures
        match string_column(data@) {
            Ok(values) => r matches Ok(v) && spells_optional(v@, values),
            Err(kind) => r matches Err(e) && e.spec_kind() == kind,
        },
{
    if data.len() < 5 {
        return invalid_data("String column v3: data too short for feature mask");
    }
    let feature_mask = read_i32_at(data, 1);
    if feature_mask != 0 {
        return invalid_data("String column v3: unknown feature bit");
    }
    read_string_compressed(data)
}

/// Decodes a dictionary-encoded string column from the bytes behind its
/// descriptor: one optional string per row.
pub fn read_string_column(data: &[u8]) -> (r: Result<Vec<Option<String>>, DruidSegmentError>)
    ensures
        match string_column(data@) {
            Ok(values) => r matches Ok(v) && spells_optional(v@, values),
            Err(kind) => r matches Err(e) && e.spec_kind() == kind,
        },
{
    if data.len() == 0 {
        return invalid_data("String column: empty data");
    }
    let version = data[0];
    if version == 0x00 {
        read_string_v0(data)
    } else if version == 0x02 {
        read_string_v2(data)
    } else if version == 0x03 {
        read_string_v3(data)
    } else {
        invalid_data("String column: unsupported version")
    }
}

} // verus!
