use crate::byte_order::{be_i32, read_i32_at, str_from_utf8};
use crate::error::{invalid_data, DruidSegmentError, ErrorKind};
use vstd::prelude::*;
use vstd::slice::slice_subrange;
use vstd::string::StringSliceAdditionalSpecFns;
use vstd::utf8::valid_utf8;

verus! {

/// The only container version that is decoded.
pub const VERSION_V1: u8 = 0x01;

/// Bytes before the offset table: version, flags, total byte count, element count.
pub const HEADER_SIZE: usize = 10;

/// Whether `data` starts with a version-1 header that announces a
/// non-negative element count.
pub open spec fn gi_header_ok(data: Seq<u8>) -> bool {
    data.len() >= 10 && data[0] == 1 && be_i32(data, 6) >= 0
}

/// Why a buffer is not accepted as a container, or `None` where it is: a
/// first byte other than 1 is an invalid version; an empty buffer, a buffer
/// shorter than the header and a negative element count are invalid data.
pub open spec fn gi_header_error(data: Seq<u8>) -> Option<ErrorKind> {
    if data.len() == 0 {
        Some(ErrorKind::InvalidData)
    } else if data[0] != 1 {
        Some(ErrorKind::InvalidGenericIndexedVersion(data[0]))
    } else if gi_header_ok(data) {
        None
    } else {
        Some(ErrorKind::InvalidData)
    }
}

/// The element count that the header announces.
pub open spec fn gi_count(data: Seq<u8>) -> int {
    be_i32(data, 6)
}

/// Where the values area starts: behind the header and the offset table.
pub open spec fn gi_values_start(data: Seq<u8>) -> int {
    10 + 4 * gi_count(data)
}

/// The `i`-th entry of the offset table: the end of element `i`, relative to
/// the values area. `None` where the entry lies outside the buffer or is negative.
pub open spec fn gi_offset(data: Seq<u8>, i: int) -> Option<int> {
    let pos = 10 + 4 * i;
    if 0 <= i && pos + 4 <= data.len() && be_i32(data, pos) >= 0 {
        Some(be_i32(data, pos))
    } else {
        None
    }
}

/// The half-open range of element `i`, relative to the values area: from the
/// end of its predecessor (zero for the first) to its own end.
pub open spec fn gi_range(data: Seq<u8>, i: int) -> Option<(int, int)> {
    if 0 <= i < gi_count(data) {
        let start = if i == 0 {
            Some(0int)
        } else {
            gi_offset(data, i - 1)
        };
        match (start, gi_offset(data, i)) {
            (Some(s), Some(e)) => Some((s, e)),
            _ => None,
        }
    } else {
        None
    }
}

/// The half-open range of element `i` within the buffer; `None` where its
/// range is unreadable, reversed, or ends outside the buffer.
pub open spec fn gi_abs_range(data: Seq<u8>, i: int) -> Option<(int, int)> {
    match gi_range(data, i) {
        Some((s, e)) => {
            let base = gi_values_start(data);
            if s <= e && base + e <= data.len() {
                Some((base + s, base + e))
            } else {
                None
            }
        },
        None => None,
    }
}

/// The raw bytes of element `i`, as the offset table delimits them.
pub open spec fn gi_raw(data: Seq<u8>, i: int) -> Option<Seq<u8>> {
    match gi_abs_range(data, i) {
        Some((a, b)) => Some(data.subrange(a, b)),
        None => None,
    }
}

/// Element `i` under the length-prefix convention: `Some(None)` for a null
/// element (negative length), `Some(Some(bytes))` for a value, where the
/// announced number of bytes follows the prefix inside the buffer, and `None`
/// for an element that cannot be read.
pub open spec fn gi_length_prefixed(data: Seq<u8>, i: int) -> Option<Option<Seq<u8>>> {
    match gi_abs_range(data, i) {
        Some((a, b)) => {
            if b - a < 4 {
                None
            } else if be_i32(data, a) < 0 {
                Some(None)
            } else if a + 4 + be_i32(data, a) <= data.len() {
                Some(Some(data.subrange(a + 4, a + 4 + be_i32(data, a))))
            } else {
                None
            }
        },
        None => None,
    }
}

/// Element `i` under the object-prefix convention: four zero bytes, then the
/// payload. `Some(None)` for an empty payload, `Some(Some(bytes))` for a
/// payload that is well-formed UTF-8, `None` otherwise.
pub open spec fn gi_object_string(data: Seq<u8>, i: int) -> Option<Option<Seq<u8>>> {
    match gi_raw(data, i) {
        Some(raw) => {
            if raw.len() < 4 || raw[0] != 0 || raw[1] != 0 || raw[2] != 0 || raw[3] != 0 {
                None
            } else if raw.len() == 4 {
                Some(None)
            } else if valid_utf8(raw.subrange(4, raw.len() as int)) {
                Some(Some(raw.subrange(4, raw.len() as int)))
            } else {
                None
            }
        },
        None => None,
    }
}

/// Element `i` under the length-prefix convention, as text: as
/// `gi_length_prefixed`, but a value that is not well-formed UTF-8 cannot be read.
pub open spec fn gi_str(data: Seq<u8>, i: int) -> Option<Option<Seq<u8>>> {
    match gi_length_prefixed(data, i) {
        Some(Some(bytes)) => if valid_utf8(bytes) {
            Some(Some(bytes))
        } else {
            None
        },
        Some(None) => Some(None),
        None => None,
    }
}

/// The number of bytes that the container occupies: up to the end of its last
/// element, or just the header where it has none.
pub open spec fn gi_total_size(data: Seq<u8>) -> Option<int> {
    if gi_count(data) == 0 {
        Some(10)
    } else {
        match gi_offset(data, gi_count(data) - 1) {
            Some(end) => Some(gi_values_start(data) + end),
            None => None,
        }
    }
}

/// A view of a version-1 offset-indexed container over borrowed bytes.
///
/// Layout, big-endian: version `0x01`, a flags byte, a total byte count
/// (`i32`, not used), the element count `N` (`i32`), `N` cumulative end
/// offsets (`i32` each, relative to the values area), and the values area.
/// The offsets are read on demand.
#[derive(Debug)]
pub struct GenericIndexedV1<'a> {
    data: &'a [u8],
    num_elements: usize,
    values_start: u64,
}

impl<'a> GenericIndexedV1<'a> {
    #[verifier::type_invariant]
    spec fn well_formed(&self) -> bool {
        &&& gi_header_ok(self.data@)
        &&& self.num_elements == gi_count(self.data@)
        &&& self.values_start == gi_values_start(self.data@)
    }

    /// The bytes that the container was parsed from.
    pub closed spec fn bytes(&self) -> Seq<u8> {
        self.data@
    }

    /// Parses the header. An empty buffer, a buffer shorter than the header
    /// and a negative element count are `InvalidData`; a version other than 1
    /// is `InvalidGenericIndexedVersion`.
    pub fn from_bytes(data: &'a [u8]) -> (r: Result<Self, DruidSegmentError>)
        ensures
            match gi_header_error(data@) {
                None => r matches Ok(g) && g.bytes() == data@,
                Some(kind) => r matches Err(e) && e.spec_kind() == kind,
            },
    {
        if data.len() == 0 {
            return invalid_data("GenericIndexed: empty data");
        }
        let version = data[0];
        if version != VERSION_V1 {
            return Err(DruidSegmentError::InvalidGenericIndexedVersion(version));
        }
        if data.len() < HEADER_SIZE {
            return invalid_data("GenericIndexed V1: data too short for header");
        }
        let count = read_i32_at(data, 6);
        if count < 0 {
            return invalid_data("GenericIndexed V1: negative element count");
        }
        let values_start: u64 = 10 + 4 * (count as u64);
        Ok(Self { data, num_elements: count as usize, values_start })
    }

    /// Number of elements.
    pub fn len(&self) -> (n: usize)
        ensures
            n == gi_count(self.bytes()),
            gi_header_ok(self.bytes()),
    {
        proof {
            use_type_invariant(self);
        }
        self.num_elements
    }

    /// Whether the container has no element.
    pub fn is_empty(&self) -> (b: bool)
        ensures
            b <==> gi_count(self.bytes()) == 0,
    {
        proof {
            use_type_invariant(self);
        }
        self.num_elements == 0
    }

    /// The `i`-th entry of the offset table.
    fn offset_at(&self, i: usize) -> (r: Result<usize, DruidSegmentError>)
        requires
            i < 0x8000_0000,
        ensures
            match gi_offset(self.bytes(), i as int) {
                Some(end) => r == Ok::<usize, DruidSegmentError>(end as usize) && end
                    < 0x8000_0000,
                None => r matches Err(DruidSegmentError::InvalidData(_)),
            },
    {
        let pos: u64 = 10 + 4 * (i as u64);
        if pos + 4 > self.data.len() as u64 {
            return invalid_data("GenericIndexed: offset out of bounds");
        }
        let end = read_i32_at(self.data, pos as usize);
        if end < 0 {
            return invalid_data("GenericIndexed: negative offset");
        }
        Ok(end as usize)
    }

    /// The half-open byte range of element `i`, relative to the values area.
    /// An index that is out of range is `InvalidData`, as is an offset that
    /// cannot be read.
    pub fn element_range(&self, i: usize) -> (r: Result<(usize, usize), DruidSegmentError>)
        ensures
            match gi_range(self.bytes(), i as int) {
                Some((s, e)) => r == Ok::<(usize, usize), DruidSegmentError>(
                    (s as usize, e as usize),
                ) && 0 <= s < 0x8000_0000 && 0 <= e < 0x8000_0000,
                None => r matches Err(DruidSegmentError::InvalidData(_)),
            },
    {
        proof {
            use_type_invariant(self);
        }
        if i >= self.num_elements {
            return invalid_data("GenericIndexed: index out of range");
        }
        let start: usize = if i == 0 {
            0
        } else {
            match self.offset_at(i - 1) {
                Ok(s) => s,
                Err(e) => {
                    return Err(e);
                },
            }
        };
        match self.offset_at(i) {
            Ok(end) => Ok((start, end)),
            Err(e) => Err(e),
        }
    }

    /// The absolute byte range of element `i` within the buffer.
    fn absolute_range(&self, i: usize) -> (r: Result<(usize, usize), DruidSegmentError>)
        ensures
            match gi_abs_range(self.bytes(), i as int) {
                Some((a, b)) => r == Ok::<(usize, usize), DruidSegmentError>(
                    (a as usize, b as usize),
                ) && 0 <= a <= b <= self.bytes().len() <= usize::MAX,
                None => r matches Err(DruidSegmentError::InvalidData(_)),
            },
    {
        proof {
            use_type_invariant(self);
        }
        let (start, end) = match self.element_range(i) {
            Ok(range) => range,
            Err(e) => {
                return Err(e);
            },
        };
        let abs_end: u64 = self.values_start + end as u64;
        if start > end || abs_end > self.data.len() as u64 {
            return invalid_data("GenericIndexed: element range exceeds buffer");
        }
        let abs_start: u64 = self.values_start + start as u64;
        Ok((abs_start as usize, abs_end as usize))
    }

    /// Element `i` under the length-prefix convention: `None` for a null
    /// element, else its bytes.
    pub fn get(&self, index: usize) -> (r: Result<Option<&'a [u8]>, DruidSegmentError>)
        ensures
            match gi_length_prefixed(self.bytes(), index as int) {
                Some(Some(bytes)) => r matches Ok(Some(v)) && v@ == bytes,
                Some(None) => r matches Ok(None),
                None => r matches Err(DruidSegmentError::InvalidData(_)),
            },
    {
        let (abs_start, abs_end) = match self.absolute_range(index) {
            Ok(range) => range,
            Err(e) => {
                return Err(e);
            },
        };
        if abs_end - abs_start < 4 {
            return invalid_data("GenericIndexed: element too short for length prefix");
        }
        let length = read_i32_at(self.data, abs_start);
        if length < 0 {
            return Ok(None);
        }
        let value_start: u64 = abs_start as u64 + 4;
        let value_end: u64 = value_start + length as u64;
        if value_end > self.data.len() as u64 {
            return invalid_data("GenericIndexed: element value overflows buffer");
        }
        Ok(Some(slice_subrange(self.data, value_start as usize, value_end as usize)))
    }

    /// The bytes of element `i` as the offset table delimits them.
    pub fn get_raw(&self, index: usize) -> (r: Result<&'a [u8], DruidSegmentError>)
        ensures
            match gi_raw(self.bytes(), index as int) {
                Some(raw) => r matches Ok(v) && v@ == raw,
                None => r matches Err(DruidSegmentError::InvalidData(_)),
            },
    {
        match self.absolute_range(index) {
            Ok((abs_start, abs_end)) => Ok(slice_subrange(self.data, abs_start, abs_end)),
            Err(e) => Err(e),
        }
    }

    /// Element `i` under the object-prefix convention: four zero bytes, then
    /// UTF-8 text. An empty text is reported as `None`.
    pub fn get_object_string(&self, index: usize) -> (r: Result<
        Option<&'a str>,
        DruidSegmentError,
    >)
        ensures
            match gi_object_string(self.bytes(), index as int) {
                Some(Some(bytes)) => r matches Ok(Some(s)) && s.spec_bytes() == bytes,
                Some(None) => r matches Ok(None),
                None => r matches Err(DruidSegmentError::InvalidData(_)),
            },
    {
        let raw = match self.get_raw(index) {
            Ok(raw) => raw,
            Err(e) => {
                return Err(e);
            },
        };
        if raw.len() < 4 {
            return invalid_data("GenericIndexed: element too short for object prefix");
        }
        if raw[0] != 0 || raw[1] != 0 || raw[2] != 0 || raw[3] != 0 {
            return invalid_data("GenericIndexed: element has an unexpected object prefix");
        }
        if raw.len() == 4 {
            return Ok(None);
        }
        match str_from_utf8(slice_subrange(raw, 4, raw.len())) {
            Some(s) => Ok(Some(s)),
            None => invalid_data("GenericIndexed: element is not valid UTF-8"),
        }
    }

    /// Element `i` under the length-prefix convention, as UTF-8 text.
    pub fn get_str(&self, index: usize) -> (r: Result<Option<&'a str>, DruidSegmentError>)
        ensures
            match gi_str(self.bytes(), index as int) {
                Some(Some(bytes)) => r matches Ok(Some(s)) && s.spec_bytes() == bytes,
                Some(None) => r matches Ok(None),
                None => r matches Err(DruidSegmentError::InvalidData(_)),
            },
    {
        match self.get(index) {
            Ok(Some(bytes)) => match str_from_utf8(bytes) {
                Some(s) => Ok(Some(s)),
                None => invalid_data("GenericIndexed: element is not valid UTF-8"),
            },
            Ok(None) => Ok(None),
            Err(e) => Err(e),
        }
    }

    /// The number of bytes that the container occupies, for stepping past it
    /// inside a larger layout. `InvalidData` where the last offset cannot be
    /// read or the size does not fit in `usize`.
    pub fn total_size(&self) -> (r: Result<usize, DruidSegmentError>)
        ensures
            match gi_total_size(self.bytes()) {
                Some(size) => if size <= usize::MAX {
                    r == Ok::<usize, DruidSegmentError>(size as usize)
                } else {
                    r matches Err(DruidSegmentError::InvalidData(_))
                },
                None => r matches Err(DruidSegmentError::InvalidData(_)),
            },
    {
        proof {
            use_type_invariant(self);
        }
        if self.num_elements == 0 {
            return Ok(HEADER_SIZE);
        }
        let last = match self.offset_at(self.num_elements - 1) {
            Ok(last) => last,
            Err(e) => {
                return Err(e);
            },
        };
        let total: u64 = self.values_start + last as u64;
        if total > usize::MAX as u64 {
            return invalid_data("GenericIndexed: size exceeds the address space");
        }
        Ok(total as usize)
    }
}

} // verus!
