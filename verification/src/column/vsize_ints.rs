use crate::byte_order::{be_i32, be_uint, lemma_be_uint_bound, read_be_uint, read_i32_at};
use crate::error::{invalid_data, DruidSegmentError};
use vstd::prelude::*;

verus! {

/// The only stream version that is decoded.
pub const VERSION: u8 = 0x00;

/// Bytes before the packed values: version, width, buffer size.
pub const HEADER_SIZE: usize = 6;

/// Whether `data` starts with a version-0 header that names a width of one to
/// four bytes and a non-negative buffer size.
pub open spec fn vs_header_ok(data: Seq<u8>) -> bool {
    data.len() >= 6 && data[0] == 0 && 1 <= data[1] <= 4 && be_i32(data, 2) >= 0
}

/// Bytes per value.
pub open spec fn vs_width(data: Seq<u8>) -> int {
    data[1] as int
}

/// Number of values: the announced buffer size divided by the width.
pub open spec fn vs_count(data: Seq<u8>) -> int {
    be_i32(data, 2) / vs_width(data)
}

/// The `i`-th value; `None` where `i` is out of range or the value's bytes
/// lie outside the buffer.
pub open spec fn vs_value(data: Seq<u8>, i: int) -> Option<u32> {
    if 0 <= i < vs_count(data) && 6 + (i + 1) * vs_width(data) <= data.len() {
        Some(be_uint(data, 6 + i * vs_width(data), vs_width(data) as nat) as u32)
    } else {
        None
    }
}

/// All values in order; `None` where the buffer does not hold all of them.
pub open spec fn vs_values(data: Seq<u8>) -> Option<Seq<u32>> {
    if 6 + vs_count(data) * vs_width(data) <= data.len() {
        Some(
            Seq::new(
                vs_count(data) as nat,
                |i: int| be_uint(data, 6 + i * vs_width(data), vs_width(data) as nat) as u32,
            ),
        )
    } else {
        None
    }
}

/// A view of a packed stream of unsigned integers, each stored in the same
/// number of bytes (one to four), most significant byte first.
///
/// Layout: version `0x00`, the width, the size of the value buffer in bytes
/// (`i32`, big-endian), then the values.
pub struct VSizeColumnarInts<'a> {
    data: &'a [u8],
    num_bytes: usize,
    num_values: usize,
}

impl<'a> VSizeColumnarInts<'a> {
    #[verifier::type_invariant]
    spec fn well_formed(&self) -> bool {
        &&& vs_header_ok(self.data@)
        &&& self.num_bytes == vs_width(self.data@)
        &&& self.num_values == vs_count(self.data@)
    }

    /// The bytes that the stream was parsed from.
    pub closed spec fn bytes(&self) -> Seq<u8> {
        self.data@
    }

    /// Parses the header. A short buffer, another version, a width outside
    /// one to four and a negative buffer size are all `InvalidData`.
    pub fn from_bytes(data: &'a [u8]) -> (r: Result<Self, DruidSegmentError>)
        ensures
            vs_header_ok(data@) ==> (r matches Ok(v) && v.bytes() == data@),
            !vs_header_ok(data@) ==> r matches Err(DruidSegmentError::InvalidData(_)),
    {
        if data.len() < HEADER_SIZE {
            return invalid_data("VSizeColumnarInts: data too short for header");
        }
        if data[0] != VERSION {
            return invalid_data("VSizeColumnarInts: unexpected version");
        }
        let num_bytes = data[1] as usize;
        if num_bytes == 0 || num_bytes > 4 {
            return invalid_data("VSizeColumnarInts: invalid width, expected 1-4");
        }
        let buffer_size = read_i32_at(data, 2);
        if buffer_size < 0 {
            return invalid_data("VSizeColumnarInts: negative buffer size");
        }
        let num_values = buffer_size as usize / num_bytes;
        Ok(Self { data, num_bytes, num_values })
    }

    /// Number of values.
    pub fn len(&self) -> (n: usize)
        ensures
            n == vs_count(self.bytes()),
            vs_header_ok(self.bytes()),
    {
        proof {
            use_type_invariant(self);
        }
        self.num_values
    }

    /// Whether the stream has no value.
    pub fn is_empty(&self) -> (b: bool)
        ensures
            b <==> vs_count(self.bytes()) == 0,
    {
        proof {
            use_type_invariant(self);
        }
        self.num_values == 0
    }

    /// The value at `index`. An index that is out of range is `InvalidData`,
    /// as is a value whose bytes lie outside the buffer.
    pub fn get(&self, index: usize) -> (r: Result<u32, DruidSegmentError>)
        ensures
            match vs_value(self.bytes(), index as int) {
                Some(v) => r == Ok::<u32, DruidSegmentError>(v),
                None => r matches Err(DruidSegmentError::InvalidData(_)),
            },
    {
        proof {
            use_type_invariant(self);
        }
        if index >= self.num_values {
            return invalid_data("VSizeColumnarInts: index out of range");
        }
        assert(index < 0x8000_0000 && self.num_bytes <= 4);
        assert((index + 1) * self.num_bytes == index * self.num_bytes + self.num_bytes)
            by (nonlinear_arith);
        assert(index * self.num_bytes <= 4 * index) by (nonlinear_arith)
            requires
                self.num_bytes <= 4,
        ;
        let pos: u64 = 6 + (index as u64) * (self.num_bytes as u64);
        if pos + self.num_bytes as u64 > self.data.len() as u64 {
            return invalid_data("VSizeColumnarInts: value lies outside the buffer");
        }
        proof {
            lemma_be_uint_bound(self.data@, pos as int, self.num_bytes as nat);
        }
        Ok(read_be_uint(self.data, pos as usize, self.num_bytes))
    }

    /// All values in order. `InvalidData` where the buffer does not hold all of them.
    pub fn to_vec(&self) -> (r: Result<Vec<u32>, DruidSegmentError>)
        ensures
            match vs_values(self.bytes()) {
                Some(values) => r matches Ok(v) && v@ == values,
                None => r matches Err(DruidSegmentError::InvalidData(_)),
            },
    {
        proof {
            use_type_invariant(self);
        }
        let width = self.num_bytes;
        let count = self.num_values;
        assert(count * width <= 4 * count) by (nonlinear_arith)
            requires
                width <= 4,
        ;
        let end: u64 = 6 + (count as u64) * (width as u64);
        let len = self.data.len();
        if end > len as u64 {
            return invalid_data("VSizeColumnarInts: values lie outside the buffer");
        }
        let mut values: Vec<u32> = Vec::with_capacity(count);
        let mut i: usize = 0;
        while i < count
            invariant
                i <= count,
                1 <= width <= 4,
                width == vs_width(self.data@),
                count == vs_count(self.data@),
                6 + count * width <= len == self.data@.len(),
                values@.len() == i,
                forall|j: int|
                    0 <= j < i ==> values@[j] == be_uint(
                        self.data@,
                        6 + j * width,
                        width as nat,
                    ) as u32,
            decreases count - i,
        {
            assert(0 <= i * width && (i + 1) * width <= count * width) by (nonlinear_arith)
                requires
                    0 <= i < count,
                    1 <= width,
            ;
            assert((i + 1) * width == i * width + width) by (nonlinear_arith);
            let pos: usize = 6 + i * width;
            proof {
                lemma_be_uint_bound(self.data@, pos as int, width as nat);
            }
            let v = read_be_uint(self.data, pos, width);
            values.push(v);
            i = i + 1;
        }
        assert(values@ =~= vs_values(self.data@).unwrap());
        Ok(values)
    }

    /// Total bytes that the stream occupies: the header and the values.
    pub fn total_size(&self) -> (n: usize)
        ensures
            n == 6 + vs_count(self.bytes()) * vs_width(self.bytes()),
    {
        proof {
            use_type_invariant(self);
            let size = be_i32(self.data@, 2);
            let width = vs_width(self.data@);
            assert(0 <= (size / width) * width <= size) by (nonlinear_arith)
                requires
                    size >= 0,
                    width > 0,
            ;
        }
        HEADER_SIZE + self.num_values * self.num_bytes
    }
}

} // verus!
