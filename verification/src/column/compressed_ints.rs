use crate::byte_order::{be_uint, lemma_be_uint_bound, read_be_uint, read_i32_at};
use crate::column::blocks::{block_set_at, block_set_bytes, decode_blocks, BlockSet};
use crate::column::generic_indexed::GenericIndexedV1;
use crate::compression::{strategy_of_id, CompressionStrategy};
use crate::error::{invalid_data, DruidSegmentError, ErrorKind};
use vstd::prelude::*;
use vstd::slice::slice_subrange;

verus! {

/// The block set that the header of a compressed integer column announces, or
/// why the header is refused. Only version 2 exists: byte 9 is the width in
/// bytes (one to four), byte 10 the codec id, and the block container starts
/// at byte 11. Fewer than eleven bytes, another version and another width are
/// invalid data.
pub open spec fn ints_header(data: Seq<u8>) -> Result<BlockSet, ErrorKind> {
    if data.len() < 11 || data[0] != 2 || data[9] < 1 || data[9] > 4 {
        Err(ErrorKind::InvalidData)
    } else {
        match strategy_of_id(data[10]) {
            Some(strategy) => block_set_at(data, strategy, data[9] as int, 11),
            None => Err(ErrorKind::UnsupportedCompression(data[10])),
        }
    }
}

/// The unsigned numbers that a run of bytes holds, `width` bytes each, most
/// significant byte first. Bytes behind the last full number are ignored.
pub open spec fn ints_of_bytes(bytes: Seq<u8>, width: int) -> Seq<u32> {
    Seq::new(
        (bytes.len() as int / width) as nat,
        |j: int| be_uint(bytes, width * j, width as nat) as u32,
    )
}

/// The values of a compressed integer column.
pub open spec fn ints_decoded(set: BlockSet) -> Result<Seq<u32>, ErrorKind> {
    match block_set_bytes(set) {
        Ok(bytes) => Ok(ints_of_bytes(bytes, set.width)),
        Err(kind) => Err(kind),
    }
}

/// A compressed column of unsigned integers of one to four bytes each.
///
/// Header, big-endian: version `0x02`, the total number of values (`i32`),
/// the number of values per block (`i32`), the width in bytes, the codec id,
/// then the block container.
pub struct CompressedColumnarInts<'a> {
    total_size: usize,
    size_per: usize,
    num_bytes: usize,
    compression: CompressionStrategy,
    blocks: GenericIndexedV1<'a>,
}

impl<'a> View for CompressedColumnarInts<'a> {
    type V = BlockSet;

    closed spec fn view(&self) -> BlockSet {
        BlockSet {
            total: self.total_size as int,
            stride: self.size_per as int,
            width: self.num_bytes as int,
            strategy: self.compression,
            blocks: self.blocks.bytes(),
        }
    }
}

impl<'a> CompressedColumnarInts<'a> {
    #[verifier::type_invariant]
    spec fn well_formed(&self) -> bool {
        &&& self.total_size < 0x8000_0000
        &&& self.size_per < 0x8000_0000
        &&& 1 <= self.num_bytes <= 4
    }

    /// Parses the header and the header of the block container.
    pub fn from_bytes(data: &'a [u8]) -> (r: Result<Self, DruidSegmentError>)
        ensures
            match ints_header(data@) {
                Ok(set) => r matches Ok(v) && v@ == set,
                Err(kind) => r matches Err(e) && e.spec_kind() == kind,
            },
    {
        if data.len() < 11 {
            return invalid_data("CompressedColumnarInts: data too short");
        }
        if data[0] != 0x02 {
            return invalid_data("CompressedColumnarInts: unsupported version");
        }
        let num_bytes = data[9] as usize;
        if num_bytes == 0 || num_bytes > 4 {
            return invalid_data("CompressedColumnarInts: invalid width");
        }
        let compression = match CompressionStrategy::from_id(data[10]) {
            Ok(compression) => compression,
            Err(e) => {
                return Err(e);
            },
        };
        let total_size = read_i32_at(data, 1);
        let size_per = read_i32_at(data, 5);
        if total_size < 0 || size_per < 0 {
            return invalid_data("CompressedColumnarInts: negative count");
        }
        let blocks = match GenericIndexedV1::from_bytes(slice_subrange(data, 11, data.len())) {
            Ok(blocks) => blocks,
            Err(e) => {
                return Err(e);
            },
        };
        Ok(
            Self {
                total_size: total_size as usize,
                size_per: size_per as usize,
                num_bytes,
                compression,
                blocks,
            },
        )
    }

    /// Total number of values that the header announces.
    pub fn len(&self) -> (n: usize)
        ensures
            n == self@.total,
    {
        self.total_size
    }

    /// Whether the header announces no value.
    pub fn is_empty(&self) -> (b: bool)
        ensures
            b <==> self@.total == 0,
    {
        self.total_size == 0
    }

    /// Decodes every block in order and reads the values out of them.
    pub fn decompress_all(&self) -> (r: Result<Vec<u32>, DruidSegmentError>)
        ensures
            match ints_decoded(self@) {
                Ok(values) => r matches Ok(v) && v@ == values,
                Err(kind) => r matches Err(e) && e.spec_kind() == kind,
            },
            r matches Ok(v) ==> v@.len() <= self@.total,
    {
        proof {
            use_type_invariant(self);
        }
        let width = self.num_bytes;
        let bytes = match decode_blocks(
            &self.blocks,
            self.compression,
            self.total_size,
            self.size_per,
            width,
        ) {
            Ok(bytes) => bytes,
            Err(e) => {
                return Err(e);
            },
        };
        let len = bytes.len();
        let count = len / width;
        let mut values: Vec<u32> = Vec::with_capacity(count);
        let mut j: usize = 0;
        while j < count
            invariant
                1 <= width <= 4,
                j <= count == len / width,
                len == bytes@.len(),
                values@.len() == j,
                forall|i: int|
                    0 <= i < j ==> values@[i] == be_uint(bytes@, width * i, width as nat) as u32,
            decreases count - j,
        {
            assert(0 <= width * j && width * (j + 1) <= len) by (nonlinear_arith)
                requires
                    0 <= j < count,
                    count == len / width,
                    1 <= width,
            ;
            assert(width * (j + 1) == width * j + width) by (nonlinear_arith);
            proof {
                lemma_be_uint_bound(bytes@, width * j, width as nat);
            }
            let v = read_be_uint(bytes.as_slice(), width * j, width);
            values.push(v);
            j = j + 1;
        }
        assert(values@ =~= ints_of_bytes(bytes@, width as int));
        Ok(values)
    }
}

} // verus!
