use crate::byte_order::{be_i64, read_i32_at, read_i64_at};
use crate::column::blocks::{block_set_at, block_set_bytes, decode_blocks, BlockSet};
use crate::column::generic_indexed::GenericIndexedV1;
use crate::compression::{strategy_of_id, CompressionStrategy};
use crate::error::{invalid_data, DruidSegmentError, ErrorKind};
use vstd::prelude::*;
use vstd::slice::slice_subrange;

verus! {

/// The block set that the header of a compressed long column announces, or
/// why the header is refused. Version 1 implies the legacy codec and puts the
/// block container at byte 9; version 2 names the codec at byte 9 and puts
/// the container at byte 10. Fewer than ten bytes, or fewer than eleven under
/// version 2, and any other version are invalid data.
pub open spec fn longs_header(data: Seq<u8>) -> Result<BlockSet, ErrorKind> {
    if data.len() < 10 {
        Err(ErrorKind::InvalidData)
    } else if data[0] == 1 {
        block_set_at(data, CompressionStrategy::Lzf, 8, 9)
    } else if data[0] == 2 {
        if data.len() < 11 {
            Err(ErrorKind::InvalidData)
        } else {
            match strategy_of_id(data[9]) {
                Some(strategy) => block_set_at(data, strategy, 8, 10),
                None => Err(ErrorKind::UnsupportedCompression(data[9])),
            }
        }
    } else {
        Err(ErrorKind::InvalidData)
    }
}

/// The signed 64-bit numbers that a run of bytes holds, eight bytes each,
/// most significant byte first. Bytes behind the last full number are ignored.
pub open spec fn longs_of_bytes(bytes: Seq<u8>) -> Seq<i64> {
    Seq::new(bytes.len() / 8, |j: int| be_i64(bytes, 8 * j) as i64)
}

/// The values of a compressed long column.
pub open spec fn longs_decoded(set: BlockSet) -> Result<Seq<i64>, ErrorKind> {
    match block_set_bytes(set) {
        Ok(bytes) => Ok(longs_of_bytes(bytes)),
        Err(kind) => Err(kind),
    }
}

/// A compressed column of signed 64-bit numbers.
///
/// Header, big-endian: a version byte, the total number of values (`i32`),
/// the number of values per block (`i32`), under version 2 the codec id, then
/// the block container.
pub struct CompressedColumnarLongs<'a> {
    total_size: usize,
    size_per: usize,
    compression: CompressionStrategy,
    blocks: GenericIndexedV1<'a>,
}

impl<'a> View for CompressedColumnarLongs<'a> {
    type V = BlockSet;

    closed spec fn view(&self) -> BlockSet {
        BlockSet {
            total: self.total_size as int,
            stride: self.size_per as int,
            width: 8,
            strategy: self.compression,
            blocks: self.blocks.bytes(),
        }
    }
}

impl<'a> CompressedColumnarLongs<'a> {
    #[verifier::type_invariant]
    spec fn well_formed(&self) -> bool {
        self.total_size < 0x8000_0000 && self.size_per < 0x8000_0000
    }

    /// Parses the header and the header of the block container.
    pub fn from_bytes(data: &'a [u8]) -> (r: Result<Self, DruidSegmentError>)
        ensures
            match longs_header(data@) {
                Ok(set) => r matches Ok(v) && v@ == set,
                Err(kind) => r matches Err(e) && e.spec_kind() == kind,
            },
    {
        if data.len() < 10 {
            return invalid_data("CompressedColumnarLongs: data too short");
        }
        let version = data[0];
        let (compression, blocks_offset): (CompressionStrategy, usize) = if version == 0x01 {
            (CompressionStrategy::Lzf, 9)
        } else if version == 0x02 {
            if data.len() < 11 {
                return invalid_data(
                    "CompressedColumnarLongs v2: data too short for compression byte",
                );
            }
            match CompressionStrategy::from_id(data[9]) {
                Ok(compression) => (compression, 10),
                Err(e) => {
                    return Err(e);
                },
            }
        } else {
            return invalid_data("CompressedColumnarLongs: unsupported version");
        };
        let total_size = read_i32_at(data, 1);
        let size_per = read_i32_at(data, 5);
        if total_size < 0 || size_per < 0 {
            return invalid_data("CompressedColumnarLongs: negative count");
        }
        let blocks = match GenericIndexedV1::from_bytes(
            slice_subrange(data, blocks_offset, data.len()),
        ) {
            Ok(blocks) => blocks,
            Err(e) => {
                return Err(e);
            },
        };
        Ok(Self { total_size: total_size as usize, size_per: size_per as usize, compression, blocks })
    }

    /// Total number of values that the header announces.
    pub fn len(&self) -> (n: usize)
        ensures
            n == self@.total,
    {
        self.total_size
    }

    /// Whether the header announces no value.
    pub fn is_empty(&self) -> (b: bool)
        ensures
            b <==> self@.total == 0,
    {
        self.total_size == 0
    }

    /// Decodes every block in order and reads the values out of them.
    pub fn decompress_all(&self) -> (r: Result<Vec<i64>, DruidSegmentError>)
        ensures
            match longs_decoded(self@) {
                Ok(values) => r matches Ok(v) && v@ == values,
                Err(kind) => r matches Err(e) && e.spec_kind() == kind,
            },
            r matches Ok(v) ==> v@.len() <= self@.total,
    {
        proof {
            use_type_invariant(self);
        }
        let bytes = match decode_blocks(
            &self.blocks,
            self.compression,
            self.total_size,
            self.size_per,
            8,
        ) {
            Ok(bytes) => bytes,
            Err(e) => {
                return Err(e);
            },
        };
        let len = bytes.len();
        let count = len / 8;
        let mut values: Vec<i64> = Vec::with_capacity(count);
        let mut j: usize = 0;
        while j < count
            invariant
                j <= count == len / 8,
                len == bytes@.len(),
                values@.len() == j,
                forall|i: int| 0 <= i < j ==> values@[i] == be_i64(bytes@, 8 * i) as i64,
            decreases count - j,
        {
            let v = read_i64_at(bytes.as_slice(), 8 * j);
            values.push(v);
            j = j + 1;
        }
        assert(values@ =~= longs_of_bytes(bytes@));
        Ok(values)
    }
}

} // verus!
