use crate::byte_order::{be_u32, be_u64, read_i32_at, read_u32_at, read_u64_at};
use crate::column::blocks::{block_set_at, block_set_bytes, decode_blocks, BlockSet};
use crate::column::generic_indexed::GenericIndexedV1;
use crate::compression::{strategy_of_id, CompressionStrategy};
use crate::error::{invalid_data, DruidSegmentError, ErrorKind};
use vstd::prelude::*;
use vstd::slice::slice_subrange;

verus! {

/// The block set that the header of a compressed floating-point column
/// announces, with `width` bytes per value, or why the header is refused.
/// Only version 2 exists: byte 9 is the codec id and the block container
/// starts at byte 10. Fewer than eleven bytes and another version are invalid
/// data.
pub open spec fn floating_header(data: Seq<u8>, width: int) -> Result<BlockSet, ErrorKind> {
    if data.len() < 11 || data[0] != 2 {
        Err(ErrorKind::InvalidData)
    } else {
        match strategy_of_id(data[9]) {
            Some(strategy) => block_set_at(data, strategy, width, 10),
            None => Err(ErrorKind::UnsupportedCompression(data[9])),
        }
    }
}

/// The 64-bit patterns that a run of bytes holds, eight bytes each, most
/// significant byte first. Bytes behind the last full pattern are ignored.
pub open spec fn double_bits_of_bytes(bytes: Seq<u8>) -> Seq<u64> {
    Seq::new(bytes.len() / 8, |j: int| be_u64(bytes, 8 * j) as u64)
}

/// The 32-bit patterns that a run of bytes holds, four bytes each, most
/// significant byte first. Bytes behind the last full pattern are ignored.
pub open spec fn float_bits_of_bytes(bytes: Seq<u8>) -> Seq<u32> {
    Seq::new(bytes.len() / 4, |j: int| be_u32(bytes, 4 * j) as u32)
}

/// The values of a compressed double column, as IEEE 754 bit patterns.
pub open spec fn doubles_decoded(set: BlockSet) -> Result<Seq<u64>, ErrorKind> {
    match block_set_bytes(set) {
        Ok(bytes) => Ok(double_bits_of_bytes(bytes)),
        Err(kind) => Err(kind),
    }
}

/// The values of a compressed float column, as IEEE 754 bit patterns.
pub open spec fn floats_decoded(set: BlockSet) -> Result<Seq<u32>, ErrorKind> {
    match block_set_bytes(set) {
        Ok(bytes) => Ok(float_bits_of_bytes(bytes)),
        Err(kind) => Err(kind),
    }
}

/// A compressed column of 64-bit floating-point values.
///
/// Header, big-endian: version `0x02`, the total number of values (`i32`),
/// the number of values per block (`i32`), the codec id, then the block
/// container. Values are handed out as their IEEE 754 bit patterns, which
/// `f64::from_bits` turns into numbers.
pub struct CompressedColumnarDoubles<'a> {
    total_size: usize,
    size_per: usize,
    compression: CompressionStrategy,
    blocks: GenericIndexedV1<'a>,
}

impl<'a> View for CompressedColumnarDoubles<'a> {
    type V = BlockSet;

    closed spec fn view(&self) -> BlockSet {
        BlockSet {
            total: self.total_size as int,
            stride: self.size_per as int,
            width: 8,
            strategy: self.compression,
            blocks: self.blocks.bytes(),
        }
    }
}

impl<'a> CompressedColumnarDoubles<'a> {
    #[verifier::type_invariant]
    spec fn well_formed(&self) -> bool {
        self.total_size < 0x8000_0000 && self.size_per < 0x8000_0000
    }

    /// Parses the header and the header of the block container.
    pub fn from_bytes(data: &'a [u8]) -> (r: Result<Self, DruidSegmentError>)
        ensures
            match floating_header(data@, 8) {
                Ok(set) => r matches Ok(v) && v@ == set,
                Err(kind) => r matches Err(e) && e.spec_kind() == kind,
            },
    {
        if data.len() < 11 {
            return invalid_data("CompressedColumnarDoubles: data too short");
        }
        if data[0] != 0x02 {
            return invalid_data("CompressedColumnarDoubles: unsupported version");
        }
        let compression = match CompressionStrategy::from_id(data[9]) {
            Ok(compression) => compression,
            Err(e) => {
                return Err(e);
            },
        };
        let total_size = read_i32_at(data, 1);
        let size_per = read_i32_at(data, 5);
        if total_size < 0 || size_per < 0 {
            return invalid_data("CompressedColumnarDoubles: negative count");
        }
        let blocks = match GenericIndexedV1::from_bytes(slice_subrange(data, 10, data.len())) {
            Ok(blocks) => blocks,
            Err(e) => {
                return Err(e);
            },
        };
        Ok(Self { total_size: total_size as usize, size_per: size_per as usize, compression, blocks })
    }

    /// Total number of values that the header announces.
    pub fn len(&self) -> (n: usize)
        ensures
            n == self@.total,
    {
        self.total_size
    }

    /// Whether the header announces no value.
    pub fn is_empty(&self) -> (b: bool)
        ensures
            b <==> self@.total == 0,
    {
        self.total_size == 0
    }

    /// Decodes every block in order and reads the bit patterns of the values
    /// out of them.
    pub fn decompress_all(&self) -> (r: Result<Vec<u64>, DruidSegmentError>)
        ensures
            match doubles_decoded(self@) {
                Ok(values) => r matches Ok(v) && v@ == values,
                Err(kind) => r matches Err(e) && e.spec_kind() == kind,
            },
            r matches Ok(v) ==> v@.len() <= self@.total,
    {
        proof {
            use_type_invariant(self);
        }
        let bytes = match decode_blocks(
            &self.blocks,
            self.compression,
            self.total_size,
            self.size_per,
            8,
        ) {
            Ok(bytes) => bytes,
            Err(e) => {
                return Err(e);
            },
        };
        let len = bytes.len();
        let count = len / 8;
        let mut values: Vec<u64> = Vec::with_capacity(count);
        let mut j: usize = 0;
        while j < count
            invariant
                j <= count == len / 8,
                len == bytes@.len(),
                values@.len() == j,
                forall|i: int| 0 <= i < j ==> values@[i] == be_u64(bytes@, 8 * i) as u64,
            decreases count - j,
        {
            let v = read_u64_at(bytes.as_slice(), 8 * j);
            values.push(v);
            j = j + 1;
        }
        assert(values@ =~= double_bits_of_bytes(bytes@));
        Ok(values)
    }
}

/// A compressed column of 32-bit floating-point values.
///
/// Header, big-endian: version `0x02`, the total number of values (`i32`),
/// the number of values per block (`i32`), the codec id, then the block
/// container. Values are handed out as their IEEE 754 bit patterns, which
/// `f32::from_bits` turns into numbers.
pub struct CompressedColumnarFloats<'a> {
    total_size: usize,
    size_per: usize,
    compression: CompressionStrategy,
    blocks: GenericIndexedV1<'a>,
}

impl<'a> View for CompressedColumnarFloats<'a> {
    type V = BlockSet;

    closed spec fn view(&self) -> BlockSet {
        BlockSet {
            total: self.total_size as int,
            stride: self.size_per as int,
            width: 4,
            strategy: self.compression,
            blocks: self.blocks.bytes(),
        }
    }
}

impl<'a> CompressedColumnarFloats<'a> {
    #[verifier::type_invariant]
    spec fn well_formed(&self) -> bool {
        self.total_size < 0x8000_0000 && self.size_per < 0x8000_0000
    }

    /// Parses the header and the header of the block container.
    pub fn from_bytes(data: &'a [u8]) -> (r: Result<Self, DruidSegmentError>)
        ensures
            match floating_header(data@, 4) {
                Ok(set) => r matches Ok(v) && v@ == set,
                Err(kind) => r matches Err(e) && e.spec_kind() == kind,
            },
    {
        if data.len() < 11 {
            return invalid_data("CompressedColumnarFloats: data too short");
        }
        if data[0] != 0x02 {
            return invalid_data("CompressedColumnarFloats: unsupported version");
        }
        let compression = match CompressionStrategy::from_id(data[9]) {
            Ok(compression) => compression,
            Err(e) => {
                return Err(e);
            },
        };
        let total_size = read_i32_at(data, 1);
        let size_per = read_i32_at(data, 5);
        if total_size < 0 || size_per < 0 {
            return invalid_data("CompressedColumnarFloats: negative count");
        }
        let blocks = match GenericIndexedV1::from_bytes(slice_subrange(data, 10, data.len())) {
            Ok(blocks) => blocks,
            Err(e) => {
                return Err(e);
            },
        };
        Ok(Self { total_size: total_size as usize, size_per: size_per as usize, compression, blocks })
    }

    /// Total number of values that the header announces.
    pub fn len(&self) -> (n: usize)
        ensures
            n == self@.total,
    {
        self.total_size
    }

    /// Whether the header announces no value.
    pub fn is_empty(&self) -> (b: bool)
        ensures
            b <==> self@.total == 0,
    {
        self.total_size == 0
    }

    /// Decodes every block in order and reads the bit patterns of the values
    /// out of them.
    pub fn decompress_all(&self) -> (r: Result<Vec<u32>, DruidSegmentError>)
        ensures
            match floats_decoded(self@) {
                Ok(values) => r matches Ok(v) && v@ == values,
                Err(kind) => r matches Err(e) && e.spec_kind() == kind,
            },
            r matches Ok(v) ==> v@.len() <= self@.total,
    {
        proof {
            use_type_invariant(self);
        }
        let bytes = match decode_blocks(
            &self.blocks,
            self.compression,
            self.total_size,
            self.size_per,
            4,
        ) {
            Ok(bytes) => bytes,
            Err(e) => {
                return Err(e);
            },
        };
        let len = bytes.len();
        let count = len / 4;
        let mut values: Vec<u32> = Vec::with_capacity(count);
        let mut j: usize = 0;
        while j < count
            invariant
                j <= count == len / 4,
                len == bytes@.len(),
                values@.len() == j,
                forall|i: int| 0 <= i < j ==> values@[i] == be_u32(bytes@, 4 * i) as u32,
            decreases count - j,
        {
            let v = read_u32_at(bytes.as_slice(), 4 * j);
            values.push(v);
            j = j + 1;
        }
        assert(values@ =~= float_bits_of_bytes(bytes@));
        Ok(values)
    }
}

} // verus!
