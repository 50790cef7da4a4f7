use crate::error::{DruidSegmentError, ErrorKind};
use vstd::prelude::*;
use vstd::slice::slice_to_vec;

verus! {

/// The block codecs that a segment may name, by their one-byte ids.
#[derive(Debug, Clone, Copy, PartialEq, Eq, Structural)]
pub enum CompressionStrategy {
    /// Legacy dictionary coder, id `0x00`. Recognised, not implemented.
    Lzf,
    /// LZ4 block compression, id `0x01`.
    Lz4,
    /// High-ratio codec, id `0x02`. Recognised, not implemented.
    Zstd,
    /// Stored as is, id `0xFF`.
    Uncompressed,
    /// No codec marker, id `0xFE`. Stored as is.
    NoCodec,
}

/// The codec that a one-byte id names, if any.
pub open spec fn strategy_of_id(id: u8) -> Option<CompressionStrategy> {
    if id == 0x00 {
        Some(CompressionStrategy::Lzf)
    } else if id == 0x01 {
        Some(CompressionStrategy::Lz4)
    } else if id == 0x02 {
        Some(CompressionStrategy::Zstd)
    } else if id == 0xFF {
        Some(CompressionStrategy::Uncompressed)
    } else if id == 0xFE {
        Some(CompressionStrategy::NoCodec)
    } else {
        None
    }
}

/// The id under which a codec is written.
pub open spec fn id_of_strategy(strategy: CompressionStrategy) -> u8 {
    match strategy {
        CompressionStrategy::Lzf => 0x00,
        CompressionStrategy::Lz4 => 0x01,
        CompressionStrategy::Zstd => 0x02,
        CompressionStrategy::Uncompressed => 0xFF,
        CompressionStrategy::NoCodec => 0xFE,
    }
}

/// Whether a codec hands its input back unchanged.
pub open spec fn is_pass_through(strategy: CompressionStrategy) -> bool {
    strategy == CompressionStrategy::Uncompressed || strategy == CompressionStrategy::NoCodec
}

/// What `lz4_flex::block::decompress` returns for a compressed block and the
/// size of the buffer it is given: the decompressed bytes, or `None` where it
/// reports an error. The LZ4 block format is not restated here.
pub uninterp spec fn lz4_block_decoded(compressed: Seq<u8>, size: nat) -> Option<Seq<u8>>;

/// What decompressing `compressed` with `strategy` yields when exactly `size`
/// bytes are expected, or `None` where the block is refused. Whatever the
/// codec, output of any other length is refused.
pub open spec fn decompressed(strategy: CompressionStrategy, compressed: Seq<u8>, size: nat)
    -> Option<Seq<u8>> {
    match strategy {
        CompressionStrategy::Lz4 => match lz4_block_decoded(compressed, size) {
            Some(bytes) => if bytes.len() == size {
                Some(bytes)
            } else {
                None
            },
            None => None,
        },
        CompressionStrategy::Uncompressed | CompressionStrategy::NoCodec => if compressed.len()
            == size {
            Some(compressed)
        } else {
            None
        },
        CompressionStrategy::Lzf | CompressionStrategy::Zstd => None,
    }
}

/// The kind of error with which a block is refused under a codec.
pub open spec fn failure_kind(strategy: CompressionStrategy) -> ErrorKind {
    match strategy {
        CompressionStrategy::Lzf => ErrorKind::UnsupportedCompression(0x00),
        CompressionStrategy::Zstd => ErrorKind::UnsupportedCompression(0x02),
        _ => ErrorKind::DecompressionError,
    }
}

#[verifier::external_type_specification]
#[verifier::external_body]
pub struct ExDecompressError(lz4_flex::block::DecompressError);

/// `lz4_flex::block::decompress`. Trusted: the result is a function of the
/// two arguments, named `lz4_block_decoded`. With the checked, safe decoder
/// that the crate's default features select, every write is preceded by a
/// bounds test, so a buffer size that is too small is reported as an error.
#[verifier::external_body]
fn lz4_decompress(compressed: &[u8], size: usize) -> (r: Result<
    Vec<u8>,
    lz4_flex::block::DecompressError,
>)
    ensures
        r is Ok <==> lz4_block_decoded(compressed@, size as nat) is Some,
        r matches Ok(bytes) ==> lz4_block_decoded(compressed@, size as nat) == Some(bytes@),
{
    lz4_flex::block::decompress(compressed, size)
}

/// The `Display` text of an `lz4_flex` decompression error. Trusted; nothing
/// is claimed of the text.
#[verifier::external_body]
fn lz4_error_text(e: &lz4_flex::block::DecompressError) -> String {
    format!("{}", e)
}

impl CompressionStrategy {
    /// The codec named by a one-byte id; `UnsupportedCompression(id)` for an
    /// id that names none.
    pub fn from_id(id: u8) -> (r: Result<Self, DruidSegmentError>)
        ensures
            match strategy_of_id(id) {
                Some(s) => r == Ok::<Self, DruidSegmentError>(s),
                None => r == Err::<Self, DruidSegmentError>(
                    DruidSegmentError::UnsupportedCompression(id),
                ),
            },
    {
        if id == 0x00 {
            Ok(CompressionStrategy::Lzf)
        } else if id == 0x01 {
            Ok(CompressionStrategy::Lz4)
        } else if id == 0x02 {
            Ok(CompressionStrategy::Zstd)
        } else if id == 0xFF {
            Ok(CompressionStrategy::Uncompressed)
        } else if id == 0xFE {
            Ok(CompressionStrategy::NoCodec)
        } else {
            Err(DruidSegmentError::UnsupportedCompression(id))
        }
    }
}

/// Accepts a decoded block only if it has exactly the expected length;
/// otherwise a `DecompressionError`.
pub fn accept_block(block: Vec<u8>, expected: usize) -> (r: Result<Vec<u8>, DruidSegmentError>)
    ensures
        block@.len() == expected ==> r == Ok::<Vec<u8>, DruidSegmentError>(block),
        block@.len() != expected ==> r matches Err(DruidSegmentError::DecompressionError(_)),
{
    if block.len() == expected {
        Ok(block)
    } else {
        Err(DruidSegmentError::DecompressionError("decoded block has an unexpected size".to_owned()))
    }
}

/// Decompresses one block with the given codec. `decompressed_size` is the
/// exact number of bytes that the block must decode to.
pub fn decompress_block(
    strategy: CompressionStrategy,
    compressed: &[u8],
    decompressed_size: usize,
) -> (r: Result<Vec<u8>, DruidSegmentError>)
    ensures
        match decompressed(strategy, compressed@, decompressed_size as nat) {
            Some(bytes) => r matches Ok(v) && v@ == bytes,
            None => r matches Err(e) && e.spec_kind() == failure_kind(strategy),
        },
        r matches Ok(v) ==> v@.len() == decompressed_size,
{
    match strategy {
        CompressionStrategy::Lz4 => match lz4_decompress(compressed, decompressed_size) {
            Ok(bytes) => accept_block(bytes, decompressed_size),
            Err(e) => Err(DruidSegmentError::DecompressionError(lz4_error_text(&e))),
        },
        CompressionStrategy::Uncompressed | CompressionStrategy::NoCodec => accept_block(
            slice_to_vec(compressed),
            decompressed_size,
        ),
        CompressionStrategy::Lzf => Err(DruidSegmentError::UnsupportedCompression(0x00)),
        CompressionStrategy::Zstd => Err(DruidSegmentError::UnsupportedCompression(0x02)),
    }
}

/// The pass-through codecs return their input unchanged, and the two
/// codecs that are recognised but not decoded are refused whatever the input.
pub proof fn lemma_codec_transparency(compressed: Seq<u8>)
    ensures
        decompressed(CompressionStrategy::Uncompressed, compressed, compressed.len()) == Some(
            compressed,
        ),
        decompressed(CompressionStrategy::NoCodec, compressed, compressed.len()) == Some(compressed),
        forall|size: nat| decompressed(CompressionStrategy::Lzf, compressed, size) is None,
        forall|size: nat| decompressed(CompressionStrategy::Zstd, compressed, size) is None,
{
}

} // verus!
