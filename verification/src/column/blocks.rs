use crate::byte_order::be_i32;
use crate::column::generic_indexed::{
    gi_count, gi_header_error, gi_length_prefixed, GenericIndexedV1,
};
use crate::compression::{decompress_block, decompressed, failure_kind, CompressionStrategy};
use crate::error::{invalid_data, DruidSegmentError, ErrorKind};
use vstd::arithmetic::div_mod::lemma_div_multiples_vanish;
use vstd::prelude::*;

verus! {

/// What the header of a compressed block set announces, and the bytes of its
/// block container.
pub struct BlockSet {
    /// Total number of elements.
    pub total: int,
    /// Elements per block; the last block may hold fewer.
    pub stride: int,
    /// Bytes per element.
    pub width: int,
    /// The codec of every block.
    pub strategy: CompressionStrategy,
    /// The block container: everything behind the header.
    pub blocks: Seq<u8>,
}

/// The block set that a header announces, once version, width and codec are
/// known: the two counts are read at bytes 1 and 5 and must not be negative,
/// and the container behind the header must have a valid header of its own.
pub open spec fn block_set_at(
    data: Seq<u8>,
    strategy: CompressionStrategy,
    width: int,
    blocks_at: int,
) -> Result<BlockSet, ErrorKind> {
    let blocks = data.subrange(blocks_at, data.len() as int);
    if be_i32(data, 1) < 0 || be_i32(data, 5) < 0 {
        Err(ErrorKind::InvalidData)
    } else {
        match gi_header_error(blocks) {
            Some(kind) => Err(kind),
            None => Ok(
                BlockSet { total: be_i32(data, 1), stride: be_i32(data, 5), width, strategy, blocks },
            ),
        }
    }
}

/// The decoded bytes of a block set.
pub open spec fn block_set_bytes(set: BlockSet) -> Result<Seq<u8>, ErrorKind> {
    decoded_blocks(set.blocks, set.strategy, set.total, set.stride, set.width)
}

/// The number of bytes that the next block must decode to, when `produced`
/// bytes of `elem`-byte elements have been decoded so far: a full stride of
/// elements, or what is left of `total` where that is less.
pub open spec fn next_block_size(total: int, stride: int, elem: int, produced: int) -> int {
    let remaining = total - produced / elem;
    if remaining < stride {
        remaining * elem
    } else {
        stride * elem
    }
}

/// The concatenated decoded bytes of the first `k` blocks of a block
/// container, or the kind of error at the first block that is refused. A
/// block is refused where its slot cannot be read or is null (`InvalidData`),
/// where its expected size exceeds the address space (`DecompressionError`),
/// and where the codec refuses it.
pub open spec fn decoded_prefix(
    blocks: Seq<u8>,
    strategy: CompressionStrategy,
    total: int,
    stride: int,
    elem: int,
    k: nat,
) -> Result<Seq<u8>, ErrorKind>
    decreases k,
{
    if k == 0 {
        Ok(Seq::empty())
    } else {
        match decoded_prefix(blocks, strategy, total, stride, elem, (k - 1) as nat) {
            Err(e) => Err(e),
            Ok(prev) => match gi_length_prefixed(blocks, k - 1) {
                Some(Some(compressed)) => {
                    let size = next_block_size(total, stride, elem, prev.len() as int);
                    if size > usize::MAX {
                        Err(ErrorKind::DecompressionError)
                    } else {
                        match decompressed(strategy, compressed, size as nat) {
                            Some(bytes) => Ok(prev + bytes),
                            None => Err(failure_kind(strategy)),
                        }
                    }
                },
                _ => Err(ErrorKind::InvalidData),
            },
        }
    }
}

/// The decoded bytes of all blocks of a block container, in order.
pub open spec fn decoded_blocks(
    blocks: Seq<u8>,
    strategy: CompressionStrategy,
    total: int,
    stride: int,
    elem: int,
) -> Result<Seq<u8>, ErrorKind> {
    decoded_prefix(blocks, strategy, total, stride, elem, gi_count(blocks) as nat)
}

/// Once a block is refused, every longer prefix is refused with the same kind.
pub proof fn lemma_refusal_persists(
    blocks: Seq<u8>,
    strategy: CompressionStrategy,
    total: int,
    stride: int,
    elem: int,
    k: nat,
    n: nat,
)
    requires
        k <= n,
        decoded_prefix(blocks, strategy, total, stride, elem, k) is Err,
    ensures
        decoded_prefix(blocks, strategy, total, stride, elem, n) == decoded_prefix(
            blocks,
            strategy,
            total,
            stride,
            elem,
            k,
        ),
    decreases n - k,
{
    if k < n {
        lemma_refusal_persists(blocks, strategy, total, stride, elem, k, (n - 1) as nat);
    }
}

/// Decodes every block of a container in order and concatenates the results.
/// Block `k` must decode to a full stride of `elem`-byte elements, or to what
/// is left of `total` where that is less.
pub(crate) fn decode_blocks(
    blocks: &GenericIndexedV1<'_>,
    strategy: CompressionStrategy,
    total: usize,
    stride: usize,
    elem: usize,
) -> (r: Result<Vec<u8>, DruidSegmentError>)
    requires
        1 <= elem <= 8,
        total < 0x8000_0000,
        stride < 0x8000_0000,
    ensures
        match decoded_blocks(blocks.bytes(), strategy, total as int, stride as int, elem as int) {
            Ok(bytes) => r matches Ok(v) && v@ == bytes,
            Err(kind) => r matches Err(e) && e.spec_kind() == kind,
        },
        r matches Ok(v) ==> (v@.len() as int) % (elem as int) == 0 && (v@.len() as int) / (
            elem as int) <= total,
{
    let n = blocks.len();
    let ghost data = blocks.bytes();
    let mut out: Vec<u8> = Vec::new();
    let mut produced: usize = 0;
    let mut k: usize = 0;
    while k < n
        invariant
            k <= n == gi_count(data),
            data == blocks.bytes(),
            1 <= elem <= 8,
            total < 0x8000_0000,
            stride < 0x8000_0000,
            produced <= total,
            out@.len() == produced * elem,
            decoded_prefix(data, strategy, total as int, stride as int, elem as int, k as nat)
                == Ok::<Seq<u8>, ErrorKind>(out@),
        decreases n - k,
    {
        proof {
            lemma_div_multiples_vanish(produced as int, elem as int);
            assert(produced * elem == elem * produced) by (nonlinear_arith);
        }
        let ghost next = decoded_prefix(
            data,
            strategy,
            total as int,
            stride as int,
            elem as int,
            (k + 1) as nat,
        );
        let block = match blocks.get(k) {
            Ok(Some(block)) => block,
            Ok(None) => {
                proof {
                    lemma_refusal_persists(
                        data,
                        strategy,
                        total as int,
                        stride as int,
                        elem as int,
                        (k + 1) as nat,
                        n as nat,
                    );
                }
                return invalid_data("compressed column: null block");
            },
            Err(e) => {
                proof {
                    lemma_refusal_persists(
                        data,
                        strategy,
                        total as int,
                        stride as int,
                        elem as int,
                        (k + 1) as nat,
                        n as nat,
                    );
                }
                return Err(e);
            },
        };
        let remaining = total - produced;
        let count = if remaining < stride {
            remaining
        } else {
            stride
        };
        assert(count * elem <= 8 * count) by (nonlinear_arith)
            requires
                elem <= 8,
                count >= 0,
        ;
        let size: u64 = (count as u64) * (elem as u64);
        if size > usize::MAX as u64 {
            proof {
                lemma_refusal_persists(
                    data,
                    strategy,
                    total as int,
                    stride as int,
                    elem as int,
                    (k + 1) as nat,
                    n as nat,
                );
            }
            return Err(
                DruidSegmentError::DecompressionError(
                    "compressed column: block size exceeds the address space".to_owned(),
                ),
            );
        }
        let mut bytes = match decompress_block(strategy, block, size as usize) {
            Ok(bytes) => bytes,
            Err(e) => {
                proof {
                    lemma_refusal_persists(
                        data,
                        strategy,
                        total as int,
                        stride as int,
                        elem as int,
                        (k + 1) as nat,
                        n as nat,
                    );
                }
                return Err(e);
            },
        };
        assert((produced + count) * elem == produced * elem + count * elem)
            by (nonlinear_arith);
        out.append(&mut bytes);
        produced = produced + count;
        k = k + 1;
    }
    proof {
        lemma_div_multiples_vanish(produced as int, elem as int);
        assert(produced * elem == elem * produced) by (nonlinear_arith);
        vstd::arithmetic::div_mod::lemma_mod_multiples_basic(produced as int, elem as int);
    }
    Ok(out)
}

} // verus!
