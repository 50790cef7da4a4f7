use crate::byte_order::{i32_bytes, i64_bytes, lemma_read_i32_bytes, lemma_read_i64_bytes};
use crate::column::blocks::{
    block_set_at, block_set_bytes, decoded_prefix, next_block_size, BlockSet,
};
use crate::column::compressed_longs::{longs_header, longs_of_bytes};
use crate::column::generic_indexed::{gi_count, gi_header_error, gi_length_prefixed};
use crate::column::long::long_column;
use crate::column::round_trip::{
    container_bytes, fits_container, lemma_container_layout, lemma_length_prefixed_round_trip,
};
use crate::compression::{
    decompressed, id_of_strategy, is_pass_through, strategy_of_id, CompressionStrategy,
};
use crate::error::ErrorKind;
use vstd::arithmetic::div_mod::{
    lemma_div_multiples_vanish, lemma_fundamental_div_mod, lemma_mod_pos_bound,
};
use vstd::prelude::*;

verus! {

/// The first `k` values as bytes: eight each, most significant byte first.
pub open spec fn long_bytes_upto(values: Seq<i64>, k: nat) -> Seq<u8>
    decreases k,
{
    if k == 0 {
        Seq::empty()
    } else {
        long_bytes_upto(values, (k - 1) as nat) + i64_bytes(values[k - 1] as int)
    }
}

/// The smaller of two numbers.
pub open spec fn at_most(a: int, b: int) -> int {
    if a < b {
        a
    } else {
        b
    }
}

/// The number of blocks that `total` values take at `stride` values per block.
pub open spec fn block_count(total: nat, stride: nat) -> nat {
    ((total + stride - 1) / (stride as int)) as nat
}

/// Block `b` of a column, uncompressed: the values from `b * stride` up to
/// the next multiple of the stride, or to the end.
pub open spec fn long_block(values: Seq<i64>, stride: nat, b: int) -> Seq<u8> {
    let to = at_most((b + 1) * stride, values.len() as int);
    long_bytes_upto(values, to as nat).subrange(8 * (b * stride), 8 * to)
}

/// All blocks of a column, uncompressed.
pub open spec fn long_blocks(values: Seq<i64>, stride: nat) -> Seq<Option<Seq<u8>>> {
    Seq::new(block_count(values.len(), stride), |b: int| Some(long_block(values, stride, b)))
}

/// A version-2 compressed long column that holds the given values under a
/// codec that stores blocks as they are.
#[verifier::opaque]
pub open spec fn longs_column_bytes(values: Seq<i64>, stride: nat, codec: u8) -> Seq<u8> {
    seq![2u8] + i32_bytes(values.len() as int) + i32_bytes(stride as int) + seq![codec]
        + container_bytes(long_blocks(values, stride), 0)
}

/// Whether a list of values can be written as a column of that stride.
pub open spec fn fits_longs_column(values: Seq<i64>, stride: nat) -> bool {
    &&& 1 <= stride < 0x8000_0000
    &&& values.len() < 0x8000_0000
    &&& 8 * at_most(stride as int, values.len() as int) <= usize::MAX
    &&& fits_container(long_blocks(values, stride))
}

/// The blocks of a column cover its values: all but the last are full, and
/// the last ends with the last value.
pub proof fn lemma_block_count(total: nat, stride: nat)
    requires
        stride >= 1,
    ensures
        total <= block_count(total, stride) * stride,
        forall|b: int| 0 <= b < block_count(total, stride) ==> #[trigger] (b * stride) < total,
{
    let x = (total + stride - 1) as int;
    let d = stride as int;
    let n = x / d;
    lemma_fundamental_div_mod(x, d);
    lemma_mod_pos_bound(x, d);
    assert(d * n == n * d) by (nonlinear_arith);
    assert(n >= 0) by (nonlinear_arith)
        requires
            d * n == x - x % d,
            x % d < d,
            x >= 0,
            d >= 1,
    ;
    assert forall|b: int| 0 <= b < block_count(total, stride) implies #[trigger] (b * stride)
        < total by {
        assert(b * d <= (n - 1) * d) by (nonlinear_arith)
            requires
                0 <= b <= n - 1,
                d >= 1,
        ;
        assert((n - 1) * d == n * d - d) by (nonlinear_arith);
    }
}

/// `k` values are `8 * k` bytes, and the bytes of fewer values are a prefix
/// of the bytes of more.
pub proof fn lemma_long_bytes_prefix(values: Seq<i64>, k: nat, n: nat)
    requires
        k <= n,
    ensures
        long_bytes_upto(values, n).len() == 8 * n,
        long_bytes_upto(values, k).len() == 8 * k,
        long_bytes_upto(values, n).subrange(0, 8 * (k as int)) == long_bytes_upto(values, k),
    decreases n,
{
    if n == 0 {
        assert(long_bytes_upto(values, n).subrange(0, 0) =~= long_bytes_upto(values, k));
    } else if k == n {
        lemma_long_bytes_prefix(values, (n - 1) as nat, (n - 1) as nat);
        assert(long_bytes_upto(values, n).subrange(0, 8 * (k as int)) =~= long_bytes_upto(values, k));
    } else {
        lemma_long_bytes_prefix(values, k, (n - 1) as nat);
        assert(long_bytes_upto(values, n).subrange(0, 8 * (k as int)) =~= long_bytes_upto(
            values,
            (n - 1) as nat,
        ).subrange(0, 8 * (k as int)));
    }
}

/// Value `j` stands at byte `8 * j`.
pub proof fn lemma_long_bytes_entry(values: Seq<i64>, j: int, n: nat)
    requires
        0 <= j < n,
    ensures
        long_bytes_upto(values, n).len() == 8 * n,
        long_bytes_upto(values, n).subrange(8 * j, 8 * j + 8) == i64_bytes(values[j] as int),
{
    lemma_long_bytes_prefix(values, (j + 1) as nat, n);
    lemma_long_bytes_prefix(values, j as nat, (j + 1) as nat);
    let upto = long_bytes_upto(values, (j + 1) as nat);
    assert(upto == long_bytes_upto(values, j as nat) + i64_bytes(values[j] as int));
    assert(long_bytes_upto(values, n).subrange(8 * j, 8 * j + 8) =~= i64_bytes(
        values[j] as int,
    )) by {
        assert forall|i: int| 0 <= i < 8 implies long_bytes_upto(values, n).subrange(
            8 * j,
            8 * j + 8,
        )[i] == i64_bytes(values[j] as int)[i] by {
            assert(long_bytes_upto(values, n)[8 * j + i] == long_bytes_upto(values, n).subrange(
                0,
                8 * (j + 1),
            )[8 * j + i]);
            assert(upto[8 * j + i] == i64_bytes(values[j] as int)[i]);
        }
    }
}

/// Reading the bytes of a list of values eight by eight gives the list back.
pub proof fn lemma_longs_of_bytes(values: Seq<i64>)
    ensures
        longs_of_bytes(long_bytes_upto(values, values.len())) == values,
{
    let bytes = long_bytes_upto(values, values.len());
    lemma_long_bytes_prefix(values, 0, values.len());
    assert(longs_of_bytes(bytes) =~= values) by {
        assert forall|j: int| 0 <= j < values.len() implies longs_of_bytes(bytes)[j]
            == values[j] by {
            lemma_long_bytes_entry(values, j, values.len());
            lemma_read_i64_bytes(bytes, 8 * j, values[j] as int);
        }
    }
}

/// Decoding the first `k` blocks of an encoded column under a codec that
/// stores blocks as they are yields the bytes of the values that they cover.
pub proof fn lemma_blocks_decode(
    values: Seq<i64>,
    stride: nat,
    strategy: CompressionStrategy,
    k: nat,
)
    requires
        fits_longs_column(values, stride),
        is_pass_through(strategy),
        k <= block_count(values.len(), stride),
    ensures
        decoded_prefix(
            container_bytes(long_blocks(values, stride), 0),
            strategy,
            values.len() as int,
            stride as int,
            8,
            k,
        ) == Ok::<Seq<u8>, ErrorKind>(
            long_bytes_upto(values, at_most((k * stride) as int, values.len() as int) as nat),
        ),
    decreases k,
{
    let total = values.len();
    let blocks = long_blocks(values, stride);
    let container = container_bytes(blocks, 0);
    if k == 0 {
        assert(0 * stride == 0) by (nonlinear_arith);
    } else {
        let b = (k - 1) as int;
        lemma_blocks_decode(values, stride, strategy, (k - 1) as nat);
        lemma_block_count(total, stride);
        assert(b * stride < total);
        assert((b + 1) * stride == b * stride + stride) by (nonlinear_arith);
        let from = b * stride;
        let to = at_most((b + 1) * stride, total as int);
        let prev = long_bytes_upto(values, from as nat);
        lemma_long_bytes_prefix(values, from as nat, to as nat);
        lemma_length_prefixed_round_trip(blocks, 0, b);
        let block = long_block(values, stride, b);
        assert(gi_length_prefixed(container, b) == Some(Some(block)));
        assert(block.len() == 8 * (to - from));
        lemma_div_multiples_vanish(from, 8);
        assert(next_block_size(total as int, stride as int, 8, prev.len() as int) == 8 * (to
            - from));
        assert(8 * (to - from) <= usize::MAX);
        assert(decompressed(strategy, block, block.len()) == Some(block));
        assert(prev + block =~= long_bytes_upto(values, to as nat));
    }
}

/// Decoding gives back what was encoded: a compressed long column written
/// from any list of values, at any stride and under either codec that stores
/// blocks as they are, decodes to exactly that list, the short last block
/// included.
pub proof fn lemma_longs_round_trip(values: Seq<i64>, stride: nat, strategy: CompressionStrategy)
    requires
        fits_longs_column(values, stride),
        is_pass_through(strategy),
    ensures
        long_column(longs_column_bytes(values, stride, id_of_strategy(strategy))) == Ok::<
            Seq<i64>,
            ErrorKind,
        >(values),
{
    reveal(longs_column_bytes);
    let total = values.len();
    let blocks = long_blocks(values, stride);
    let container = container_bytes(blocks, 0);
    let data = longs_column_bytes(values, stride, id_of_strategy(strategy));
    lemma_container_layout(blocks, 0);
    assert(data.subrange(1, 5) =~= i32_bytes(total as int));
    assert(data.subrange(5, 9) =~= i32_bytes(stride as int));
    lemma_read_i32_bytes(data, 1, total as int);
    lemma_read_i32_bytes(data, 5, stride as int);
    assert(data[0] == 2u8 && data[9] == id_of_strategy(strategy));
    assert(data.subrange(10, data.len() as int) =~= container);
    assert(strategy_of_id(id_of_strategy(strategy)) == Some(strategy));
    assert(gi_header_error(container) is None);
    let set = BlockSet {
        total: total as int,
        stride: stride as int,
        width: 8,
        strategy,
        blocks: container,
    };
    assert(block_set_at(data, strategy, 8, 10) == Ok::<BlockSet, ErrorKind>(set));
    assert(longs_header(data) == Ok::<BlockSet, ErrorKind>(set));
    let n = block_count(total, stride);
    lemma_blocks_decode(values, stride, strategy, n);
    lemma_block_count(total, stride);
    assert(gi_count(container) == n);
    assert(block_set_bytes(set) == Ok::<Seq<u8>, ErrorKind>(long_bytes_upto(values, total)));
    lemma_longs_of_bytes(values);
}

} // verus!
