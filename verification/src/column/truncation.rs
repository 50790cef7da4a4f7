use crate::byte_order::{be_i32, i32_bytes, lemma_read_i32_bytes};
use crate::column::header_split;
use crate::column::blocks::decoded_prefix;
use crate::column::compressed_longs::longs_header;
use crate::column::generic_indexed::{
    gi_abs_range, gi_count, gi_header_error, gi_header_ok, gi_length_prefixed, gi_offset,
    gi_values_start,
};
use crate::column::long::long_column;
use crate::column::longs_round_trip::{fits_longs_column, long_blocks, longs_column_bytes};
use crate::column::round_trip::{
    container_bytes, fits_container, fits_packed, lemma_container_layout, lemma_packed_layout,
    lemma_values_grow, packed_bytes, values_upto,
};
use crate::column::vsize_ints::{vs_header_ok, vs_values};
use crate::error::ErrorKind;
use crate::segment::version::version_checked;
use vstd::prelude::*;

verus! {

/// Four bytes read the same in a buffer and in any prefix that holds them.
pub proof fn lemma_be_i32_in_prefix(data: Seq<u8>, pos: int, len: int)
    requires
        0 <= pos,
        pos + 4 <= len <= data.len(),
    ensures
        be_i32(data.subrange(0, len), pos) == be_i32(data, pos),
{
}

/// What reading a whole container comes to when its last byte is missing: a
/// container without elements is refused at its header, and in any other
/// the last element cannot be read.
pub proof fn lemma_truncated_container(elements: Seq<Option<Seq<u8>>>, flags: u8)
    requires
        fits_container(elements),
    ensures
        elements.len() == 0 ==> gi_header_error(container_bytes(elements, flags).drop_last()) == Some(
            ErrorKind::InvalidData,
        ),
        elements.len() > 0 ==> gi_header_ok(container_bytes(elements, flags).drop_last())
            && gi_length_prefixed(
            container_bytes(elements, flags).drop_last(),
            elements.len() - 1,
        ) is None,
{
    let n = elements.len();
    let data = container_bytes(elements, flags);
    let cut = data.drop_last();
    lemma_container_layout(elements, flags);
    assert(cut == data.subrange(0, data.len() - 1));
    if n == 0 {
        assert(cut.len() == 9);
        assert(cut[0] == data[0]);
    } else {
        lemma_values_grow(elements, 0, n);
        lemma_values_grow(elements, (n - 1) as nat, n);
        assert(cut[0] == data[0]);
        lemma_be_i32_in_prefix(data, 6, data.len() - 1);
        lemma_be_i32_in_prefix(data, 10 + 4 * (n - 1), data.len() - 1);
        assert(gi_offset(data, n - 1) == Some(values_upto(elements, n).len() as int));
        assert(gi_offset(cut, n - 1) == gi_offset(data, n - 1));
        assert(gi_values_start(cut) + values_upto(elements, n).len() > cut.len());
        assert(gi_abs_range(cut, n - 1) is None);
    }
}

/// What reading a whole packed stream comes to when its last byte is
/// missing: a stream without values is refused at its header, and in any
/// other the values cannot all be read.
pub proof fn lemma_truncated_packed(values: Seq<u32>, width: nat)
    requires
        fits_packed(values, width),
    ensures
        values.len() == 0 ==> !vs_header_ok(packed_bytes(values, width).drop_last()),
        values.len() > 0 ==> vs_header_ok(packed_bytes(values, width).drop_last()) && vs_values(
            packed_bytes(values, width).drop_last(),
        ) is None,
{
    let data = packed_bytes(values, width);
    let cut = data.drop_last();
    lemma_packed_layout(values, width);
    assert(cut == data.subrange(0, data.len() - 1));
    if values.len() > 0 {
        assert(values.len() * width >= 1) by (nonlinear_arith)
            requires
                values.len() >= 1,
                width >= 1,
        ;
        assert(cut[0] == data[0] && cut[1] == data[1]);
        lemma_be_i32_in_prefix(data, 2, data.len() - 1);
    }
}

/// What reading a compressed long column comes to when its last byte is
/// missing: an error, whatever the codec.
pub proof fn lemma_truncated_longs(values: Seq<i64>, stride: nat, codec: u8)
    requires
        fits_longs_column(values, stride),
    ensures
        long_column(longs_column_bytes(values, stride, codec).drop_last()) is Err,
{
    reveal(longs_column_bytes);
    let blocks = long_blocks(values, stride);
    let n = blocks.len();
    let container = container_bytes(blocks, 0);
    let data = longs_column_bytes(values, stride, codec);
    let cut = data.drop_last();
    lemma_container_layout(blocks, 0);
    lemma_truncated_container(blocks, 0);
    assert(data.subrange(10, data.len() as int) =~= container);
    assert(cut.subrange(10, cut.len() as int) =~= container.drop_last());
    assert(cut[0] == 2u8);
    if longs_header(cut) is Ok {
        let set = longs_header(cut)->Ok_0;
        assert(set.blocks == container.drop_last());
        assert(n > 0);
        assert(gi_count(set.blocks) == n) by {
            lemma_be_i32_in_prefix(container, 6, container.len() - 1);
            assert(container.drop_last() == container.subrange(0, container.len() - 1));
        }
        assert(decoded_prefix(set.blocks, set.strategy, set.total, set.stride, 8, n as nat) is Err);
    }
}

/// A column file that consists of a descriptor alone, with nothing behind
/// it, is refused as too short for its descriptor once its last byte is
/// missing.
pub proof fn lemma_truncated_descriptor(text: Seq<u8>)
    requires
        text.len() < 0x8000_0000,
    ensures
        header_split(i32_bytes(text.len() as int) + text) == Some((text, Seq::<u8>::empty())),
        header_split((i32_bytes(text.len() as int) + text).drop_last()) is None,
{
    let data = i32_bytes(text.len() as int) + text;
    let cut = data.drop_last();
    assert(data.subrange(0, 4) =~= i32_bytes(text.len() as int));
    lemma_read_i32_bytes(data, 0, text.len() as int);
    assert(data.subrange(4, 4 + text.len() as int) =~= text);
    assert(data.subrange(4 + text.len() as int, data.len() as int) =~= Seq::<u8>::empty());
    if cut.len() >= 4 {
        assert(cut == data.subrange(0, data.len() - 1));
        lemma_be_i32_in_prefix(data, 0, data.len() - 1);
    }
}

/// A version marker of exactly four bytes that loses its last byte is
/// refused as invalid data.
pub proof fn lemma_truncated_version(data: Seq<u8>)
    requires
        data.len() == 4,
    ensures
        version_checked(data.drop_last()) == Err::<i32, ErrorKind>(ErrorKind::InvalidData),
{
}

} // verus!
