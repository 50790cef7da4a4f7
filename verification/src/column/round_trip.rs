use crate::byte_order::{
    be_i32, i32_bytes, lemma_read_i32_bytes, lemma_read_uint_bytes, lemma_uint_bytes_len,
    uint_bytes,
};
use crate::column::vsize_ints::{vs_count, vs_header_ok, vs_value, vs_values, vs_width};
use crate::column::generic_indexed::{
    gi_abs_range, gi_count, gi_header_ok, gi_length_prefixed, gi_object_string, gi_offset, gi_range,
    gi_raw, gi_str, gi_total_size, gi_values_start,
};
use vstd::prelude::*;

verus! {

/// One element as the length-prefix convention writes it: the length and the
/// bytes, or a length of -1 for a null element.
pub open spec fn element_bytes(element: Option<Seq<u8>>) -> Seq<u8> {
    match element {
        Some(bytes) => i32_bytes(bytes.len() as int) + bytes,
        None => i32_bytes(-1),
    }
}

/// The values area of the first `k` elements: one behind the other.
pub open spec fn values_upto(elements: Seq<Option<Seq<u8>>>, k: nat) -> Seq<u8>
    decreases k,
{
    if k == 0 {
        Seq::empty()
    } else {
        values_upto(elements, (k - 1) as nat) + element_bytes(elements[k - 1])
    }
}

/// The offset table of the first `k` elements: where each ends in the values area.
pub open spec fn table_upto(elements: Seq<Option<Seq<u8>>>, k: nat) -> Seq<u8>
    decreases k,
{
    if k == 0 {
        Seq::empty()
    } else {
        table_upto(elements, (k - 1) as nat) + i32_bytes(values_upto(elements, k).len() as int)
    }
}

/// A version-1 container that holds the given elements under the
/// length-prefix convention.
#[verifier::opaque]
pub open spec fn container_bytes(elements: Seq<Option<Seq<u8>>>, flags: u8) -> Seq<u8> {
    let table = table_upto(elements, elements.len());
    let values = values_upto(elements, elements.len());
    seq![1u8, flags] + i32_bytes((4 + table.len() + values.len()) as int) + i32_bytes(
        elements.len() as int,
    ) + table + values
}

/// Whether a list of elements fits in a container: the counts and offsets
/// must fit in a signed 32-bit number.
pub open spec fn fits_container(elements: Seq<Option<Seq<u8>>>) -> bool {
    4 + 4 * elements.len() + values_upto(elements, elements.len()).len() < 0x8000_0000
}

/// Four bytes spell a signed 32-bit number.
pub proof fn lemma_i32_bytes_len(v: int)
    ensures
        i32_bytes(v).len() == 4,
{
}

/// The values area grows with every element, by at least the four bytes of
/// the prefix, and keeps what it held.
pub proof fn lemma_values_grow(elements: Seq<Option<Seq<u8>>>, k: nat, n: nat)
    requires
        k <= n,
    ensures
        values_upto(elements, k).len() + 4 * (n - k) <= values_upto(elements, n).len(),
        values_upto(elements, n).subrange(0, values_upto(elements, k).len() as int) == values_upto(
            elements,
            k,
        ),
    decreases n - k,
{
    if k < n {
        lemma_values_grow(elements, k, (n - 1) as nat);
        let shorter = values_upto(elements, (n - 1) as nat);
        let whole = values_upto(elements, n);
        let cut = values_upto(elements, k).len() as int;
        assert(whole.subrange(0, cut) =~= shorter.subrange(0, cut));
    } else {
        let whole = values_upto(elements, n);
        assert(whole.subrange(0, whole.len() as int) =~= whole);
    }
}

/// The offset table holds four bytes per element: the end of each.
pub proof fn lemma_table_entry(elements: Seq<Option<Seq<u8>>>, j: int, n: nat)
    requires
        0 <= j < n,
    ensures
        table_upto(elements, n).len() == 4 * n,
        table_upto(elements, n).subrange(4 * j, 4 * j + 4) == i32_bytes(
            values_upto(elements, (j + 1) as nat).len() as int,
        ),
    decreases n,
{
    lemma_table_len(elements, (n - 1) as nat);
    let shorter = table_upto(elements, (n - 1) as nat);
    let whole = table_upto(elements, n);
    if j < n - 1 {
        lemma_table_entry(elements, j, (n - 1) as nat);
        assert(whole.subrange(4 * j, 4 * j + 4) =~= shorter.subrange(4 * j, 4 * j + 4));
    } else {
        assert(whole.subrange(4 * j, 4 * j + 4) =~= i32_bytes(
            values_upto(elements, n).len() as int,
        ));
    }
}

/// The offset table of `n` elements is `4 * n` bytes long.
pub proof fn lemma_table_len(elements: Seq<Option<Seq<u8>>>, n: nat)
    ensures
        table_upto(elements, n).len() == 4 * n,
    decreases n,
{
    if n > 0 {
        lemma_table_len(elements, (n - 1) as nat);
    }
}

/// The header of an encoded container is accepted and announces the number
/// of elements; each offset is where the element ends in the values area.
pub proof fn lemma_container_layout(elements: Seq<Option<Seq<u8>>>, flags: u8)
    requires
        fits_container(elements),
    ensures
        gi_header_ok(container_bytes(elements, flags)),
        gi_count(container_bytes(elements, flags)) == elements.len(),
        container_bytes(elements, flags).len() == 10 + 4 * elements.len() + values_upto(
            elements,
            elements.len(),
        ).len(),
        forall|j: int|
            0 <= j < elements.len() ==> #[trigger] gi_offset(container_bytes(elements, flags), j)
                == Some(values_upto(elements, (j + 1) as nat).len() as int),
        container_bytes(elements, flags).subrange(
            (10 + 4 * elements.len()) as int,
            container_bytes(elements, flags).len() as int,
        ) == values_upto(elements, elements.len()),
{
    reveal(container_bytes);
    let n = elements.len();
    let data = container_bytes(elements, flags);
    let table = table_upto(elements, n);
    let values = values_upto(elements, n);
    lemma_table_len(elements, n);
    let head = seq![1u8, flags] + i32_bytes((4 + table.len() + values.len()) as int);
    assert(head.len() == 6);
    assert(data.subrange(6, 10) =~= i32_bytes(n as int));
    lemma_read_i32_bytes(data, 6, n as int);
    assert(data[0] == 1u8);
    assert(data.subrange((10 + 4 * n) as int, data.len() as int) =~= values);
    assert forall|j: int| 0 <= j < n implies #[trigger] gi_offset(data, j) == Some(
        values_upto(elements, (j + 1) as nat).len() as int,
    ) by {
        lemma_table_entry(elements, j, n);
        lemma_values_grow(elements, (j + 1) as nat, n);
        assert(data.subrange(10 + 4 * j, 10 + 4 * j + 4) =~= table.subrange(4 * j, 4 * j + 4));
        lemma_read_i32_bytes(
            data,
            10 + 4 * j,
            values_upto(elements, (j + 1) as nat).len() as int,
        );
    }
}

/// Where an element stands in an encoded container, and that its bytes
/// there are the bytes that were written for it.
pub proof fn lemma_element_place(elements: Seq<Option<Seq<u8>>>, flags: u8, i: int)
    requires
        fits_container(elements),
        0 <= i < elements.len(),
    ensures
        gi_abs_range(container_bytes(elements, flags), i) matches Some((a, b)) && 0 <= a <= b
            <= container_bytes(elements, flags).len() && container_bytes(elements, flags).subrange(
            a,
            b,
        ) == element_bytes(elements[i]),
{
    let n = elements.len();
    let data = container_bytes(elements, flags);
    let values = values_upto(elements, n);
    lemma_container_layout(elements, flags);
    lemma_values_grow(elements, i as nat, n);
    lemma_values_grow(elements, (i + 1) as nat, n);
    lemma_values_grow(elements, 0, i as nat);
    let s = values_upto(elements, i as nat).len() as int;
    let e = values_upto(elements, (i + 1) as nat).len() as int;
    let written = element_bytes(elements[i]);
    assert(values_upto(elements, (i + 1) as nat) == values_upto(elements, i as nat) + written);
    if i > 0 {
        assert(gi_offset(data, i - 1) == Some(s));
    }
    assert(gi_offset(data, i) == Some(e));
    assert(gi_range(data, i) == Some((s, e)));
    let base = gi_values_start(data);
    assert(base == 10 + 4 * n);
    assert(gi_abs_range(data, i) == Some((base + s, base + e)));
    let tail = data.subrange(base, data.len() as int);
    assert(tail == values);
    assert(data.subrange(base + s, base + e) =~= written) by {
        assert forall|j: int| 0 <= j < e - s implies data.subrange(base + s, base + e)[j]
            == written[j] by {
            assert(data[base + s + j] == tail[s + j]);
            assert(values[s + j] == values.subrange(0, e)[s + j]);
            assert(values_upto(elements, (i + 1) as nat)[s + j] == written[j]);
        }
    }
}

/// Reading an element that was written under the length-prefix convention
/// gives it back, wherever in a buffer it stands.
pub proof fn lemma_element_read(data: Seq<u8>, a: int, b: int, element: Option<Seq<u8>>)
    requires
        0 <= a <= b <= data.len(),
        data.subrange(a, b) == element_bytes(element),
        element matches Some(bytes) ==> bytes.len() < 0x8000_0000,
    ensures
        b - a >= 4,
        match element {
            Some(bytes) => be_i32(data, a) == bytes.len() && a + 4 + bytes.len() == b
                && data.subrange(a + 4, b) == bytes,
            None => be_i32(data, a) == -1,
        },
{
    let written = data.subrange(a, b);
    match element {
        Some(bytes) => {
            let prefix = i32_bytes(bytes.len() as int);
            assert(written.len() == 4 + bytes.len());
            assert(data.subrange(a, a + 4) =~= prefix) by {
                assert forall|j: int| 0 <= j < 4 implies data.subrange(a, a + 4)[j]
                    == prefix[j] by {
                    assert(data[a + j] == written[j]);
                }
            }
            lemma_read_i32_bytes(data, a, bytes.len() as int);
            assert(data.subrange(a + 4, b) =~= bytes) by {
                assert forall|j: int| 0 <= j < bytes.len() implies data.subrange(a + 4, b)[j]
                    == bytes[j] by {
                    assert(data[a + 4 + j] == written[4 + j]);
                }
            }
        },
        None => {
            assert(written.len() == 4);
            assert(data.subrange(a, a + 4) =~= i32_bytes(-1));
            lemma_read_i32_bytes(data, a, -1);
        },
    }
}

/// Decoding gives back what was encoded: a container that holds a list of
/// optional byte strings under the length-prefix convention announces their
/// number and yields each of them at its index, null elements included.
pub proof fn lemma_length_prefixed_round_trip(
    elements: Seq<Option<Seq<u8>>>,
    flags: u8,
    i: int,
)
    requires
        fits_container(elements),
        0 <= i < elements.len(),
    ensures
        gi_header_ok(container_bytes(elements, flags)),
        gi_count(container_bytes(elements, flags)) == elements.len(),
        gi_length_prefixed(container_bytes(elements, flags), i) == Some(elements[i]),
{
    let data = container_bytes(elements, flags);
    assert(gi_header_ok(data) && gi_count(data) == elements.len()) by {
        lemma_container_layout(elements, flags);
    }
    lemma_element_place(elements, flags, i);
    let (a, b) = gi_abs_range(data, i)->Some_0;
    assert(elements[i] matches Some(bytes) ==> bytes.len() < 0x8000_0000) by {
        if elements[i] is Some {
            assert(element_bytes(elements[i]).len() == 4 + elements[i]->Some_0.len());
        }
    }
    lemma_element_read(data, a, b, elements[i]);
}

/// An index at or behind the element count, in whatever buffer, names no
/// element under any convention: every accessor reports invalid data for it.
pub proof fn lemma_index_out_of_range(data: Seq<u8>, i: int)
    requires
        i < 0 || i >= gi_count(data),
    ensures
        gi_range(data, i) is None,
        gi_raw(data, i) is None,
        gi_length_prefixed(data, i) is None,
        gi_object_string(data, i) is None,
        gi_str(data, i) is None,
{
}

/// An encoded container occupies exactly its own bytes, so that what follows
/// it in a larger layout is found right behind it.
pub proof fn lemma_container_size(elements: Seq<Option<Seq<u8>>>, flags: u8)
    requires
        fits_container(elements),
    ensures
        gi_total_size(container_bytes(elements, flags)) == Some(
            container_bytes(elements, flags).len() as int,
        ),
{
    lemma_container_layout(elements, flags);
    let n = elements.len();
    if n > 0 {
        assert(gi_offset(container_bytes(elements, flags), n - 1) == Some(
            values_upto(elements, n).len() as int,
        ));
    }
}

/// Whether a number can be written in `width` bytes.
pub open spec fn fits_width(v: u32, width: nat) -> bool {
    &&& width == 1 ==> v < 0x100
    &&& width == 2 ==> v < 0x1_0000
    &&& width == 3 ==> v < 0x100_0000
}

/// The first `k` values, packed: `width` bytes each, most significant first.
pub open spec fn packed_upto(values: Seq<u32>, width: nat, k: nat) -> Seq<u8>
    decreases k,
{
    if k == 0 {
        Seq::empty()
    } else {
        packed_upto(values, width, (k - 1) as nat) + uint_bytes(values[k - 1] as int, width)
    }
}

/// A packed variable-width stream that holds the given values.
#[verifier::opaque]
pub open spec fn packed_bytes(values: Seq<u32>, width: nat) -> Seq<u8> {
    seq![0u8, width as u8] + i32_bytes((values.len() * width) as int) + packed_upto(
        values,
        width,
        values.len(),
    )
}

/// Whether a list of values can be written as a packed stream of that width.
pub open spec fn fits_packed(values: Seq<u32>, width: nat) -> bool {
    &&& 1 <= width <= 4
    &&& values.len() * width < 0x8000_0000
    &&& forall|i: int| 0 <= i < values.len() ==> fits_width(#[trigger] values[i], width)
}

/// The packed values are `width` bytes each, and each stands at its place.
pub proof fn lemma_packed_entry(values: Seq<u32>, width: nat, i: int, n: nat)
    requires
        0 <= i < n,
    ensures
        packed_upto(values, width, n).len() == n * width,
        0 <= i * width,
        (i + 1) * width <= n * width,
        packed_upto(values, width, n).subrange(i * width, (i + 1) * width) == uint_bytes(
            values[i] as int,
            width,
        ),
    decreases n,
{
    lemma_packed_len(values, width, (n - 1) as nat);
    lemma_uint_bytes_len(values[n - 1] as int, width);
    let shorter = packed_upto(values, width, (n - 1) as nat);
    let whole = packed_upto(values, width, n);
    let m = (n - 1) as nat;
    assert(n * width == m * width + width) by (nonlinear_arith)
        requires
            n == m + 1,
    ;
    assert((i + 1) * width == i * width + width) by (nonlinear_arith);
    assert(0 <= i * width && (i + 1) * width <= n * width) by (nonlinear_arith)
        requires
            0 <= i < n,
            0 <= width,
    ;
    if i < n - 1 {
        lemma_packed_entry(values, width, i, (n - 1) as nat);
        assert(whole.subrange(i * width, (i + 1) * width) =~= shorter.subrange(
            i * width,
            (i + 1) * width,
        ));
    } else {
        assert(whole.subrange(i * width, (i + 1) * width) =~= uint_bytes(
            values[i] as int,
            width,
        ));
    }
}

/// `n` packed values are `n * width` bytes long.
pub proof fn lemma_packed_len(values: Seq<u32>, width: nat, n: nat)
    ensures
        packed_upto(values, width, n).len() == n * width,
    decreases n,
{
    if n > 0 {
        let m = (n - 1) as nat;
        lemma_packed_len(values, width, m);
        lemma_uint_bytes_len(values[n - 1] as int, width);
        assert(n * width == m * width + width) by (nonlinear_arith)
            requires
                n == m + 1,
        ;
    } else {
        assert(n * width == 0) by (nonlinear_arith)
            requires
                n == 0,
        ;
    }
}

/// The header of a packed stream is accepted and announces the width and the
/// number of values; the values stand behind it.
pub proof fn lemma_packed_layout(values: Seq<u32>, width: nat)
    requires
        fits_packed(values, width),
    ensures
        vs_header_ok(packed_bytes(values, width)),
        vs_width(packed_bytes(values, width)) == width,
        vs_count(packed_bytes(values, width)) == values.len(),
        packed_bytes(values, width).len() == 6 + values.len() * width,
        packed_bytes(values, width).subrange(6, packed_bytes(values, width).len() as int)
            == packed_upto(values, width, values.len()),
{
    reveal(packed_bytes);
    let data = packed_bytes(values, width);
    let size = (values.len() * width) as int;
    lemma_packed_len(values, width, values.len());
    assert(data.subrange(2, 6) =~= i32_bytes(size));
    lemma_read_i32_bytes(data, 2, size);
    assert(data[0] == 0u8 && data[1] == width as u8);
    assert(size / (width as int) == values.len()) by (nonlinear_arith)
        requires
            size == values.len() * width,
            width >= 1,
    ;
    assert(data.subrange(6, data.len() as int) =~= packed_upto(values, width, values.len()));
}

/// Decoding gives back what was encoded: a packed stream of one to four
/// bytes per value, written from numbers that fit that width, announces their
/// count and yields each of them at its index.
pub proof fn lemma_packed_round_trip(values: Seq<u32>, width: nat, i: int)
    requires
        fits_packed(values, width),
        0 <= i < values.len(),
    ensures
        vs_header_ok(packed_bytes(values, width)),
        vs_count(packed_bytes(values, width)) == values.len(),
        vs_value(packed_bytes(values, width), i) == Some(values[i]),
{
    let data = packed_bytes(values, width);
    let n = values.len();
    lemma_packed_layout(values, width);
    lemma_packed_entry(values, width, i, n);
    let body = data.subrange(6, data.len() as int);
    assert(data.subrange(6 + i * width, 6 + i * width + width) =~= uint_bytes(
        values[i] as int,
        width,
    )) by {
        assert((i + 1) * width == i * width + width) by (nonlinear_arith);
        let written = body.subrange(i * width, (i + 1) * width);
        assert forall|j: int| 0 <= j < width implies data.subrange(
            6 + i * width,
            6 + i * width + width,
        )[j] == written[j] by {
            assert(data[6 + i * width + j] == body[i * width + j]);
        }
    }
    assert((i + 1) * width == i * width + width) by (nonlinear_arith);
    assert(fits_width(values[i], width));
    lemma_read_uint_bytes(data, 6 + i * width, values[i] as int, width);
}

/// Decoding a whole packed stream gives back the list that was encoded.
pub proof fn lemma_packed_round_trip_all(values: Seq<u32>, width: nat)
    requires
        fits_packed(values, width),
    ensures
        vs_values(packed_bytes(values, width)) == Some(values),
{
    let data = packed_bytes(values, width);
    lemma_packed_layout(values, width);
    let decoded = vs_values(data)->Some_0;
    assert(decoded =~= values) by {
        assert forall|i: int| 0 <= i < values.len() implies decoded[i] == values[i] by {
            lemma_packed_round_trip(values, width, i);
        }
    }
}

/// A stream that names a width of zero, or of more than four bytes, is not
/// accepted.
pub proof fn lemma_packed_width_gate(data: Seq<u8>)
    requires
        data.len() >= 2,
        data[1] == 0 || data[1] > 4,
    ensures
        !vs_header_ok(data),
{
}

} // verus!
