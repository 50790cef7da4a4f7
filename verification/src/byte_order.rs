use byteorder::{BigEndian, ByteOrder};
use vstd::prelude::*;
use vstd::string::StringSliceAdditionalSpecFns;
use vstd::utf8::valid_utf8;

verus! {

/// The unsigned value of the four bytes of `s` that start at `pos`, most
/// significant byte first.
pub open spec fn be_u32(s: Seq<u8>, pos: int) -> int {
    s[pos] as int * 0x100_0000 + s[pos + 1] as int * 0x1_0000 + s[pos + 2] as int * 0x100 + s[pos
        + 3] as int
}

/// The two's-complement value of the four bytes of `s` that start at `pos`,
/// most significant byte first.
pub open spec fn be_i32(s: Seq<u8>, pos: int) -> int {
    let u = be_u32(s, pos);
    if u >= 0x8000_0000 {
        u - 0x1_0000_0000
    } else {
        u
    }
}

/// The unsigned value of the eight bytes of `s` that start at `pos`, most
/// significant byte first.
pub open spec fn be_u64(s: Seq<u8>, pos: int) -> int {
    be_u32(s, pos) * 0x1_0000_0000 + be_u32(s, pos + 4)
}

/// The two's-complement value of the eight bytes of `s` that start at `pos`,
/// most significant byte first.
pub open spec fn be_i64(s: Seq<u8>, pos: int) -> int {
    let u = be_u64(s, pos);
    if u >= 0x8000_0000_0000_0000 {
        u - 0x1_0000_0000_0000_0000
    } else {
        u
    }
}

/// The four bytes that spell an unsigned number below 2^32, most significant
/// byte first.
pub open spec fn u32_bytes(v: int) -> Seq<u8> {
    seq![
        (v / 0x100_0000 % 0x100) as u8,
        (v / 0x1_0000 % 0x100) as u8,
        (v / 0x100 % 0x100) as u8,
        (v % 0x100) as u8,
    ]
}

/// The four bytes that spell a signed 32-bit number in two's complement,
/// most significant byte first.
pub open spec fn i32_bytes(v: int) -> Seq<u8> {
    u32_bytes(
        if v < 0 {
            v + 0x1_0000_0000
        } else {
            v
        },
    )
}

/// The eight bytes that spell a signed 64-bit number in two's complement,
/// most significant byte first.
pub open spec fn i64_bytes(v: int) -> Seq<u8> {
    let u = if v < 0 {
        v + 0x1_0000_0000_0000_0000
    } else {
        v
    };
    u32_bytes(u / 0x1_0000_0000) + u32_bytes(u % 0x1_0000_0000)
}

/// The `width` bytes that spell an unsigned number below 256^`width`, most
/// significant byte first.
pub open spec fn uint_bytes(v: int, width: nat) -> Seq<u8>
    decreases width,
{
    if width == 0 {
        Seq::empty()
    } else {
        uint_bytes(v / 0x100, (width - 1) as nat).push((v % 0x100) as u8)
    }
}

/// Reading four bytes that spell an unsigned number below 2^32 gives that
/// number back, wherever in a buffer they stand.
pub proof fn lemma_read_u32_bytes(s: Seq<u8>, pos: int, v: int)
    requires
        0 <= pos,
        pos + 4 <= s.len(),
        s.subrange(pos, pos + 4) == u32_bytes(v),
        0 <= v < 0x1_0000_0000,
    ensures
        be_u32(s, pos) == v,
{
    let part = s.subrange(pos, pos + 4);
    assert(s[pos] == part[0]);
    assert(s[pos + 1] == part[1]);
    assert(s[pos + 2] == part[2]);
    assert(s[pos + 3] == part[3]);
}

/// Reading four bytes that spell a signed 32-bit number gives that number
/// back, wherever in a buffer they stand.
pub proof fn lemma_read_i32_bytes(s: Seq<u8>, pos: int, v: int)
    requires
        0 <= pos,
        pos + 4 <= s.len(),
        s.subrange(pos, pos + 4) == i32_bytes(v),
        -0x8000_0000 <= v < 0x8000_0000,
    ensures
        be_i32(s, pos) == v,
{
    if v < 0 {
        lemma_read_u32_bytes(s, pos, v + 0x1_0000_0000);
    } else {
        lemma_read_u32_bytes(s, pos, v);
    }
}

/// Reading eight bytes that spell a signed 64-bit number gives that number
/// back, wherever in a buffer they stand.
pub proof fn lemma_read_i64_bytes(s: Seq<u8>, pos: int, v: int)
    requires
        0 <= pos,
        pos + 8 <= s.len(),
        s.subrange(pos, pos + 8) == i64_bytes(v),
        -0x8000_0000_0000_0000 <= v < 0x8000_0000_0000_0000,
    ensures
        be_i64(s, pos) == v,
{
    let u = if v < 0 {
        v + 0x1_0000_0000_0000_0000
    } else {
        v
    };
    let hi = u / 0x1_0000_0000;
    let lo = u % 0x1_0000_0000;
    let part = s.subrange(pos, pos + 8);
    assert(part == u32_bytes(hi) + u32_bytes(lo));
    assert(s.subrange(pos, pos + 4) =~= u32_bytes(hi)) by {
        assert forall|j: int| 0 <= j < 4 implies s.subrange(pos, pos + 4)[j] == u32_bytes(
            hi,
        )[j] by {
            assert(s[pos + j] == part[j]);
        }
    }
    assert(s.subrange(pos + 4, pos + 8) =~= u32_bytes(lo)) by {
        assert forall|j: int| 0 <= j < 4 implies s.subrange(pos + 4, pos + 8)[j] == u32_bytes(
            lo,
        )[j] by {
            assert(s[pos + 4 + j] == part[4 + j]);
        }
    }
    lemma_read_u32_bytes(s, pos, hi);
    lemma_read_u32_bytes(s, pos + 4, lo);
}

/// Reading `width` bytes that spell an unsigned number gives that number
/// back, wherever in a buffer they stand.
pub proof fn lemma_read_uint_bytes(s: Seq<u8>, pos: int, v: int, width: nat)
    requires
        0 <= pos,
        pos + width <= s.len(),
        s.subrange(pos, pos + width) == uint_bytes(v, width),
        0 <= v,
        width == 0 ==> v == 0,
        width == 1 ==> v < 0x100,
        width == 2 ==> v < 0x1_0000,
        width == 3 ==> v < 0x100_0000,
        width == 4 ==> v < 0x1_0000_0000,
        width <= 4,
    ensures
        be_uint(s, pos, width) == v,
    decreases width,
{
    if width > 0 {
        let part = s.subrange(pos, pos + width);
        let shorter = uint_bytes(v / 0x100, (width - 1) as nat);
        lemma_uint_bytes_len(v / 0x100, (width - 1) as nat);
        assert(part == shorter.push((v % 0x100) as u8));
        assert(s.subrange(pos, pos + width - 1) =~= shorter) by {
            assert forall|j: int| 0 <= j < width - 1 implies s.subrange(pos, pos + width - 1)[j]
                == shorter[j] by {
                assert(part[j] == shorter[j]);
            }
        }
        assert(s[pos + width - 1] == part[width - 1]);
        lemma_read_uint_bytes(s, pos, v / 0x100, (width - 1) as nat);
    }
}

/// An unsigned number is spelt in as many bytes as asked for.
pub proof fn lemma_uint_bytes_len(v: int, width: nat)
    ensures
        uint_bytes(v, width).len() == width,
    decreases width,
{
    if width > 0 {
        lemma_uint_bytes_len(v / 0x100, (width - 1) as nat);
    }
}

/// The unsigned value of the `width` bytes of `s` that start at `pos`, most
/// significant byte first; zero for a width of zero.
pub open spec fn be_uint(s: Seq<u8>, pos: int, width: nat) -> int
    decreases width,
{
    if width == 0 {
        0
    } else {
        be_uint(s, pos, (width - 1) as nat) * 0x100 + s[pos + width - 1] as int
    }
}

/// `be_uint` of at most four bytes fits in 32 bits, and one more byte extends
/// the value by a factor of 256.
pub proof fn lemma_be_uint_bound(s: Seq<u8>, pos: int, width: nat)
    requires
        width <= 4,
    ensures
        0 <= be_uint(s, pos, width),
        width == 0 ==> be_uint(s, pos, width) == 0,
        width == 1 ==> be_uint(s, pos, width) < 0x100,
        width == 2 ==> be_uint(s, pos, width) < 0x1_0000,
        width == 3 ==> be_uint(s, pos, width) < 0x100_0000,
        width == 4 ==> be_uint(s, pos, width) < 0x1_0000_0000,
    decreases width,
{
    if width > 0 {
        lemma_be_uint_bound(s, pos, (width - 1) as nat);
    }
}

/// Four bytes read as `be_uint` are the same number as `be_u32`.
pub proof fn lemma_be_uint_four(s: Seq<u8>, pos: int)
    ensures
        be_uint(s, pos, 4) == be_u32(s, pos),
{
    reveal_with_fuel(be_uint, 5);
}

/// Reads `width` bytes of `data` from `pos` on as one unsigned number, most
/// significant byte first, by shifting and or-ing.
pub fn read_be_uint(data: &[u8], pos: usize, width: usize) -> (v: u32)
    requires
        width <= 4,
        pos + width <= data@.len(),
    ensures
        v as int == be_uint(data@, pos as int, width as nat),
{
    let len = data.len();
    let mut value: u32 = 0;
    let mut k: usize = 0;
    while k < width
        invariant
            k <= width <= 4,
            pos + width <= len == data@.len(),
            value as int == be_uint(data@, pos as int, k as nat),
        decreases width - k,
    {
        let b: u8 = data[pos + k];
        proof {
            lemma_be_uint_bound(data@, pos as int, k as nat);
            assert(value < 0x100_0000);
            assert(((value << 8) | (b as u32)) == value * 0x100 + b as u32) by (bit_vector)
                requires
                    value < 0x100_0000,
            ;
        }
        value = (value << 8) | (b as u32);
        k = k + 1;
    }
    value
}

/// `BigEndian::read_i32` of the byteorder crate, applied to the bytes of
/// `data` from `pos` on. Trusted: the crate reads four bytes with
/// `u32::from_be_bytes` and reinterprets them as a signed number, which is
/// `be_i32`. It panics on fewer than four bytes, which `requires` excludes.
#[verifier::external_body]
pub(crate) fn read_i32_at(data: &[u8], pos: usize) -> (v: i32)
    requires
        pos + 4 <= data@.len(),
    ensures
        v as int == be_i32(data@, pos as int),
{
    BigEndian::read_i32(&data[pos..])
}

/// `BigEndian::read_i64` of the byteorder crate, applied to the bytes of
/// `data` from `pos` on. Trusted: the crate reads eight bytes with
/// `u64::from_be_bytes` and reinterprets them as a signed number, which is
/// `be_i64`. It panics on fewer than eight bytes, which `requires` excludes.
#[verifier::external_body]
pub(crate) fn read_i64_at(data: &[u8], pos: usize) -> (v: i64)
    requires
        pos + 8 <= data@.len(),
    ensures
        v as int == be_i64(data@, pos as int),
{
    BigEndian::read_i64(&data[pos..])
}

/// `BigEndian::read_u32` of the byteorder crate, applied to the bytes of
/// `data` from `pos` on. Trusted: the crate reads four bytes with
/// `u32::from_be_bytes`, which is `be_u32`. It panics on fewer than four
/// bytes, which `requires` excludes.
#[verifier::external_body]
pub(crate) fn read_u32_at(data: &[u8], pos: usize) -> (v: u32)
    requires
        pos + 4 <= data@.len(),
    ensures
        v as int == be_u32(data@, pos as int),
{
    BigEndian::read_u32(&data[pos..])
}

/// `BigEndian::read_u64` of the byteorder crate, applied to the bytes of
/// `data` from `pos` on. Trusted: the crate reads eight bytes with
/// `u64::from_be_bytes`, which is `be_u64`. It panics on fewer than eight
/// bytes, which `requires` excludes.
#[verifier::external_body]
pub(crate) fn read_u64_at(data: &[u8], pos: usize) -> (v: u64)
    requires
        pos + 8 <= data@.len(),
    ensures
        v as int == be_u64(data@, pos as int),
{
    BigEndian::read_u64(&data[pos..])
}

/// `std::str::from_utf8`, with its error dropped. Trusted: std documents that
/// the call succeeds exactly on well-formed UTF-8 and that the string it
/// returns is a view of the same bytes.
#[verifier::external_body]
pub(crate) fn str_from_utf8<'a>(bytes: &'a [u8]) -> (r: Option<&'a str>)
    ensures
        r is Some <==> valid_utf8(bytes@),
        r matches Some(s) ==> s.spec_bytes() == bytes@,
{
    std::str::from_utf8(bytes).ok()
}

} // verus!
