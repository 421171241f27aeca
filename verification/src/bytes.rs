//! Big-endian integer encodings.
use vstd::prelude::*;

verus! {

/// The four big-endian bytes of a `u32`.
pub open spec fn be32(x: u32) -> Seq<u8> {
    seq![(x >> 24u32) as u8, (x >> 16u32) as u8, (x >> 8u32) as u8, x as u8]
}

/// The eight big-endian bytes of a `u64`.
pub open spec fn be64(x: u64) -> Seq<u8> {
    seq![
        (x >> 56u64) as u8, (x >> 48u64) as u8, (x >> 40u64) as u8, (x >> 32u64) as u8,
        (x >> 24u64) as u8, (x >> 16u64) as u8, (x >> 8u64) as u8, x as u8,
    ]
}

/// The sixteen big-endian bytes of a `u128`.
pub open spec fn be128(x: u128) -> Seq<u8> {
    be64((x >> 64u128) as u64) + be64(x as u64)
}

/// The `u32` read big-endian from four bytes.
pub open spec fn from_be32(b0: u8, b1: u8, b2: u8, b3: u8) -> u32 {
    ((b0 as u32) << 24u32) | ((b1 as u32) << 16u32) | ((b2 as u32) << 8u32) | (b3 as u32)
}

/// The `u64` read big-endian from two halves.
pub open spec fn join64(hi: u32, lo: u32) -> u64 {
    ((hi as u64) << 32u64) | (lo as u64)
}

/// The `u32` at offset `at` of `s`, read big-endian.
pub open spec fn read_be32(s: Seq<u8>, at: int) -> u32 {
    from_be32(s[at], s[at + 1], s[at + 2], s[at + 3])
}

/// The `u64` at offset `at` of `s`, read big-endian.
pub open spec fn read_be64(s: Seq<u8>, at: int) -> u64 {
    join64(read_be32(s, at), read_be32(s, at + 4))
}

/// The `u128` at offset `at` of `s`, read big-endian.
pub open spec fn read_be128(s: Seq<u8>, at: int) -> u128 {
    ((read_be64(s, at) as u128) << 64u128) | (read_be64(s, at + 8) as u128)
}

/// Reading back the four big-endian bytes of a 32-bit value gives the value.
pub proof fn lemma_be32_roundtrip(x: u32)
    ensures
        from_be32((x >> 24u32) as u8, (x >> 16u32) as u8, (x >> 8u32) as u8, x as u8) == x,
{
    assert(from_be32((x >> 24u32) as u8, (x >> 16u32) as u8, (x >> 8u32) as u8, x as u8) == x)
        by (bit_vector);
}

/// A 64-bit value is its high and low 32-bit halves joined.
pub proof fn lemma_split64(x: u64)
    ensures
        join64((x >> 32u64) as u32, x as u32) == x,
        ((x >> 32u64) as u32 >> 24u32) as u8 == (x >> 56u64) as u8,
        ((x >> 32u64) as u32 >> 16u32) as u8 == (x >> 48u64) as u8,
        ((x >> 32u64) as u32 >> 8u32) as u8 == (x >> 40u64) as u8,
        ((x >> 32u64) as u32) as u8 == (x >> 32u64) as u8,
        ((x as u32) >> 24u32) as u8 == (x >> 24u64) as u8,
        ((x as u32) >> 16u32) as u8 == (x >> 16u64) as u8,
        ((x as u32) >> 8u32) as u8 == (x >> 8u64) as u8,
        (x as u32) as u8 == x as u8,
{
    assert(join64((x >> 32u64) as u32, x as u32) == x) by (bit_vector);
    assert(((x >> 32u64) as u32 >> 24u32) as u8 == (x >> 56u64) as u8) by (bit_vector);
    assert(((x >> 32u64) as u32 >> 16u32) as u8 == (x >> 48u64) as u8) by (bit_vector);
    assert(((x >> 32u64) as u32 >> 8u32) as u8 == (x >> 40u64) as u8) by (bit_vector);
    assert(((x >> 32u64) as u32) as u8 == (x >> 32u64) as u8) by (bit_vector);
    assert(((x as u32) >> 24u32) as u8 == (x >> 24u64) as u8) by (bit_vector);
    assert(((x as u32) >> 16u32) as u8 == (x >> 16u64) as u8) by (bit_vector);
    assert(((x as u32) >> 8u32) as u8 == (x >> 8u64) as u8) by (bit_vector);
    assert((x as u32) as u8 == x as u8) by (bit_vector);
}

/// Reading back what `be32` wrote gives the number.
pub proof fn lemma_read_be32(s: Seq<u8>, at: int, x: u32)
    requires
        0 <= at,
        at + 4 <= s.len(),
        s.subrange(at, at + 4) == be32(x),
    ensures
        read_be32(s, at) == x,
{
    assert(s[at] == s.subrange(at, at + 4)[0]);
    assert(s[at + 1] == s.subrange(at, at + 4)[1]);
    assert(s[at + 2] == s.subrange(at, at + 4)[2]);
    assert(s[at + 3] == s.subrange(at, at + 4)[3]);
    lemma_be32_roundtrip(x);
}

/// Reading back what `be64` wrote gives the number.
pub proof fn lemma_read_be64(s: Seq<u8>, at: int, x: u64)
    requires
        0 <= at,
        at + 8 <= s.len(),
        s.subrange(at, at + 8) == be64(x),
    ensures
        read_be64(s, at) == x,
{
    lemma_split64(x);
    let hi = (x >> 32u64) as u32;
    let lo = x as u32;
    assert(s.subrange(at, at + 4) =~= be32(hi)) by {
        assert forall|i: int| 0 <= i < 4 implies s.subrange(at, at + 4)[i] == be32(hi)[i] by {
            assert(s.subrange(at, at + 4)[i] == s.subrange(at, at + 8)[i]);
        }
    }
    assert(s.subrange(at + 4, at + 8) =~= be32(lo)) by {
        assert forall|i: int| 0 <= i < 4 implies s.subrange(at + 4, at + 8)[i] == be32(lo)[i] by {
            assert(s.subrange(at + 4, at + 8)[i] == s.subrange(at, at + 8)[i + 4]);
        }
    }
    lemma_read_be32(s, at, hi);
    lemma_read_be32(s, at + 4, lo);
}

/// Reading back what `be128` wrote gives the number.
pub proof fn lemma_read_be128(s: Seq<u8>, at: int, x: u128)
    requires
        0 <= at,
        at + 16 <= s.len(),
        s.subrange(at, at + 16) == be128(x),
    ensures
        read_be128(s, at) == x,
{
    let hi = (x >> 64u128) as u64;
    let lo = x as u64;
    assert(s.subrange(at, at + 8) =~= be64(hi)) by {
        assert forall|i: int| 0 <= i < 8 implies s.subrange(at, at + 8)[i] == be64(hi)[i] by {
            assert(s.subrange(at, at + 8)[i] == s.subrange(at, at + 16)[i]);
        }
    }
    assert(s.subrange(at + 8, at + 16) =~= be64(lo)) by {
        assert forall|i: int| 0 <= i < 8 implies s.subrange(at + 8, at + 16)[i] == be64(lo)[i] by {
            assert(s.subrange(at + 8, at + 16)[i] == s.subrange(at, at + 16)[i + 8]);
        }
    }
    lemma_read_be64(s, at, hi);
    lemma_read_be64(s, at + 8, lo);
    assert((((x >> 64u128) as u64) as u128) << 64u128 | ((x as u64) as u128) == x) by (bit_vector);
}

/// Appends the big-endian bytes of a `u32`.
pub fn push_be32(v: &mut Vec<u8>, x: u32)
    ensures
        final(v)@ == old(v)@ + be32(x),
{
    v.push((x >> 24u32) as u8);
    v.push((x >> 16u32) as u8);
    v.push((x >> 8u32) as u8);
    v.push(x as u8);
}

/// Appends the big-endian bytes of a `u64`.
pub fn push_be64(v: &mut Vec<u8>, x: u64)
    ensures
        final(v)@ == old(v)@ + be64(x),
{
    v.push((x >> 56u64) as u8);
    v.push((x >> 48u64) as u8);
    v.push((x >> 40u64) as u8);
    v.push((x >> 32u64) as u8);
    v.push((x >> 24u64) as u8);
    v.push((x >> 16u64) as u8);
    v.push((x >> 8u64) as u8);
    v.push(x as u8);
}

/// Appends the big-endian bytes of a `u128`.
pub fn push_be128(v: &mut Vec<u8>, x: u128)
    ensures
        final(v)@ == old(v)@ + be128(x),
{
    let ghost v0 = v@;
    push_be64(v, (x >> 64u128) as u64);
    push_be64(v, x as u64);
    assert(v@ =~= v0 + be128(x));
}

/// The `u32` at offset `at`, read big-endian.
pub fn get_be32(s: &[u8], at: usize) -> (r: u32)
    requires
        at + 4 <= s.len(),
    ensures
        r == read_be32(s@, at as int),
{
    ((s[at] as u32) << 24u32) | ((s[at + 1] as u32) << 16u32) | ((s[at + 2] as u32) << 8u32)
        | (s[at + 3] as u32)
}

/// The `u64` at offset `at`, read big-endian.
pub fn get_be64(s: &[u8], at: usize) -> (r: u64)
    requires
        at + 8 <= s.len(),
    ensures
        r == read_be64(s@, at as int),
{
    let hi = get_be32(s, at);
    let lo = get_be32(s, at + 4);
    ((hi as u64) << 32u64) | (lo as u64)
}

/// The `u128` at offset `at`, read big-endian.
pub fn get_be128(s: &[u8], at: usize) -> (r: u128)
    requires
        at + 16 <= s.len(),
    ensures
        r == read_be128(s@, at as int),
{
    let hi = get_be64(s, at);
    let lo = get_be64(s, at + 8);
    ((hi as u128) << 64u128) | (lo as u128)
}

} // verus!
