//! Little-endian layout of fixed-width integers.

use vstd::prelude::*;

verus! {

/// The four bytes of `v`, least significant first.
pub open spec fn u32_le(v: u32) -> Seq<u8> {
    seq![v as u8, (v >> 8u32) as u8, (v >> 16u32) as u8, (v >> 24u32) as u8]
}

/// The eight bytes of `v`, least significant first.
pub open spec fn u64_le(v: u64) -> Seq<u8> {
    seq![
        v as u8,
        (v >> 8u64) as u8,
        (v >> 16u64) as u8,
        (v >> 24u64) as u8,
        (v >> 32u64) as u8,
        (v >> 40u64) as u8,
        (v >> 48u64) as u8,
        (v >> 56u64) as u8,
    ]
}

/// The unsigned 32-bit value whose little-endian bytes are `b[0..4]`.
pub open spec fn u32_from_le(b: Seq<u8>) -> u32 {
    (b[0] as u32) | ((b[1] as u32) << 8u32) | ((b[2] as u32) << 16u32) | ((b[3] as u32) << 24u32)
}

proof fn lemma_u32_bytes_round_trip(v: u32)
    ensures
        ((v as u8) as u32) | (((v >> 8u32) as u8 as u32) << 8u32) | (((v >> 16u32) as u8 as u32)
            << 16u32) | (((v >> 24u32) as u8 as u32) << 24u32) == v,
{
    assert(((v as u8) as u32) | (((v >> 8u32) as u8 as u32) << 8u32) | (((v >> 16u32) as u8 as u32)
        << 16u32) | (((v >> 24u32) as u8 as u32) << 24u32) == v) by (bit_vector);
}

/// Reading back the little-endian bytes of a value gives the value.
pub proof fn lemma_u32_le_round_trip(v: u32)
    ensures
        u32_le(v).len() == 4,
        u32_from_le(u32_le(v)) == v,
{
    lemma_u32_bytes_round_trip(v);
}

/// Appends the little-endian bytes of `v` to `out`.
pub fn push_u32_le(out: &mut Vec<u8>, v: u32)
    ensures
        final(out)@ == old(out)@ + u32_le(v),
{
    out.push(v as u8);
    out.push((v >> 8u32) as u8);
    out.push((v >> 16u32) as u8);
    out.push((v >> 24u32) as u8);
    assert(final(out)@ =~= old(out)@ + u32_le(v));
}

/// Appends the little-endian bytes of `v` to `out`.
pub fn push_u64_le(out: &mut Vec<u8>, v: u64)
    ensures
        final(out)@ == old(out)@ + u64_le(v),
{
    out.push(v as u8);
    out.push((v >> 8u64) as u8);
    out.push((v >> 16u64) as u8);
    out.push((v >> 24u64) as u8);
    out.push((v >> 32u64) as u8);
    out.push((v >> 40u64) as u8);
    out.push((v >> 48u64) as u8);
    out.push((v >> 56u64) as u8);
    assert(final(out)@ =~= old(out)@ + u64_le(v));
}

/// Reads the little-endian unsigned 32-bit value at `b[at..at + 4]`.
pub fn read_u32_le(b: &[u8], at: usize) -> (r: u32)
    requires
        at + 4 <= b@.len(),
    ensures
        r == u32_from_le(b@.subrange(at as int, at + 4)),
{
    (b[at] as u32) | ((b[at + 1] as u32) << 8u32) | ((b[at + 2] as u32) << 16u32) | ((b[at + 3] as u32)
        << 24u32)
}

} // verus!
