//! Little-endian integer layouts shared by every codec.

use vstd::prelude::*;

verus! {

/// Little-endian bytes of a `u16`.
pub open spec fn le16(v: u16) -> Seq<u8> {
    seq![(v % 256) as u8, (v / 256) as u8]
}

/// Little-endian bytes of a `u32`.
pub open spec fn le32(v: u32) -> Seq<u8> {
    seq![(v % 256) as u8, ((v / 256) % 256) as u8, ((v / 65536) % 256) as u8, (v / 16777216) as u8]
}

/// The `u16` whose little-endian bytes are `lo`, `hi`.
pub open spec fn from_le16(lo: u8, hi: u8) -> u16 {
    (lo + 256 * hi) as u16
}

/// The `u32` whose little-endian bytes are `b0` .. `b3`.
pub open spec fn from_le32(b0: u8, b1: u8, b2: u8, b3: u8) -> u32 {
    (b0 + 256 * b1 + 65536 * b2 + 16777216 * b3) as u32
}

/// Reading back the bytes of a `u16` gives the value.
pub proof fn lemma_le16_round_trip(v: u16)
    ensures
        from_le16(le16(v)[0], le16(v)[1]) == v,
        le16(v).len() == 2,
{
}

/// Reading back the bytes of a `u32` gives the value.
pub proof fn lemma_le32_round_trip(v: u32)
    ensures
        from_le32(le32(v)[0], le32(v)[1], le32(v)[2], le32(v)[3]) == v,
        le32(v).len() == 4,
{
}

/// Writing out a decoded `u16` gives the bytes back.
pub proof fn lemma_from_le16_round_trip(lo: u8, hi: u8)
    ensures
        le16(from_le16(lo, hi)) == seq![lo, hi],
{
    assert(le16(from_le16(lo, hi)) =~= seq![lo, hi]);
}

/// Low byte of a `u16`.
pub fn lo_byte(v: u16) -> (b: u8)
    ensures
        b == le16(v)[0],
{
    (v % 256) as u8
}

/// High byte of a `u16`.
pub fn hi_byte(v: u16) -> (b: u8)
    ensures
        b == le16(v)[1],
{
    (v / 256) as u8
}

/// Decode a little-endian `u16`.
pub fn u16_from_le(lo: u8, hi: u8) -> (v: u16)
    ensures
        v == from_le16(lo, hi),
{
    lo as u16 + 256 * (hi as u16)
}

/// Decode a little-endian `u32`.
pub fn u32_from_le(b0: u8, b1: u8, b2: u8, b3: u8) -> (v: u32)
    ensures
        v == from_le32(b0, b1, b2, b3),
{
    b0 as u32 + 256 * (b1 as u32) + 65536 * (b2 as u32) + 16777216 * (b3 as u32)
}

/// Write the little-endian bytes of `v` at `at`.
pub fn put_u16(buf: &mut [u8], at: usize, v: u16)
    requires
        at + 2 <= old(buf)@.len(),
    ensures
        final(buf)@ == old(buf)@.take(at as int) + le16(v) + old(buf)@.skip(at + 2),
{
    buf[at] = (v % 256) as u8;
    buf[at + 1] = (v / 256) as u8;
    assert(final(buf)@ =~= old(buf)@.take(at as int) + le16(v) + old(buf)@.skip(at + 2));
}

/// Write the little-endian bytes of `v` at `at`.
pub fn put_u32(buf: &mut [u8], at: usize, v: u32)
    requires
        at + 4 <= old(buf)@.len(),
    ensures
        final(buf)@ == old(buf)@.take(at as int) + le32(v) + old(buf)@.skip(at + 4),
{
    buf[at] = (v % 256) as u8;
    buf[at + 1] = ((v / 256) % 256) as u8;
    buf[at + 2] = ((v / 65536) % 256) as u8;
    buf[at + 3] = (v / 16777216) as u8;
    assert(final(buf)@ =~= old(buf)@.take(at as int) + le32(v) + old(buf)@.skip(at + 4));
}

/// Copy `src` into `buf` at `at`.
pub fn put_bytes(buf: &mut [u8], at: usize, src: &[u8])
    requires
        at + src@.len() <= old(buf)@.len(),
    ensures
        final(buf)@ == old(buf)@.take(at as int) + src@ + old(buf)@.skip(at + src@.len()),
{
    let mut i: usize = 0;
    while i < src.len()
        invariant
            i <= src@.len(),
            at + src@.len() <= old(buf)@.len(),
            buf@.len() == old(buf)@.len(),
            at + src@.len() <= buf.len(),
            buf@ == old(buf)@.take(at as int) + src@.take(i as int) + old(buf)@.skip(at + i),
        decreases src@.len() - i,
    {
        buf[at + i] = src[i];
        i = i + 1;
        assert(buf@ =~= old(buf)@.take(at as int) + src@.take(i as int) + old(buf)@.skip(at + i));
    }
    assert(src@.take(i as int) =~= src@);
}

/// Three six-bit fields side by side: `d0 | d1 << 6 | d2 << 12` is
/// `d0 + d1 * 64 + d2 * 4096`, the form in which the optoNCDT parser's
/// history law gives a decoded value.
pub proof fn lemma_six_bit_fields(d0: u32, d1: u32, d2: u32)
    requires
        d0 < 64,
        d1 < 64,
        d2 < 64,
    ensures
        d0 | (d1 << 6u32) | (d2 << 12u32) == d0 + d1 * 64 + d2 * 4096,
{
    assert(d0 | (d1 << 6u32) | (d2 << 12u32) == d0 + d1 * 64 + d2 * 4096) by (bit_vector)
        requires
            d0 < 64,
            d1 < 64,
            d2 < 64,
    ;
}

} // verus!
