//! Little-endian byte layout and writing records into byte buffers.
use vstd::prelude::*;

verus! {

/// Low byte of a 16-bit value.
pub open spec fn lo_byte(v: u16) -> u8 {
    (v % 256) as u8
}

/// High byte of a 16-bit value.
pub open spec fn hi_byte(v: u16) -> u8 {
    (v / 256) as u8
}

/// Little-endian encoding of a 16-bit value.
pub open spec fn le16(v: u16) -> Seq<u8> {
    seq![lo_byte(v), hi_byte(v)]
}

/// Low half of a 32-bit value.
pub open spec fn lo_half(v: u32) -> u16 {
    (v % 0x1_0000) as u16
}

/// High half of a 32-bit value.
pub open spec fn hi_half(v: u32) -> u16 {
    (v / 0x1_0000) as u16
}

/// Little-endian encoding of a 32-bit value.
pub open spec fn le32(v: u32) -> Seq<u8> {
    le16(lo_half(v)) + le16(hi_half(v))
}

/// Low byte of `v`.
pub fn u16_lo(v: u16) -> (r: u8)
    ensures
        r == lo_byte(v),
{
    (v % 256) as u8
}

/// High byte of `v`.
pub fn u16_hi(v: u16) -> (r: u8)
    ensures
        r == hi_byte(v),
{
    (v / 256) as u8
}

/// Low 16 bits of `v`.
pub fn u32_lo(v: u32) -> (r: u16)
    ensures
        r == lo_half(v),
{
    (v % 0x1_0000) as u16
}

/// High 16 bits of `v`.
pub fn u32_hi(v: u32) -> (r: u16)
    ensures
        r == hi_half(v),
{
    (v / 0x1_0000) as u16
}

/// `s` with `rec` laid over it from position `off` on.
pub open spec fn written(s: Seq<u8>, off: int, rec: Seq<u8>) -> Seq<u8> {
    s.subrange(0, off) + rec + s.subrange(off + rec.len(), s.len() as int)
}

/// Laying `x` and then `y` right after it is laying `x + y`.
pub proof fn lemma_written_then_written(s: Seq<u8>, off: int, x: Seq<u8>, y: Seq<u8>)
    requires
        0 <= off,
        off + x.len() + y.len() <= s.len(),
    ensures
        written(written(s, off, x), off + x.len(), y) == written(s, off, x + y),
{
    assert(written(written(s, off, x), off + x.len(), y) =~= written(s, off, x + y));
}

/// Stores `v` little-endian at `at`.
pub(crate) fn put_le16(buf: &mut [u8], at: usize, v: u16)
    requires
        at + 2 <= old(buf)@.len(),
    ensures
        final(buf)@ == written(old(buf)@, at as int, le16(v)),
{
    buf[at] = u16_lo(v);
    buf[at + 1] = u16_hi(v);
    assert(buf@ =~= written(old(buf)@, at as int, le16(v)));
}

/// Copies `src` into `buf` at `at`.
pub(crate) fn put_bytes(buf: &mut [u8], at: usize, src: &[u8])
    requires
        at + src@.len() <= old(buf)@.len(),
    ensures
        final(buf)@ == written(old(buf)@, at as int, src@),
{
    let n = src.len();
    let len = buf.len();
    let mut i: usize = 0;
    while i < n
        invariant
            n == src@.len(),
            len == old(buf)@.len(),
            at + n <= old(buf)@.len(),
            i <= n,
            buf@ == written(old(buf)@, at as int, src@.subrange(0, i as int)),
        decreases n - i,
    {
        buf[at + i] = src[i];
        assert(buf@ =~= written(old(buf)@, at as int, src@.subrange(0, i + 1)));
        i = i + 1;
    }
    assert(src@.subrange(0, n as int) =~= src@);
}

} // verus!
