//! Byte regions the codecs wrap, and the big-endian primitives on them.
//!
//! A codec never owns more than its caller handed it and never resizes
//! it. [`ByteView`] is what a codec needs to read a region, [`ByteViewMut`]
//! what it needs to write one. Multi-byte integers travel most
//! significant byte first.

use byteorder::ByteOrder;
use byteorder::NetworkEndian;
use vstd::prelude::*;

verus! {

/// A contiguous region of bytes that can be read.
pub trait ByteView {
    /// The bytes of the region.
    spec fn bytes(&self) -> Seq<u8>;

    /// The region as a slice.
    fn as_bytes(&self) -> (s: &[u8])
        ensures
            s@ == self.bytes(),
    ;
}

/// A contiguous region of bytes that can be written in place.
pub trait ByteViewMut: ByteView {
    /// The region as a mutable slice; what is written through it is
    /// what the region holds afterwards.
    fn as_bytes_mut(&mut self) -> (s: &mut [u8])
        ensures
            s@ == old(self).bytes(),
            final(self).bytes() == final(s)@,
    ;
}

impl<'a> ByteView for &'a [u8] {
    open spec fn bytes(&self) -> Seq<u8> {
        (**self)@
    }

    fn as_bytes(&self) -> (s: &[u8]) {
        *self
    }
}

impl<'a> ByteView for &'a mut [u8] {
    open spec fn bytes(&self) -> Seq<u8> {
        (**self)@
    }

    fn as_bytes(&self) -> (s: &[u8]) {
        &**self
    }
}

impl<'a> ByteViewMut for &'a mut [u8] {
    fn as_bytes_mut(&mut self) -> (s: &mut [u8]) {
        &mut **self
    }
}

impl<const N: usize> ByteView for [u8; N] {
    open spec fn bytes(&self) -> Seq<u8> {
        self@
    }

    fn as_bytes(&self) -> (s: &[u8]) {
        self.as_slice()
    }
}

impl<const N: usize> ByteViewMut for [u8; N] {
    fn as_bytes_mut(&mut self) -> (s: &mut [u8]) {
        self
    }
}

impl ByteView for Vec<u8> {
    open spec fn bytes(&self) -> Seq<u8> {
        self@
    }

    fn as_bytes(&self) -> (s: &[u8]) {
        self.as_slice()
    }
}

impl ByteViewMut for Vec<u8> {
    fn as_bytes_mut(&mut self) -> (s: &mut [u8]) {
        self.as_mut_slice()
    }
}

/// The value of two bytes read most significant byte first.
pub open spec fn be16(s: Seq<u8>) -> int
    recommends
        s.len() >= 2,
{
    s[0] as int * 0x100 + s[1] as int
}

/// The value of three bytes read most significant byte first.
pub open spec fn be24(s: Seq<u8>) -> int
    recommends
        s.len() >= 3,
{
    s[0] as int * 0x1_0000 + s[1] as int * 0x100 + s[2] as int
}

/// The value of four bytes read most significant byte first.
pub open spec fn be32(s: Seq<u8>) -> int
    recommends
        s.len() >= 4,
{
    s[0] as int * 0x100_0000 + s[1] as int * 0x1_0000 + s[2] as int * 0x100 + s[3] as int
}

/// The two bytes of a value, most significant byte first.
pub open spec fn be16_bytes(n: u16) -> Seq<u8> {
    seq![(n as int / 0x100) as u8, (n as int % 0x100) as u8]
}

/// The low twenty-four bits of a value as three bytes, most significant
/// byte first.
pub open spec fn be24_bytes(n: u32) -> Seq<u8> {
    seq![
        (n as int / 0x1_0000 % 0x100) as u8,
        (n as int / 0x100 % 0x100) as u8,
        (n as int % 0x100) as u8,
    ]
}

/// The four bytes of a value, most significant byte first.
pub open spec fn be32_bytes(n: u32) -> Seq<u8> {
    seq![
        (n as int / 0x100_0000) as u8,
        (n as int / 0x1_0000 % 0x100) as u8,
        (n as int / 0x100 % 0x100) as u8,
        (n as int % 0x100) as u8,
    ]
}

/// A region with `bytes` written over it from offset `at` on.
pub open spec fn splice(s: Seq<u8>, at: int, bytes: Seq<u8>) -> Seq<u8>
    recommends
        0 <= at,
        at + bytes.len() <= s.len(),
{
    s.subrange(0, at) + bytes + s.subrange(at + bytes.len(), s.len() as int)
}

/// What a spliced region holds, byte by byte: the new bytes inside the
/// range that was written, the old ones outside it.
pub proof fn lemma_splice(s: Seq<u8>, at: int, bytes: Seq<u8>)
    requires
        0 <= at,
        at + bytes.len() <= s.len(),
    ensures
        splice(s, at, bytes).len() == s.len(),
        splice(s, at, bytes).subrange(at, at + bytes.len()) == bytes,
        forall|i: int|
            0 <= i < s.len() ==> #[trigger] splice(s, at, bytes)[i] == (if at <= i < at
                + bytes.len() {
                bytes[i - at]
            } else {
                s[i]
            }),
{
    assert(splice(s, at, bytes).subrange(at, at + bytes.len()) =~= bytes);
}

/// Reading back the bytes of a sixteen-bit value gives the value.
pub proof fn lemma_be16_round_trip(n: u16)
    ensures
        be16(be16_bytes(n)) == n,
        be16_bytes(n).len() == 2,
{
}

/// Reading back the bytes of a value below 2^24 gives the value; of any
/// value, its low twenty-four bits.
pub proof fn lemma_be24_round_trip(n: u32)
    ensures
        be24(be24_bytes(n)) == n as int % 0x100_0000,
        be24_bytes(n).len() == 3,
{
}

/// Reading back the bytes of a thirty-two-bit value gives the value.
pub proof fn lemma_be32_round_trip(n: u32)
    ensures
        be32(be32_bytes(n)) == n,
        be32_bytes(n).len() == 4,
{
}

/// Calls `byteorder::BigEndian::read_u16` (as `NetworkEndian`): the
/// result is the first two bytes of `buf`, the first one weighing 256.
#[verifier::external_body]
pub(crate) fn read_u16_be(buf: &[u8]) -> (r: u16)
    requires
        buf@.len() >= 2,
    ensures
        r as int == be16(buf@),
{
    NetworkEndian::read_u16(buf)
}

/// Calls `byteorder::BigEndian::read_u32` (as `NetworkEndian`): the
/// result is the first four bytes of `buf`, most significant first.
#[verifier::external_body]
pub(crate) fn read_u32_be(buf: &[u8]) -> (r: u32)
    requires
        buf@.len() >= 4,
    ensures
        r as int == be32(buf@),
{
    NetworkEndian::read_u32(buf)
}

/// Calls `byteorder::BigEndian::write_u16` (as `NetworkEndian`): the
/// first two bytes of `buf` become those of `n`, most significant
/// first, and the other bytes stay.
#[verifier::external_body]
pub(crate) fn write_u16_be(buf: &mut [u8], n: u16)
    requires
        old(buf)@.len() >= 2,
    ensures
        final(buf)@ == splice(old(buf)@, 0, be16_bytes(n)),
{
    NetworkEndian::write_u16(buf, n)
}

/// Calls `byteorder::BigEndian::write_u32` (as `NetworkEndian`): the
/// first four bytes of `buf` become those of `n`, most significant
/// first, and the other bytes stay.
#[verifier::external_body]
pub(crate) fn write_u32_be(buf: &mut [u8], n: u32)
    requires
        old(buf)@.len() >= 4,
    ensures
        final(buf)@ == splice(old(buf)@, 0, be32_bytes(n)),
{
    NetworkEndian::write_u32(buf, n)
}

/// Indexes a mutable slice by a range (`IndexMut<Range<usize>>` of
/// std): the result is the part of `buf` from `start` up to `end`, and
/// what is written through it is what `buf` holds there afterwards;
/// the bytes outside the range stay.
#[verifier::external_body]
pub(crate) fn window_mut(buf: &mut [u8], start: usize, end: usize) -> (w: &mut [u8])
    requires
        start <= end <= old(buf)@.len(),
    ensures
        w@ == old(buf)@.subrange(start as int, end as int),
        final(w)@.len() == w@.len(),
        final(buf)@ == splice(old(buf)@, start as int, final(w)@),
{
    &mut buf[start..end]
}

/// Reads the big-endian sixteen-bit value at offset `at`.
pub(crate) fn get_u16(buf: &[u8], at: usize) -> (r: u16)
    requires
        at + 2 <= buf@.len(),
    ensures
        r as int == be16(buf@.subrange(at as int, at + 2)),
{
    assert(buf@.len() == buf.len());
    read_u16_be(&buf[at..at + 2])
}

/// Reads the big-endian twenty-four-bit value at offset `at`.
pub(crate) fn get_u24(buf: &[u8], at: usize) -> (r: u32)
    requires
        at + 3 <= buf@.len(),
    ensures
        r as int == be24(buf@.subrange(at as int, at + 3)),
{
    let b0: u32 = buf[at] as u32;
    let b1: u32 = buf[at + 1] as u32;
    let b2: u32 = buf[at + 2] as u32;
    let r: u32 = b0 * 0x1_0000 + b1 * 0x100 + b2;
    r
}

/// Reads the big-endian thirty-two-bit value at offset `at`.
pub(crate) fn get_u32(buf: &[u8], at: usize) -> (r: u32)
    requires
        at + 4 <= buf@.len(),
    ensures
        r as int == be32(buf@.subrange(at as int, at + 4)),
{
    assert(buf@.len() == buf.len());
    read_u32_be(&buf[at..at + 4])
}

/// Writes a sixteen-bit value big-endian at offset `at`.
pub(crate) fn put_u16(buf: &mut [u8], at: usize, n: u16)
    requires
        at + 2 <= old(buf)@.len(),
    ensures
        final(buf)@ == splice(old(buf)@, at as int, be16_bytes(n)),
{
    assert(buf@.len() == buf.len());
    let w = window_mut(buf, at, at + 2);
    write_u16_be(w, n);
    proof {
        assert(w@ =~= be16_bytes(n));
    }
}

/// Writes the low twenty-four bits of a value big-endian at offset `at`.
pub(crate) fn put_u24(buf: &mut [u8], at: usize, n: u32)
    requires
        at + 3 <= old(buf)@.len(),
    ensures
        final(buf)@ == splice(old(buf)@, at as int, be24_bytes(n)),
{
    buf[at] = (n / 0x1_0000 % 0x100) as u8;
    buf[at + 1] = (n / 0x100 % 0x100) as u8;
    buf[at + 2] = (n % 0x100) as u8;
    proof {
        assert(buf@ =~= splice(old(buf)@, at as int, be24_bytes(n)));
    }
}

/// Writes a thirty-two-bit value big-endian at offset `at`.
pub(crate) fn put_u32(buf: &mut [u8], at: usize, n: u32)
    requires
        at + 4 <= old(buf)@.len(),
    ensures
        final(buf)@ == splice(old(buf)@, at as int, be32_bytes(n)),
{
    assert(buf@.len() == buf.len());
    let w = window_mut(buf, at, at + 4);
    write_u32_be(w, n);
    proof {
        assert(w@ =~= be32_bytes(n));
    }
}

/// Copies `src` over `buf` from offset `at` on.
pub(crate) fn put_bytes(buf: &mut [u8], at: usize, src: &[u8])
    requires
        at + src@.len() <= old(buf)@.len(),
    ensures
        final(buf)@ == splice(old(buf)@, at as int, src@),
{
    assert(buf@.len() == buf.len());
    let n: usize = src.len();
    let mut i: usize = 0;
    while i < n
        invariant
            n == src@.len(),
            i <= n,
            at + n <= buf@.len(),
            buf@.len() == old(buf)@.len(),
            buf@.len() <= usize::MAX,
            buf@ == splice(old(buf)@, at as int, src@.subrange(0, i as int)),
        decreases n - i,
    {
        buf[at + i] = src[i];
        i = i + 1;
        proof {
            assert(buf@ =~= splice(old(buf)@, at as int, src@.subrange(0, i as int)));
        }
    }
    proof {
        assert(src@.subrange(0, n as int) =~= src@);
    }
}

} // verus!
