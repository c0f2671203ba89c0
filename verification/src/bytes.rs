//! Fixed-width integers in byte sequences, in both byte orders, and a few operations on
//! byte vectors that the codecs share.

use vstd::prelude::*;

verus! {

/// The two bytes of `v`, least significant first.
pub open spec fn le16(v: u16) -> Seq<u8> {
    seq![(v % 256) as u8, (v / 256) as u8]
}

/// The four bytes of `v`, least significant first.
pub open spec fn le32(v: u32) -> Seq<u8> {
    seq![(v % 256) as u8, (v / 256 % 256) as u8, (v / 65536 % 256) as u8, (v / 16777216) as u8]
}

/// The eight bytes of `v`, least significant first.
pub open spec fn le64(v: u64) -> Seq<u8> {
    le32((v % 0x1_0000_0000) as u32) + le32((v / 0x1_0000_0000) as u32)
}

/// The two bytes of `v`, most significant first.
pub open spec fn be16(v: u16) -> Seq<u8> {
    seq![(v / 256) as u8, (v % 256) as u8]
}

/// The four bytes of `v`, most significant first.
pub open spec fn be32(v: u32) -> Seq<u8> {
    seq![(v / 16777216) as u8, (v / 65536 % 256) as u8, (v / 256 % 256) as u8, (v % 256) as u8]
}

/// The eight bytes of `v`, most significant first.
pub open spec fn be64(v: u64) -> Seq<u8> {
    be32((v / 0x1_0000_0000) as u32) + be32((v % 0x1_0000_0000) as u32)
}

/// The integer whose little-endian bytes start at `off`.
pub open spec fn le16_at(s: Seq<u8>, off: int) -> u16 {
    (s[off] + 256 * s[off + 1]) as u16
}

/// The integer whose little-endian bytes start at `off`.
pub open spec fn le32_at(s: Seq<u8>, off: int) -> u32 {
    (s[off] + 256 * s[off + 1] + 65536 * s[off + 2] + 16777216 * s[off + 3]) as u32
}

/// The integer whose little-endian bytes start at `off`.
pub open spec fn le64_at(s: Seq<u8>, off: int) -> u64 {
    (le32_at(s, off) + 0x1_0000_0000 * le32_at(s, off + 4)) as u64
}

/// The integer whose big-endian bytes start at `off`.
pub open spec fn be16_at(s: Seq<u8>, off: int) -> u16 {
    (256 * s[off] + s[off + 1]) as u16
}

/// The integer whose big-endian bytes start at `off`.
pub open spec fn be32_at(s: Seq<u8>, off: int) -> u32 {
    (16777216 * s[off] + 65536 * s[off + 1] + 256 * s[off + 2] + s[off + 3]) as u32
}

/// The integer whose big-endian bytes start at `off`.
pub open spec fn be64_at(s: Seq<u8>, off: int) -> u64 {
    (0x1_0000_0000 * be32_at(s, off) + be32_at(s, off + 4)) as u64
}

/// The digits of a `u32` in base 256 make it up.
proof fn lemma_digits(v: u32)
    ensures
        v == v % 256 + 256 * (v / 256 % 256) + 65536 * (v / 65536 % 256) + 16777216 * (v / 16777216),
        v / 16777216 < 256,
{
    assert(v == v % 256 + 256 * (v / 256 % 256) + 65536 * (v / 65536 % 256) + 16777216 * (v
        / 16777216)) by (bit_vector);
    assert(v / 16777216 < 256) by (bit_vector);
}

/// A `u16` written little-endian at `off` is read back from there.
pub proof fn law_le16_reads_back(s: Seq<u8>, off: int, v: u16)
    requires
        0 <= off,
        off + 2 <= s.len(),
        s.subrange(off, off + 2) == le16(v),
    ensures
        le16_at(s, off) == v,
{
    let t = s.subrange(off, off + 2);
    assert(s[off] == t[0] && s[off + 1] == t[1]);
}

/// A `u32` written little-endian at `off` is read back from there.
pub proof fn law_le32_reads_back(s: Seq<u8>, off: int, v: u32)
    requires
        0 <= off,
        off + 4 <= s.len(),
        s.subrange(off, off + 4) == le32(v),
    ensures
        le32_at(s, off) == v,
{
    let t = s.subrange(off, off + 4);
    assert(s[off] == t[0] && s[off + 1] == t[1] && s[off + 2] == t[2] && s[off + 3] == t[3]);
    lemma_digits(v);
}

/// A `u64` written little-endian at `off` is read back from there.
pub proof fn law_le64_reads_back(s: Seq<u8>, off: int, v: u64)
    requires
        0 <= off,
        off + 8 <= s.len(),
        s.subrange(off, off + 8) == le64(v),
    ensures
        le64_at(s, off) == v,
{
    let low = (v % 0x1_0000_0000) as u32;
    let high = (v / 0x1_0000_0000) as u32;
    let t = s.subrange(off, off + 8);
    assert(s.subrange(off, off + 4) =~= t.subrange(0, 4));
    assert(t.subrange(0, 4) =~= le32(low));
    assert(s.subrange(off + 4, off + 8) =~= t.subrange(4, 8));
    assert(t.subrange(4, 8) =~= le32(high));
    law_le32_reads_back(s, off, low);
    law_le32_reads_back(s, off + 4, high);
}

/// A `u16` written big-endian at `off` is read back from there.
pub proof fn law_be16_reads_back(s: Seq<u8>, off: int, v: u16)
    requires
        0 <= off,
        off + 2 <= s.len(),
        s.subrange(off, off + 2) == be16(v),
    ensures
        be16_at(s, off) == v,
{
    let t = s.subrange(off, off + 2);
    assert(s[off] == t[0] && s[off + 1] == t[1]);
}

/// A `u32` written big-endian at `off` is read back from there.
pub proof fn law_be32_reads_back(s: Seq<u8>, off: int, v: u32)
    requires
        0 <= off,
        off + 4 <= s.len(),
        s.subrange(off, off + 4) == be32(v),
    ensures
        be32_at(s, off) == v,
{
    let t = s.subrange(off, off + 4);
    assert(s[off] == t[0] && s[off + 1] == t[1] && s[off + 2] == t[2] && s[off + 3] == t[3]);
    lemma_digits(v);
}

/// A `u64` written big-endian at `off` is read back from there.
pub proof fn law_be64_reads_back(s: Seq<u8>, off: int, v: u64)
    requires
        0 <= off,
        off + 8 <= s.len(),
        s.subrange(off, off + 8) == be64(v),
    ensures
        be64_at(s, off) == v,
{
    let low = (v % 0x1_0000_0000) as u32;
    let high = (v / 0x1_0000_0000) as u32;
    let t = s.subrange(off, off + 8);
    assert(s.subrange(off, off + 4) =~= t.subrange(0, 4));
    assert(t.subrange(0, 4) =~= be32(high));
    assert(s.subrange(off + 4, off + 8) =~= t.subrange(4, 8));
    assert(t.subrange(4, 8) =~= be32(low));
    law_be32_reads_back(s, off, high);
    law_be32_reads_back(s, off + 4, low);
}

/// Reads a little-endian `u16`.
pub fn rd_u16(s: &[u8], off: usize) -> (v: u16)
    requires
        off + 2 <= s@.len(),
    ensures
        v == le16_at(s@, off as int),
{
    s[off] as u16 + 256 * (s[off + 1] as u16)
}

/// Reads a little-endian `u32`.
pub fn rd_u32(s: &[u8], off: usize) -> (v: u32)
    requires
        off + 4 <= s@.len(),
    ensures
        v == le32_at(s@, off as int),
{
    s[off] as u32 + 256 * (s[off + 1] as u32) + 65536 * (s[off + 2] as u32) + 16777216 * (s[off + 3] as u32)
}

/// Reads a little-endian `u64`.
pub fn rd_u64(s: &[u8], off: usize) -> (v: u64)
    requires
        off + 8 <= s@.len(),
    ensures
        v == le64_at(s@, off as int),
{
    assert(off + 8 <= s.len());
    rd_u32(s, off) as u64 + 0x1_0000_0000 * (rd_u32(s, off + 4) as u64)
}

/// Reads a big-endian `u16`.
pub fn rd_be16(s: &[u8], off: usize) -> (v: u16)
    requires
        off + 2 <= s@.len(),
    ensures
        v == be16_at(s@, off as int),
{
    256 * (s[off] as u16) + s[off + 1] as u16
}

/// Reads a big-endian `u32`.
pub fn rd_be32(s: &[u8], off: usize) -> (v: u32)
    requires
        off + 4 <= s@.len(),
    ensures
        v == be32_at(s@, off as int),
{
    16777216 * (s[off] as u32) + 65536 * (s[off + 1] as u32) + 256 * (s[off + 2] as u32) + s[off
        + 3] as u32
}

/// Reads a big-endian `u64`.
pub fn rd_be64(s: &[u8], off: usize) -> (v: u64)
    requires
        off + 8 <= s@.len(),
    ensures
        v == be64_at(s@, off as int),
{
    assert(off + 8 <= s.len());
    0x1_0000_0000 * (rd_be32(s, off) as u64) + rd_be32(s, off + 4) as u64
}

/// Appends `v` little-endian.
pub fn put_le16(out: &mut Vec<u8>, v: u16)
    ensures
        final(out)@ == old(out)@ + le16(v),
{
    out.push((v % 256) as u8);
    out.push((v / 256) as u8);
    assert(out@ =~= old(out)@ + le16(v));
}

/// Appends `v` little-endian.
pub fn put_le32(out: &mut Vec<u8>, v: u32)
    ensures
        final(out)@ == old(out)@ + le32(v),
{
    out.push((v % 256) as u8);
    out.push((v / 256 % 256) as u8);
    out.push((v / 65536 % 256) as u8);
    out.push((v / 16777216) as u8);
    assert(out@ =~= old(out)@ + le32(v));
}

/// Appends `v` little-endian.
pub fn put_le64(out: &mut Vec<u8>, v: u64)
    ensures
        final(out)@ == old(out)@ + le64(v),
{
    put_le32(out, (v % 0x1_0000_0000) as u32);
    put_le32(out, (v / 0x1_0000_0000) as u32);
    assert(out@ =~= old(out)@ + le64(v));
}

/// Appends `v` big-endian.
pub fn put_be16(out: &mut Vec<u8>, v: u16)
    ensures
        final(out)@ == old(out)@ + be16(v),
{
    out.push((v / 256) as u8);
    out.push((v % 256) as u8);
    assert(out@ =~= old(out)@ + be16(v));
}

/// Appends `v` big-endian.
pub fn put_be32(out: &mut Vec<u8>, v: u32)
    ensures
        final(out)@ == old(out)@ + be32(v),
{
    out.push((v / 16777216) as u8);
    out.push((v / 65536 % 256) as u8);
    out.push((v / 256 % 256) as u8);
    out.push((v % 256) as u8);
    assert(out@ =~= old(out)@ + be32(v));
}

/// Appends `v` big-endian.
pub fn put_be64(out: &mut Vec<u8>, v: u64)
    ensures
        final(out)@ == old(out)@ + be64(v),
{
    put_be32(out, (v / 0x1_0000_0000) as u32);
    put_be32(out, (v % 0x1_0000_0000) as u32);
    assert(out@ =~= old(out)@ + be64(v));
}

/// Appends all of `s`.
pub fn put_slice(out: &mut Vec<u8>, s: &[u8])
    ensures
        final(out)@ == old(out)@ + s@,
{
    out.extend_from_slice(s);
    assert(out@ =~= old(out)@ + s@);
}

/// Whether two byte strings are the same.
pub fn same_bytes(a: &[u8], b: &[u8]) -> (same: bool)
    ensures
        same == (a@ == b@),
{
    if a.len() != b.len() {
        return false;
    }
    let mut i: usize = 0;
    while i < a.len()
        invariant
            i <= a@.len(),
            a@.len() == b@.len(),
            forall|j: int| 0 <= j < i ==> a@[j] == b@[j],
        decreases a@.len() - i,
    {
        if a[i] != b[i] {
            return false;
        }
        i = i + 1;
    }
    assert(a@ =~= b@);
    true
}

/// Whether `s` is UTF-8 text. Calls `core::str::from_utf8`, which is believed to accept
/// exactly the well-formed UTF-8 byte sequences.
#[verifier::external_body]
pub(crate) fn is_utf8(s: &[u8]) -> (valid: bool)
    ensures
        valid == vstd::utf8::valid_utf8(s@),
{
    core::str::from_utf8(s).is_ok()
}

} // verus!
