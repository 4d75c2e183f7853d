//! Little-endian byte encodings and a bounds-checked reader over a byte slice.

use vstd::prelude::*;

verus! {

/// The two bytes of `x`, least significant first.
pub open spec fn le16(x: u16) -> Seq<u8> {
    seq![(x % 256) as u8, (x / 256) as u8]
}

/// The four bytes of `x`, least significant first.
pub open spec fn le32(x: u32) -> Seq<u8> {
    seq![(x % 256) as u8, (x / 256 % 256) as u8, (x / 65536 % 256) as u8, (x / 16777216) as u8]
}

/// The eight bytes of `x`, least significant first.
pub open spec fn le64(x: u64) -> Seq<u8> {
    le32((x % 4294967296) as u32) + le32((x / 4294967296) as u32)
}

/// The unsigned 16-bit value whose little-endian bytes start at `b[o]`.
pub open spec fn u16_at(b: Seq<u8>, o: int) -> u16 {
    (b[o] + 256 * b[o + 1]) as u16
}

/// The unsigned 32-bit value whose little-endian bytes start at `b[o]`.
pub open spec fn u32_at(b: Seq<u8>, o: int) -> u32 {
    (b[o] + 256 * b[o + 1] + 65536 * b[o + 2] + 16777216 * b[o + 3]) as u32
}

/// The two's-complement 16-bit value whose little-endian bytes start at `b[o]`.
pub open spec fn i16_at(b: Seq<u8>, o: int) -> i16 {
    let u = u16_at(b, o);
    if u < 32768 { u as i16 } else { (u - 65536) as i16 }
}

/// Decoding the encoding of a 16-bit value gives the value back.
pub proof fn lemma_u16_roundtrip(x: u16)
    ensures
        u16_at(le16(x), 0) == x,
{
}

/// Decoding the encoding of a 32-bit value gives the value back.
pub proof fn lemma_u32_roundtrip(x: u32)
    ensures
        u32_at(le32(x), 0) == x,
{
}


/// `s` with the bytes starting at index `off` replaced by `b`.
pub open spec fn splice(s: Seq<u8>, off: int, b: Seq<u8>) -> Seq<u8> {
    s.subrange(0, off) + b + s.subrange(off + b.len(), s.len() as int)
}

/// Writes `x` into `out` at index `off`, least significant byte first.
pub fn put_u16_le(out: &mut Vec<u8>, off: usize, x: u16)
    requires
        off + 2 <= old(out)@.len(),
    ensures
        final(out)@ == splice(old(out)@, off as int, le16(x)),
{
    let _len = out.len();
    out[off] = (x % 256) as u8;
    out[off + 1] = (x / 256) as u8;
    assert(out@ =~= splice(old(out)@, off as int, le16(x)));
}

/// Writes `x` into `out` at index `off`, least significant byte first.
pub fn put_u32_le(out: &mut Vec<u8>, off: usize, x: u32)
    requires
        off + 4 <= old(out)@.len(),
    ensures
        final(out)@ == splice(old(out)@, off as int, le32(x)),
{
    let _len = out.len();
    out[off] = (x % 256) as u8;
    out[off + 1] = (x / 256 % 256) as u8;
    out[off + 2] = (x / 65536 % 256) as u8;
    out[off + 3] = (x / 16777216) as u8;
    assert(out@ =~= splice(old(out)@, off as int, le32(x)));
}

/// Writes `x` into `out` at index `off`, least significant byte first.
pub fn put_u64_le(out: &mut Vec<u8>, off: usize, x: u64)
    requires
        off + 8 <= old(out)@.len(),
    ensures
        final(out)@ == splice(old(out)@, off as int, le64(x)),
{
    let _len = out.len();
    let lo = (x % 4294967296) as u32;
    let hi = (x / 4294967296) as u32;
    put_u32_le(out, off, lo);
    put_u32_le(out, off + 4, hi);
    assert(out@ =~= splice(old(out)@, off as int, le64(x)));
}

/// `n` zero bytes.
pub fn zeros(n: usize) -> (r: Vec<u8>)
    ensures
        r@ == Seq::new(n as nat, |i: int| 0u8),
{
    let mut v: Vec<u8> = Vec::new();
    let mut i: usize = 0;
    while i < n
        invariant
            i <= n,
            v@ == Seq::new(i as nat, |k: int| 0u8),
        decreases n - i,
    {
        v.push(0);
        i = i + 1;
        assert(v@ =~= Seq::new(i as nat, |k: int| 0u8));
    }
    v
}

/// The little-endian 16-bit value at `buf[off..off + 2]`.
pub fn u16_le_at(buf: &[u8], off: usize) -> (v: u16)
    requires
        off + 2 <= buf@.len(),
    ensures
        v == u16_at(buf@, off as int),
{
    buf[off] as u16 + 256 * (buf[off + 1] as u16)
}

/// The little-endian two's-complement 16-bit value at `buf[off..off + 2]`.
pub fn i16_le_at(buf: &[u8], off: usize) -> (v: i16)
    requires
        off + 2 <= buf@.len(),
    ensures
        v == i16_at(buf@, off as int),
{
    let u = u16_le_at(buf, off);
    if u < 32768 {
        u as i16
    } else {
        (u as i32 - 65536) as i16
    }
}

/// The little-endian 32-bit value at `buf[off..off + 4]`.
pub fn u32_le_at(buf: &[u8], off: usize) -> (v: u32)
    requires
        off + 4 <= buf@.len(),
    ensures
        v == u32_at(buf@, off as int),
{
    buf[off] as u32 + 256 * (buf[off + 1] as u32) + 65536 * (buf[off + 2] as u32) + 16777216 * (buf[off + 3] as u32)
}

/// Why a read past the end of the input failed.
#[derive(Debug, PartialEq, Eq, Structural, Clone, Copy)]
pub enum ReadError {
    UnexpectedEof,
}

/// A read position over a byte slice.
pub struct Cursor<'a> {
    pub buf: &'a [u8],
    pub pos: usize,
}

impl<'a> Cursor<'a> {
    /// A cursor at the start of `buf`.
    pub fn new(buf: &'a [u8]) -> (c: Cursor<'a>)
        ensures
            c.buf@ == buf@,
            c.pos == 0,
    {
        Cursor { buf, pos: 0 }
    }
}

/// Reads one byte; fails, leaving the cursor where it was, when none is left.
pub fn read_u8(c: &mut Cursor) -> (r: Result<u8, ReadError>)
    ensures
        final(c).buf@ == old(c).buf@,
        r is Ok <==> old(c).pos + 1 <= old(c).buf@.len(),
        r matches Ok(v) ==> v == old(c).buf@[old(c).pos as int] && final(c).pos == old(c).pos + 1,
        r is Err ==> final(c).pos == old(c).pos,
{
    if c.pos < c.buf.len() {
        let v = c.buf[c.pos];
        c.pos = c.pos + 1;
        Ok(v)
    } else {
        Err(ReadError::UnexpectedEof)
    }
}

/// Reads a little-endian 16-bit value; fails, leaving the cursor where it was,
/// when fewer than two bytes are left.
pub fn read_u16_le(c: &mut Cursor) -> (r: Result<u16, ReadError>)
    ensures
        final(c).buf@ == old(c).buf@,
        r is Ok <==> old(c).pos + 2 <= old(c).buf@.len(),
        r matches Ok(v) ==> v == u16_at(old(c).buf@, old(c).pos as int) && final(c).pos == old(c).pos + 2,
        r is Err ==> final(c).pos == old(c).pos,
{
    if c.buf.len() >= 2 && c.pos <= c.buf.len() - 2 {
        let v = c.buf[c.pos] as u16 + 256 * (c.buf[c.pos + 1] as u16);
        c.pos = c.pos + 2;
        Ok(v)
    } else {
        Err(ReadError::UnexpectedEof)
    }
}

/// Reads a little-endian 32-bit value; fails, leaving the cursor where it was,
/// when fewer than four bytes are left.
pub fn read_u32_le(c: &mut Cursor) -> (r: Result<u32, ReadError>)
    ensures
        final(c).buf@ == old(c).buf@,
        r is Ok <==> old(c).pos + 4 <= old(c).buf@.len(),
        r matches Ok(v) ==> v == u32_at(old(c).buf@, old(c).pos as int) && final(c).pos == old(c).pos + 4,
        r is Err ==> final(c).pos == old(c).pos,
{
    if c.buf.len() >= 4 && c.pos <= c.buf.len() - 4 {
        let p = c.pos;
        let v = c.buf[p] as u32 + 256 * (c.buf[p + 1] as u32) + 65536 * (c.buf[p + 2] as u32)
            + 16777216 * (c.buf[p + 3] as u32);
        c.pos = p + 4;
        Ok(v)
    } else {
        Err(ReadError::UnexpectedEof)
    }
}

/// Reads `n` bytes; fails, leaving the cursor where it was, when fewer are left.
pub fn read_exact(c: &mut Cursor, n: usize) -> (r: Result<Vec<u8>, ReadError>)
    ensures
        final(c).buf@ == old(c).buf@,
        r is Ok <==> old(c).pos + n <= old(c).buf@.len(),
        r matches Ok(v) ==> v@ == old(c).buf@.subrange(old(c).pos as int, old(c).pos + n)
            && final(c).pos == old(c).pos + n,
        r is Err ==> final(c).pos == old(c).pos,
{
    if c.pos <= c.buf.len() && n <= c.buf.len() - c.pos {
        let mut v: Vec<u8> = Vec::new();
        let blen = c.buf.len();
        let mut i: usize = 0;
        while i < n
            invariant
                blen == c.buf@.len(),
                c.pos + n <= c.buf@.len(),
                i <= n,
                v@ == c.buf@.subrange(c.pos as int, c.pos + i),
            decreases n - i,
        {
            v.push(c.buf[c.pos + i]);
            i = i + 1;
            assert(v@ =~= c.buf@.subrange(c.pos as int, c.pos + i));
        }
        c.pos = c.pos + n;
        Ok(v)
    } else {
        Err(ReadError::UnexpectedEof)
    }
}

} // verus!
