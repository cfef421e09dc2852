//! Little-endian integer fields inside byte buffers.
//!
//! The ring buffer carries `repr(C)` structs in the byte order of the
//! little-endian targets the probes run on; these helpers read and write
//! such fields with exact specifications.

use vstd::prelude::*;

verus! {

/// The `u32` stored little-endian at `s[off..off + 4]`.
pub open spec fn le_u32(s: Seq<u8>, off: int) -> u32 {
    (s[off] as int + s[off + 1] as int * 0x100 + s[off + 2] as int * 0x10000 + s[off + 3] as int
        * 0x1000000) as u32
}

/// The `u64` stored little-endian at `s[off..off + 8]`.
pub open spec fn le_u64(s: Seq<u8>, off: int) -> u64 {
    (le_u32(s, off) as int + le_u32(s, off + 4) as int * 0x1_0000_0000) as u64
}

/// The `i64` whose two's complement bits are stored at `s[off..off + 8]`.
pub open spec fn le_i64(s: Seq<u8>, off: int) -> i64 {
    le_u64(s, off) as i64
}

/// The four little-endian bytes of `x`.
#[verifier::opaque]
pub open spec fn u32_bytes(x: u32) -> Seq<u8> {
    seq![
        (x % 0x100) as u8,
        ((x / 0x100) % 0x100) as u8,
        ((x / 0x10000) % 0x100) as u8,
        (x / 0x1000000) as u8,
    ]
}

/// The eight little-endian bytes of `x`.
#[verifier::opaque]
pub open spec fn u64_bytes(x: u64) -> Seq<u8> {
    u32_bytes((x % 0x1_0000_0000) as u32) + u32_bytes((x / 0x1_0000_0000) as u32)
}

/// The encodings have their fixed widths.
pub broadcast proof fn lemma_u32_bytes_len(x: u32)
    ensures
        #[trigger] u32_bytes(x).len() == 4,
{
    reveal(u32_bytes);
}

/// The encodings have their fixed widths.
pub broadcast proof fn lemma_u64_bytes_len(x: u64)
    ensures
        #[trigger] u64_bytes(x).len() == 8,
{
    reveal(u64_bytes);
    lemma_u32_bytes_len((x % 0x1_0000_0000) as u32);
    lemma_u32_bytes_len((x / 0x1_0000_0000) as u32);
}

/// Reads the little-endian `u32` at `data[off..off + 4]`.
pub fn read_u32(data: &[u8], off: usize) -> (r: u32)
    requires
        off + 4 <= data@.len(),
    ensures
        r == le_u32(data@, off as int),
{
    let b0 = data[off] as u32;
    let b1 = data[off + 1] as u32;
    let b2 = data[off + 2] as u32;
    let b3 = data[off + 3] as u32;
    b0 + b1 * 0x100 + b2 * 0x10000 + b3 * 0x1000000
}

/// Reads the little-endian `u64` at `data[off..off + 8]`.
pub fn read_u64(data: &[u8], off: usize) -> (r: u64)
    requires
        off + 8 <= data@.len(),
    ensures
        r == le_u64(data@, off as int),
{
    let _n = data.len();
    let lo = read_u32(data, off) as u64;
    let hi = read_u32(data, off + 4) as u64;
    lo + hi * 0x1_0000_0000
}

/// Reads the little-endian `i64` at `data[off..off + 8]`.
pub fn read_i64(data: &[u8], off: usize) -> (r: i64)
    requires
        off + 8 <= data@.len(),
    ensures
        r == le_i64(data@, off as int),
{
    read_u64(data, off) as i64
}

/// Appends the little-endian bytes of `x`.
pub fn write_u32(out: &mut Vec<u8>, x: u32)
    ensures
        final(out)@ == old(out)@ + u32_bytes(x),
{
    out.push((x % 0x100) as u8);
    out.push(((x / 0x100) % 0x100) as u8);
    out.push(((x / 0x10000) % 0x100) as u8);
    out.push((x / 0x1000000) as u8);
    reveal(u32_bytes);
    assert(final(out)@ =~= old(out)@ + u32_bytes(x));
}

/// Appends the little-endian bytes of `x`.
pub fn write_u64(out: &mut Vec<u8>, x: u64)
    ensures
        final(out)@ == old(out)@ + u64_bytes(x),
{
    write_u32(out, (x % 0x1_0000_0000) as u32);
    write_u32(out, (x / 0x1_0000_0000) as u32);
    reveal(u64_bytes);
    assert(final(out)@ =~= old(out)@ + u64_bytes(x));
}

/// Appends the bytes of `src`.
pub fn write_bytes(out: &mut Vec<u8>, src: &[u8])
    ensures
        final(out)@ == old(out)@ + src@,
{
    let ghost start = out@;
    let mut i: usize = 0;
    while i < src.len()
        invariant
            i <= src@.len(),
            out@ == start + src@.take(i as int),
        decreases src.len() - i,
    {
        out.push(src[i]);
        assert(src@.take(i + 1) =~= src@.take(i as int).push(src@[i as int]));
        i = i + 1;
    }
    assert(src@.take(src@.len() as int) =~= src@);
}

/// Reading back the four bytes written for `x` gives `x`.
pub proof fn lemma_u32_roundtrip(x: u32)
    ensures
        le_u32(u32_bytes(x), 0) == x,
{
    reveal(u32_bytes);
    let b = u32_bytes(x);
    let b0 = (x % 0x100) as u8;
    let b1 = ((x / 0x100) % 0x100) as u8;
    let b2 = ((x / 0x10000) % 0x100) as u8;
    let b3 = (x / 0x1000000) as u8;
    assert(b0 as int + b1 as int * 0x100 + b2 as int * 0x10000 + b3 as int * 0x1000000 == x)
        by (nonlinear_arith)
        requires
            b0 == x % 0x100,
            b1 == (x / 0x100) % 0x100,
            b2 == (x / 0x10000) % 0x100,
            b3 == x / 0x1000000,
    ;
}

/// A field read at `off` depends only on the bytes it spans.
pub proof fn lemma_le_u32_window(a: Seq<u8>, b: Seq<u8>, off: int, boff: int)
    requires
        0 <= off,
        off + 4 <= a.len(),
        0 <= boff,
        boff + 4 <= b.len(),
        a[off] == b[boff],
        a[off + 1] == b[boff + 1],
        a[off + 2] == b[boff + 2],
        a[off + 3] == b[boff + 3],
    ensures
        le_u32(a, off) == le_u32(b, boff),
{
}

/// Reading back the eight bytes written for `x` gives `x`.
pub proof fn lemma_u64_roundtrip(x: u64)
    ensures
        le_u64(u64_bytes(x), 0) == x,
{
    let lo = (x % 0x1_0000_0000) as u32;
    let hi = (x / 0x1_0000_0000) as u32;
    lemma_u32_roundtrip(lo);
    lemma_u32_roundtrip(hi);
    reveal(u64_bytes);
    lemma_u32_bytes_len(lo);
    lemma_u32_bytes_len(hi);
    let b = u64_bytes(x);
    lemma_le_u32_window(b, u32_bytes(lo), 0, 0);
    lemma_le_u32_window(b, u32_bytes(hi), 4, 0);
    assert(lo as int + hi as int * 0x1_0000_0000 == x) by (nonlinear_arith)
        requires
            lo == x % 0x1_0000_0000,
            hi == x / 0x1_0000_0000,
    ;
}

} // verus!
