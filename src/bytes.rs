//! Little-endian integers read out of a byte buffer.
use vstd::prelude::*;

verus! {

/// The `u16` stored least significant byte first at `s[i..i + 2]`.
pub open spec fn le_u16(s: Seq<u8>, i: int) -> u16 {
    (s[i] + 256 * s[i + 1]) as u16
}

/// The `u32` stored least significant byte first at `s[i..i + 4]`.
pub open spec fn le_u32(s: Seq<u8>, i: int) -> u32 {
    (s[i] + 0x100 * s[i + 1] + 0x1_0000 * s[i + 2] + 0x100_0000 * s[i + 3]) as u32
}

/// Reads the little-endian `u16` at `pos`.
pub fn read_u16_le(bytes: &[u8], pos: usize) -> (r: u16)
    requires
        pos + 2 <= bytes@.len(),
    ensures
        r == le_u16(bytes@, pos as int),
{
    bytes[pos] as u16 + 256 * (bytes[pos + 1] as u16)
}

/// Reads the little-endian `u32` at `pos`.
pub fn read_u32_le(bytes: &[u8], pos: usize) -> (r: u32)
    requires
        pos + 4 <= bytes@.len(),
    ensures
        r == le_u32(bytes@, pos as int),
{
    bytes[pos] as u32 + 0x100 * (bytes[pos + 1] as u32) + 0x1_0000 * (bytes[pos + 2] as u32)
        + 0x100_0000 * (bytes[pos + 3] as u32)
}


/// The `n` little-endian `u32`s stored one after another from `s[start]` on.
pub open spec fn le_u32s(s: Seq<u8>, start: int, n: nat) -> Seq<u32> {
    Seq::new(n, |j: int| le_u32(s, start + 4 * j))
}

/// Reads `count` little-endian `u32`s stored one after another from `start` on.
pub fn read_u32s_le(bytes: &[u8], start: usize, count: usize) -> (r: Vec<u32>)
    requires
        start + 4 * count <= bytes@.len(),
    ensures
        r@ == le_u32s(bytes@, start as int, count as nat),
{
    let len = bytes.len();
    let mut r: Vec<u32> = Vec::with_capacity(count);
    let mut j: usize = 0;
    while j < count
        invariant
            j <= count,
            len == bytes@.len(),
            start + 4 * count <= bytes@.len(),
            r@ == le_u32s(bytes@, start as int, j as nat),
        decreases count - j,
    {
        r.push(read_u32_le(bytes, start + 4 * j));
        j += 1;
        assert(r@ =~= le_u32s(bytes@, start as int, j as nat));
    }
    r
}


/// The `n` little-endian `u16`s stored one after another from `s[start]` on.
pub open spec fn le_u16s(s: Seq<u8>, start: int, n: nat) -> Seq<u16> {
    Seq::new(n, |j: int| le_u16(s, start + 2 * j))
}

/// Reads `count` little-endian `u16`s stored one after another from `start` on.
pub fn read_u16s_le(bytes: &[u8], start: usize, count: usize) -> (r: Vec<u16>)
    requires
        start + 2 * count <= bytes@.len(),
    ensures
        r@ == le_u16s(bytes@, start as int, count as nat),
{
    let len = bytes.len();
    let mut r: Vec<u16> = Vec::with_capacity(count);
    let mut j: usize = 0;
    while j < count
        invariant
            j <= count,
            len == bytes@.len(),
            start + 2 * count <= bytes@.len(),
            r@ == le_u16s(bytes@, start as int, j as nat),
        decreases count - j,
    {
        r.push(read_u16_le(bytes, start + 2 * j));
        j += 1;
        assert(r@ =~= le_u16s(bytes@, start as int, j as nat));
    }
    r
}

} // verus!
