use vstd::prelude::*;

verus! {

/// Little-endian half-word at offset `o` of `s`.
pub open spec fn le16(s: Seq<u8>, o: int) -> int {
    s[o] + 256 * s[o + 1]
}

/// Little-endian word at offset `o` of `s`.
pub open spec fn le32(s: Seq<u8>, o: int) -> int {
    s[o] + 256 * s[o + 1] + 65536 * s[o + 2] + 16777216 * s[o + 3]
}

/// Reads the little-endian word at offset `o`.
pub fn read_u32_le(s: &[u8], o: usize) -> (r: u32)
    requires
        o + 4 <= s@.len(),
    ensures
        r as int == le32(s@, o as int),
{
    let b0 = s[o] as u32;
    let b1 = s[o + 1] as u32;
    let b2 = s[o + 2] as u32;
    let b3 = s[o + 3] as u32;
    b0 + b1 * 256 + b2 * 65536 + b3 * 16777216
}

} // verus!
