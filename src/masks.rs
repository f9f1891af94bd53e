use vstd::prelude::*;

verus! {

/// Page attributes: a bitset of independent access permissions.
pub type Attr = u8;

/// Reads of any width.
pub const R: Attr = 1;
/// Byte stores.
pub const W_8: Attr = 2;
/// Half-word and word stores.
pub const W_16_32: Attr = 4;

} // verus!
