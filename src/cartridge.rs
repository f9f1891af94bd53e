use vstd::prelude::*;

use crate::bytes::{le32, read_u32_le};
use crate::error::{error_text, hex_string, hex_text, Error, Result};

verus! {

/// Length of the fixed cartridge header.
pub const CART_HEADER_LEN: usize = 0x200;
/// First address of the main-memory window.
pub const MAIN_MEMORY_START: u32 = 0x0200_0000;
/// End (exclusive) of the main-memory window: four mirrors of 4 MiB.
pub const MAIN_MEMORY_END: u32 = 0x0300_0000;

pub const TOO_SMALL: &'static str = "the cartridge is too small, has to be at least '200' bytes but got '";
pub const BAD_ARM9_ENTRY: &'static str = "ARM9 entry address outside of '2000000..23bfe00', got '";
pub const BAD_ARM9_RAM: &'static str = "ARM9 RAM address outside of '2000000..23bfe00', got '";
pub const BAD_ARM9_SIZE: &'static str = "ARM9 ROM size larger than '3bfe00', got '";
pub const BAD_ARM7_ENTRY: &'static str = "ARM7 entry address outside of '2000000..23bfe00' and '37f8000..3807e00', got '";
pub const BAD_ARM7_RAM: &'static str = "ARM7 RAM address outside of '2000000..23bfe00' and '37f8000..3807e00', got '";
pub const BAD_ARM7_SIZE: &'static str = "ARM7 ROM size larger than '3bfe00', got '";
pub const BAD_ARM7_FAST_SIZE: &'static str = "ARM7 ROM size larger than 'fe00', got '";
pub const LOW_ARM7_OFFSET: &'static str = "ARM7 ROM offset below '4000', got '";
pub const UNALIGNED_ARM7_OFFSET: &'static str = "ARM7 ROM offset not aligned to '1000', got '";
pub const LOW_ARM9_OFFSET: &'static str = "ARM9 ROM offset below '4000', got '";
pub const UNALIGNED_ARM9_OFFSET: &'static str = "ARM9 ROM offset not aligned to '1000', got '";
pub const ARM9_LOAD_OUTSIDE: &'static str = "ARM9 ROM would load outside of main memory, load end '";
pub const ARM7_LOAD_OUTSIDE: &'static str = "ARM7 ROM would load outside of main memory, load end '";

/// The message of a failed check: what was expected, then the value found.
pub open spec fn fault_text(label: Seq<char>, v: nat) -> Seq<char> {
    label + hex_text(v) + "'"@
}

fn fault(label: &str, v: u64) -> (e: Error)
    ensures
        error_text(e) == fault_text(label@, v as nat),
{
    let mut m = String::from_str(label);
    let h = hex_string(v);
    m.append(h.as_str());
    m.append("'");
    Error::Cartridge(m)
}

/// The 32-bit header field at byte offset `off` of an image.
pub open spec fn field(s: Seq<u8>, off: int) -> u32 {
    le32(s, off) as u32
}

pub open spec fn arm9_rom_offset_of(s: Seq<u8>) -> u32 {
    field(s, 0x20)
}

pub open spec fn arm9_entry_of(s: Seq<u8>) -> u32 {
    field(s, 0x24)
}

pub open spec fn arm9_ram_of(s: Seq<u8>) -> u32 {
    field(s, 0x28)
}

pub open spec fn arm9_size_of(s: Seq<u8>) -> u32 {
    field(s, 0x2c)
}

pub open spec fn arm7_rom_offset_of(s: Seq<u8>) -> u32 {
    field(s, 0x30)
}

pub open spec fn arm7_entry_of(s: Seq<u8>) -> u32 {
    field(s, 0x34)
}

pub open spec fn arm7_ram_of(s: Seq<u8>) -> u32 {
    field(s, 0x38)
}

pub open spec fn arm7_size_of(s: Seq<u8>) -> u32 {
    field(s, 0x3c)
}

/// Inside the window where either CPU may be entered or loaded.
pub open spec fn in_main_window(x: u32) -> bool {
    0x0200_0000 <= x < 0x023b_fe00
}

/// Inside the second CPU's alternate fast-memory window.
pub open spec fn in_fast_window(x: u32) -> bool {
    0x037f_8000 <= x < 0x0380_7e00
}

/// The largest second-CPU ROM for a given RAM address.
pub open spec fn arm7_size_limit(ram: u32) -> u32 {
    if ram >= 0x037f_8000 {
        0xfe00
    } else {
        0x003b_fe00
    }
}

/// At least the minimum ROM offset and on a 4 KiB boundary.
pub open spec fn offset_ok(off: u32) -> bool {
    off >= 0x4000 && off % 0x1000 == 0
}

/// The message of the first failed validation check of an image, or
/// `None` when the header is acceptable.
pub open spec fn validation_fault(s: Seq<u8>) -> Option<Seq<char>> {
    let e9 = arm9_entry_of(s);
    let r9 = arm9_ram_of(s);
    let n9 = arm9_size_of(s);
    let o9 = arm9_rom_offset_of(s);
    let e7 = arm7_entry_of(s);
    let r7 = arm7_ram_of(s);
    let n7 = arm7_size_of(s);
    let o7 = arm7_rom_offset_of(s);
    if !in_main_window(e9) {
        Some(fault_text(BAD_ARM9_ENTRY@, e9 as nat))
    } else if !in_main_window(r9) {
        Some(fault_text(BAD_ARM9_RAM@, r9 as nat))
    } else if n9 > 0x003b_fe00 {
        Some(fault_text(BAD_ARM9_SIZE@, n9 as nat))
    } else if !(in_main_window(e7) || in_fast_window(e7)) {
        Some(fault_text(BAD_ARM7_ENTRY@, e7 as nat))
    } else if !(in_main_window(r7) || in_fast_window(r7)) {
        Some(fault_text(BAD_ARM7_RAM@, r7 as nat))
    } else if n7 > arm7_size_limit(r7) {
        Some(
            fault_text(
                if r7 >= 0x037f_8000 {
                    BAD_ARM7_FAST_SIZE@
                } else {
                    BAD_ARM7_SIZE@
                },
                n7 as nat,
            ),
        )
    } else if o7 < 0x4000 {
        Some(fault_text(LOW_ARM7_OFFSET@, o7 as nat))
    } else if o7 % 0x1000 != 0 {
        Some(fault_text(UNALIGNED_ARM7_OFFSET@, o7 as nat))
    } else if o9 < 0x4000 {
        Some(fault_text(LOW_ARM9_OFFSET@, o9 as nat))
    } else if o9 % 0x1000 != 0 {
        Some(fault_text(UNALIGNED_ARM9_OFFSET@, o9 as nat))
    } else if r9 + n9 > MAIN_MEMORY_END {
        Some(fault_text(ARM9_LOAD_OUTSIDE@, (r9 + n9) as nat))
    } else if r7 + n7 > MAIN_MEMORY_END {
        Some(fault_text(ARM7_LOAD_OUTSIDE@, (r7 + n7) as nat))
    } else {
        None
    }
}

/// Whether both ROM sub-ranges named by the header lie inside the image.
pub open spec fn roms_in_image(s: Seq<u8>) -> bool {
    &&& arm9_rom_offset_of(s) + arm9_size_of(s) <= s.len()
    &&& arm7_rom_offset_of(s) + arm7_size_of(s) <= s.len()
}

/// A cartridge image of at least the header's length, read-only.
pub struct Cartridge<'a>(&'a [u8]);

impl<'a> View for Cartridge<'a> {
    type V = Seq<u8>;

    closed spec fn view(&self) -> Seq<u8> {
        self.0@
    }
}

impl<'a> Cartridge<'a> {
    pub open spec fn wf(&self) -> bool {
        self@.len() >= CART_HEADER_LEN
    }

    /// Wraps an image, which must hold at least a whole header.
    pub fn new(data: &'a [u8]) -> (r: Result<Self>)
        ensures
            r is Ok <==> data@.len() >= CART_HEADER_LEN,
            r matches Ok(c) ==> c@ == data@ && c.wf(),
            r matches Err(e) ==> error_text(e) == fault_text(TOO_SMALL@, data@.len()),
    {
        if data.len() < CART_HEADER_LEN {
            return Err(fault(TOO_SMALL, data.len() as u64));
        }
        Ok(Cartridge(data))
    }

    /// Checks every header field against the architectural windows and
    /// limits, in a fixed order, and reports the first that fails.
    pub fn validate(&self) -> (r: Result<()>)
        requires
            self.wf(),
        ensures
            r is Ok <==> validation_fault(self@).is_none(),
            r matches Err(e) ==> validation_fault(self@) == Some(error_text(e)),
    {
        let header = self.header();
        let arm9_rom = header.arm9_rom_offset();
        let arm9_size = header.arm9_size();
        let arm9_entry = header.arm9_entry_address();
        let arm9_ram = header.arm9_ram_address();
        let arm7_rom = header.arm7_rom_offset();
        let arm7_size = header.arm7_size();
        let arm7_entry = header.arm7_entry_address();
        let arm7_ram = header.arm7_ram_address();

        let main_lo: u32 = 0x0200_0000;
        let main_hi: u32 = 0x023b_fe00;
        let fast_lo: u32 = 0x037f_8000;
        let fast_hi: u32 = 0x0380_7e00;

        if !(main_lo <= arm9_entry && arm9_entry < main_hi) {
            return Err(fault(BAD_ARM9_ENTRY, arm9_entry as u64));
        }
        if !(main_lo <= arm9_ram && arm9_ram < main_hi) {
            return Err(fault(BAD_ARM9_RAM, arm9_ram as u64));
        }
        if arm9_size > 0x003b_fe00 {
            return Err(fault(BAD_ARM9_SIZE, arm9_size as u64));
        }
        if !((main_lo <= arm7_entry && arm7_entry < main_hi) || (fast_lo <= arm7_entry
            && arm7_entry < fast_hi)) {
            return Err(fault(BAD_ARM7_ENTRY, arm7_entry as u64));
        }
        if !((main_lo <= arm7_ram && arm7_ram < main_hi) || (fast_lo <= arm7_ram && arm7_ram
            < fast_hi)) {
            return Err(fault(BAD_ARM7_RAM, arm7_ram as u64));
        }
        if arm7_ram >= fast_lo {
            if arm7_size > 0xfe00 {
                return Err(fault(BAD_ARM7_FAST_SIZE, arm7_size as u64));
            }
        } else {
            if arm7_size > 0x003b_fe00 {
                return Err(fault(BAD_ARM7_SIZE, arm7_size as u64));
            }
        }

        let minimum_rom_offs: u32 = 0x4000;
        let rom_align: u32 = 0x1000;
        if arm7_rom < minimum_rom_offs {
            return Err(fault(LOW_ARM7_OFFSET, arm7_rom as u64));
        }
        if arm7_rom % rom_align != 0 {
            return Err(fault(UNALIGNED_ARM7_OFFSET, arm7_rom as u64));
        }
        if arm9_rom < minimum_rom_offs {
            return Err(fault(LOW_ARM9_OFFSET, arm9_rom as u64));
        }
        if arm9_rom % rom_align != 0 {
            return Err(fault(UNALIGNED_ARM9_OFFSET, arm9_rom as u64));
        }

        let arm9_load_end = arm9_ram + arm9_size;
        if arm9_load_end > MAIN_MEMORY_END {
            return Err(fault(ARM9_LOAD_OUTSIDE, arm9_load_end as u64));
        }
        let arm7_load_end = arm7_ram + arm7_size;
        if arm7_load_end > MAIN_MEMORY_END {
            return Err(fault(ARM7_LOAD_OUTSIDE, arm7_load_end as u64));
        }
        Ok(())
    }

    /// Whether both ROM sub-ranges lie inside the image.
    pub fn roms_in_bounds(&self) -> (r: bool)
        requires
            self.wf(),
        ensures
            r == roms_in_image(self@),
    {
        let header = self.header();
        let len = self.0.len() as u64;
        (header.arm9_rom_offset() as u64 + header.arm9_size() as u64 <= len) && (
        header.arm7_rom_offset() as u64 + header.arm7_size() as u64 <= len)
    }

    /// The header: the first bytes of the image.
    pub fn header(&self) -> (r: CartridgeHeader<'a>)
        requires
            self.wf(),
        ensures
            r@ == self@.subrange(0, CART_HEADER_LEN as int),
            r.wf(),
    {
        CartridgeHeader(&self.0[0..CART_HEADER_LEN])
    }

    /// The first CPU's ROM, as named by the header.
    pub fn arm9_rom(&self) -> (r: &'a [u8])
        requires
            self.wf(),
            arm9_rom_offset_of(self@) + arm9_size_of(self@) <= self@.len(),
        ensures
            r@ == self@.subrange(
                arm9_rom_offset_of(self@) as int,
                arm9_rom_offset_of(self@) + arm9_size_of(self@),
            ),
    {
        let header = self.header();
        assert(header@ =~= self@.subrange(0, CART_HEADER_LEN as int));
        assert(arm9_rom_offset_of(header@) == arm9_rom_offset_of(self@));
        assert(arm9_size_of(header@) == arm9_size_of(self@));
        let start = header.arm9_rom_offset() as usize;
        let size = header.arm9_size() as usize;
        assert(self.0@.len() == self.0.len());
        &self.0[start..(start + size)]
    }

    /// The second CPU's ROM, as named by the header.
    pub fn arm7_rom(&self) -> (r: &'a [u8])
        requires
            self.wf(),
            arm7_rom_offset_of(self@) + arm7_size_of(self@) <= self@.len(),
        ensures
            r@ == self@.subrange(
                arm7_rom_offset_of(self@) as int,
                arm7_rom_offset_of(self@) + arm7_size_of(self@),
            ),
    {
        let header = self.header();
        assert(header@ =~= self@.subrange(0, CART_HEADER_LEN as int));
        assert(arm7_rom_offset_of(header@) == arm7_rom_offset_of(self@));
        assert(arm7_size_of(header@) == arm7_size_of(self@));
        let start = header.arm7_rom_offset() as usize;
        let size = header.arm7_size() as usize;
        assert(self.0@.len() == self.0.len());
        &self.0[start..(start + size)]
    }
}

/// The fixed-layout header at the start of a cartridge image.
pub struct CartridgeHeader<'a>(&'a [u8]);

impl<'a> View for CartridgeHeader<'a> {
    type V = Seq<u8>;

    closed spec fn view(&self) -> Seq<u8> {
        self.0@
    }
}

impl<'a> CartridgeHeader<'a> {
    pub const LEN: usize = CART_HEADER_LEN;

    pub open spec fn wf(&self) -> bool {
        self@.len() == CART_HEADER_LEN
    }

    /// The header's bytes.
    pub fn as_ref(&self) -> (r: &'a [u8])
        ensures
            r@ == self@,
    {
        self.0
    }

    /// The twelve bytes of the game title field at the start of the header.
    pub fn game_title(&self) -> (r: &'a [u8])
        requires
            self.wf(),
        ensures
            r@ == self@.subrange(0, 12),
    {
        &self.0[0..12]
    }

    fn from_offs(&self, offs: usize) -> (r: u32)
        requires
            self.wf(),
            offs + 4 <= CART_HEADER_LEN,
        ensures
            r == field(self@, offs as int),
    {
        read_u32_le(self.0, offs)
    }

    pub fn arm9_rom_offset(&self) -> (r: u32)
        requires
            self.wf(),
        ensures
            r == arm9_rom_offset_of(self@),
    {
        self.from_offs(0x20)
    }

    pub fn arm9_entry_address(&self) -> (r: u32)
        requires
            self.wf(),
        ensures
            r == arm9_entry_of(self@),
    {
        self.from_offs(0x24)
    }

    pub fn arm9_ram_address(&self) -> (r: u32)
        requires
            self.wf(),
        ensures
            r == arm9_ram_of(self@),
    {
        self.from_offs(0x28)
    }

    pub fn arm9_size(&self) -> (r: u32)
        requires
            self.wf(),
        ensures
            r == arm9_size_of(self@),
    {
        self.from_offs(0x2c)
    }

    pub fn arm7_rom_offset(&self) -> (r: u32)
        requires
            self.wf(),
        ensures
            r == arm7_rom_offset_of(self@),
    {
        self.from_offs(0x30)
    }

    pub fn arm7_entry_address(&self) -> (r: u32)
        requires
            self.wf(),
        ensures
            r == arm7_entry_of(self@),
    {
        self.from_offs(0x34)
    }

    pub fn arm7_ram_address(&self) -> (r: u32)
        requires
            self.wf(),
        ensures
            r == arm7_ram_of(self@),
    {
        self.from_offs(0x38)
    }

    pub fn arm7_size(&self) -> (r: u32)
        requires
            self.wf(),
        ensures
            r == arm7_size_of(self@),
    {
        self.from_offs(0x3c)
    }
}

} // verus!
