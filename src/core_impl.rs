use vstd::prelude::*;

use crate::arm9::{reg_write, Arm9, PC};
use crate::bus::{self, lemma_window_hit, off8, read8_value, write8_mem};
use crate::cartridge::{
    arm7_ram_of, arm7_rom_offset_of, arm7_size_of, arm9_entry_of, arm9_ram_of,
    arm9_rom_offset_of, arm9_size_of, fault_text, roms_in_image, validation_fault, Cartridge,
    CART_HEADER_LEN, MAIN_MEMORY_START, TOO_SMALL,
};
use crate::error::{error_text, Result};
use crate::masks;
use crate::ptrs::{empty_entry, lookup, PageEntry, PtrTable, ENTRIES, PG_SIZE};

verus! {

/// Size of the main-memory arena.
pub const MAIN_MEMORY_SIZE: usize = 0x40_0000;
/// First page of the main-memory window.
pub const MAIN_FIRST_PAGE: usize = 0x800;
/// Number of pages in the main-memory window: four mirrors of the arena.
pub const MAIN_WINDOW_PAGES: usize = 0x400;
/// Pages in one copy of the arena.
pub const PAGES_PER_MIRROR: usize = 0x100;
/// Permissions of main memory: readable, writable at every width.
pub const MAIN_ATTRS: u8 = 7;

/// The slot that maps page `p` of the main-memory window.
pub open spec fn main_entry(p: int) -> PageEntry {
    PageEntry {
        attr: MAIN_ATTRS,
        base: (((p - MAIN_FIRST_PAGE) % PAGES_PER_MIRROR as int) * PG_SIZE) as usize,
    }
}

/// The layout the core installs: the main-memory window maps the arena four
/// times over, and no other page is mapped.
pub open spec fn mirrored(t: Seq<PageEntry>) -> bool {
    &&& t.len() == ENTRIES
    &&& forall|p: int|
        MAIN_FIRST_PAGE <= p < MAIN_FIRST_PAGE + MAIN_WINDOW_PAGES ==> #[trigger] t[p]
            == main_entry(p)
    &&& forall|p: int|
        0 <= p < ENTRIES && !(MAIN_FIRST_PAGE <= p < MAIN_FIRST_PAGE + MAIN_WINDOW_PAGES)
            ==> #[trigger] t[p] == empty_entry()
}

/// Every mapped slot points at a whole page inside an arena of `len` bytes.
pub open spec fn table_in_arena(t: Seq<PageEntry>, len: nat) -> bool {
    &&& t.len() == ENTRIES
    &&& forall|p: int| 0 <= p < ENTRIES && #[trigger] t[p].attr != 0 ==> t[p].base + PG_SIZE <= len
}

/// An execution backend: the auxiliary data it keeps beside the shared bus
/// and registers.
pub trait Engine {
    type GlobalData: Default;
    type ARM9Data: Default;
    type ARM7Data: Default;
}

/// An emulator instance: the first CPU, the main-memory arena its page table
/// points into, and the data of the execution backend `E`.
pub struct Core<E: Engine> {
    pub global_data: E::GlobalData,
    pub arm9_data: E::ARM9Data,
    pub arm9: Arm9,
    pub main_memory: Vec<u8>,
}

impl<E: Engine> Core<E> {
    /// The page table's slots.
    pub open spec fn table(&self) -> Seq<PageEntry> {
        self.arm9.bus_ptrs@
    }

    /// The main-memory arena.
    pub open spec fn mem(&self) -> Seq<u8> {
        self.main_memory@
    }

    /// The arena has its fixed size and every mapped page lies inside it.
    pub open spec fn wf(&self) -> bool {
        &&& self.mem().len() == MAIN_MEMORY_SIZE
        &&& table_in_arena(self.table(), MAIN_MEMORY_SIZE as nat)
    }

    /// A core with cleared registers, zeroed main memory, and the main-memory
    /// window mapped.
    pub fn new() -> (r: Self)
        ensures
            r.wf(),
            mirrored(r.table()),
            forall|i: int| 0 <= i < MAIN_MEMORY_SIZE ==> r.mem()[i] == 0,
            forall|i: int| 0 <= i < 16 ==> r.arm9.gpr@[i] == 0,
            r.arm9.cpsr.0 == 0,
    {
        let mut core = Core {
            global_data: E::GlobalData::default(),
            arm9_data: E::ARM9Data::default(),
            arm9: Arm9::new(),
            main_memory: vec![0u8; MAIN_MEMORY_SIZE],
        };
        core.init();
        core
    }

    /// Clears registers and flags and maps the main-memory window.
    fn init(&mut self)
        requires
            old(self).arm9.bus_ptrs.wf(),
            forall|p: int| 0 <= p < ENTRIES ==> old(self).table()[p] == empty_entry(),
        ensures
            mirrored(final(self).table()),
            table_in_arena(final(self).table(), MAIN_MEMORY_SIZE as nat),
            final(self).main_memory == old(self).main_memory,
            forall|i: int| 0 <= i < 16 ==> final(self).arm9.gpr@[i] == 0,
            final(self).arm9.cpsr.0 == 0,
    {
        self.arm9.init();
        assert(self.table() == old(self).table());
        let attrs: u8 = masks::R | masks::W_16_32 | masks::W_8;
        assert(attrs == MAIN_ATTRS) by (bit_vector)
            requires
                attrs == 1u8 | 4u8 | 2u8,
        ;
        let mut i: usize = 0;
        while i < MAIN_WINDOW_PAGES
            invariant
                i <= MAIN_WINDOW_PAGES,
                attrs == MAIN_ATTRS,
                self.arm9.bus_ptrs.wf(),
                self.main_memory == old(self).main_memory,
                forall|k: int| 0 <= k < 16 ==> self.arm9.gpr@[k] == 0,
                self.arm9.cpsr.0 == 0,
                forall|p: int|
                    MAIN_FIRST_PAGE <= p < MAIN_FIRST_PAGE + i ==> #[trigger] self.table()[p]
                        == main_entry(p),
                forall|p: int|
                    0 <= p < ENTRIES && !(MAIN_FIRST_PAGE <= p < MAIN_FIRST_PAGE + i)
                        ==> #[trigger] self.table()[p] == empty_entry(),
            decreases MAIN_WINDOW_PAGES - i,
        {
            let base: usize = (i % PAGES_PER_MIRROR) * PG_SIZE;
            let ghost before = self.table();
            self.arm9.bus_ptrs.map(MAIN_FIRST_PAGE + i, attrs, base);
            assert(main_entry(MAIN_FIRST_PAGE + i) == PageEntry { attr: attrs, base });
            assert(self.table() == before.update(MAIN_FIRST_PAGE + i, PageEntry { attr: attrs, base }));
            i = i + 1;
        }
        assert forall|p: int|
            0 <= p < ENTRIES && #[trigger] self.table()[p].attr != 0 implies self.table()[p].base
            + PG_SIZE <= MAIN_MEMORY_SIZE by {
            if MAIN_FIRST_PAGE <= p < MAIN_FIRST_PAGE + MAIN_WINDOW_PAGES {
                assert(self.table()[p] == main_entry(p));
            }
        }
    }
}


/// Where the cartridge header is kept in the arena.
pub const HEADER_MIRROR: usize = 0x3f_fe00;

/// `a + b`, wrapping past the top of the 32-bit range.
pub open spec fn wrap_add(a: u32, b: u32) -> u32 {
    if a + b > u32::MAX {
        (a + b - 0x1_0000_0000) as u32
    } else {
        (a + b) as u32
    }
}

/// The first CPU's ROM as the header of image `s` names it.
pub open spec fn arm9_rom_of(s: Seq<u8>) -> Seq<u8> {
    s.subrange(arm9_rom_offset_of(s) as int, arm9_rom_offset_of(s) + arm9_size_of(s))
}

/// The second CPU's ROM as the header of image `s` names it.
pub open spec fn arm7_rom_of(s: Seq<u8>) -> Seq<u8> {
    s.subrange(arm7_rom_offset_of(s) as int, arm7_rom_offset_of(s) + arm7_size_of(s))
}

/// The arena with the header of image `s` placed verbatim at its reserved
/// place.
pub open spec fn with_header(m: Seq<u8>, s: Seq<u8>) -> Seq<u8> {
    Seq::new(
        m.len(),
        |o: int|
            if HEADER_MIRROR <= o < HEADER_MIRROR + CART_HEADER_LEN {
                s[o - HEADER_MIRROR]
            } else {
                m[o]
            },
    )
}

/// The arena after the first `n` bytes of `rom` are stored through the bus,
/// one by one, at `ram`, `ram + 1`, ...
pub open spec fn store_bytes(t: Seq<PageEntry>, m: Seq<u8>, ram: u32, rom: Seq<u8>, n: nat) -> Seq<
    u8,
>
    decreases n,
{
    if n == 0 {
        m
    } else {
        write8_mem(
            t,
            store_bytes(t, m, ram, rom, (n - 1) as nat),
            wrap_add(ram, (n - 1) as u32),
            rom[n - 1],
        )
    }
}

/// The arena after loading image `s`: the header first, then the second
/// CPU's ROM, then the first CPU's ROM.
pub open spec fn loaded_mem(t: Seq<PageEntry>, m: Seq<u8>, s: Seq<u8>) -> Seq<u8> {
    let h = with_header(m, s);
    let m7 = store_bytes(t, h, arm7_ram_of(s), arm7_rom_of(s), arm7_size_of(s) as nat);
    store_bytes(t, m7, arm9_ram_of(s), arm9_rom_of(s), arm9_size_of(s) as nat)
}

/// Where a byte store to `adr` lands in the arena, if it hits.
pub open spec fn store_slot(t: Seq<PageEntry>, adr: u32) -> Option<int> {
    match lookup(t, adr, masks::W_8) {
        Some(b) => Some(b + off8(adr)),
        None => None,
    }
}

/// No byte of a ROM of `n` bytes stored at `ram` lands on arena offset `o`.
pub open spec fn untouched(t: Seq<PageEntry>, ram: u32, n: nat, o: int) -> bool {
    forall|i: int| 0 <= i < n ==> #[trigger] store_slot(t, wrap_add(ram, i as u32)) != Some(o)
}

/// Each header byte is at its reserved place unless a ROM byte landed on it.
pub open spec fn header_kept(t: Seq<PageEntry>, m: Seq<u8>, s: Seq<u8>) -> bool {
    forall|j: int|
        0 <= j < CART_HEADER_LEN && untouched(t, arm7_ram_of(s), arm7_size_of(s) as nat, #[trigger] (
        HEADER_MIRROR + j)) && untouched(t, arm9_ram_of(s), arm9_size_of(s) as nat, HEADER_MIRROR
            + j) ==> m[HEADER_MIRROR + j] == s[j]
}

/// After a load, the first CPU's ROM is readable through the bus at its RAM
/// address, byte for byte.
pub open spec fn arm9_rom_visible(t: Seq<PageEntry>, m: Seq<u8>, s: Seq<u8>) -> bool {
    forall|i: int|
        0 <= i < arm9_size_of(s) ==> #[trigger] read8_value(t, m, (arm9_ram_of(s) + i) as u32)
            == s[arm9_rom_offset_of(s) + i]
}

/// After a load, each byte of the second CPU's ROM is readable through the
/// bus at its RAM address, unless a byte of the first CPU's ROM landed on the
/// same place.
pub open spec fn arm7_rom_visible(t: Seq<PageEntry>, m: Seq<u8>, s: Seq<u8>) -> bool {
    forall|i: int|
        0 <= i < arm7_size_of(s) && untouched(
            t,
            arm9_ram_of(s),
            arm9_size_of(s) as nat,
            (arm7_ram_of(s) + i - MAIN_MEMORY_START) % 0x40_0000,
        ) ==> #[trigger] read8_value(t, m, (arm7_ram_of(s) + i) as u32) == s[arm7_rom_offset_of(
            s,
        ) + i]
}

/// Everything a load promises about the arena.
pub open spec fn load_result(t: Seq<PageEntry>, m0: Seq<u8>, m1: Seq<u8>, s: Seq<u8>) -> bool {
    &&& m1 == loaded_mem(t, m0, s)
    &&& header_kept(t, m1, s)
    &&& validation_fault(s) is None ==> arm9_rom_visible(t, m1, s) && arm7_rom_visible(t, m1, s)
}

proof fn lemma_distinct_slots(x: int, y: int)
    requires
        0 <= x < y < x + 0x40_0000,
    ensures
        x % 0x40_0000 != y % 0x40_0000,
{
    assert(x % 0x40_0000 != y % 0x40_0000) by (nonlinear_arith)
        requires
            0 <= x < y < x + 0x40_0000,
    ;
}

proof fn lemma_slot_in_arena(t: Seq<PageEntry>, len: nat, adr: u32)
    requires
        table_in_arena(t, len),
    ensures
        store_slot(t, adr) matches Some(o) ==> 0 <= o < len,
{
    crate::ptrs::lemma_page_in_range(adr);
    crate::bus::lemma_offsets(adr);
    let a = t[crate::ptrs::page_of(adr)].attr;
    assert(a & 2u8 != 0 ==> a != 0) by (bit_vector);
}

/// Storing bytes keeps the arena's length and every offset no store lands on.
proof fn lemma_store_bytes_frame(t: Seq<PageEntry>, m: Seq<u8>, ram: u32, rom: Seq<u8>, n: nat, o: int)
    requires
        table_in_arena(t, m.len()),
    ensures
        store_bytes(t, m, ram, rom, n).len() == m.len(),
        0 <= o < m.len() && untouched(t, ram, n, o) ==> store_bytes(t, m, ram, rom, n)[o] == m[o],
    decreases n,
{
    if n > 0 {
        lemma_store_bytes_frame(t, m, ram, rom, (n - 1) as nat, o);
        let adr = wrap_add(ram, (n - 1) as u32);
        lemma_slot_in_arena(t, m.len(), adr);
        if untouched(t, ram, n, o) {
            assert(store_slot(t, wrap_add(ram, (n - 1) as u32)) != Some(o));
            assert forall|i: int| 0 <= i < n - 1 implies #[trigger] store_slot(
                t,
                wrap_add(ram, i as u32),
            ) != Some(o) by {
                assert(store_slot(t, wrap_add(ram, i as u32)) != Some(o));
            }
        }
    }
}

/// Bytes stored inside the main-memory window land at their distance from
/// the window start modulo the arena size, and none overwrites another.
proof fn lemma_store_bytes_placed(t: Seq<PageEntry>, m: Seq<u8>, ram: u32, rom: Seq<u8>, n: nat)
    requires
        mirrored(t),
        table_in_arena(t, m.len()),
        m.len() == MAIN_MEMORY_SIZE,
        MAIN_MEMORY_START <= ram,
        ram + n <= 0x0300_0000,
        n <= 0x40_0000,
        rom.len() >= n,
    ensures
        forall|i: int|
            0 <= i < n ==> store_bytes(t, m, ram, rom, n)[(ram + i - MAIN_MEMORY_START)
                % 0x40_0000] == #[trigger] rom[i],
        forall|i: int|
            0 <= i < n ==> #[trigger] store_slot(t, wrap_add(ram, i as u32)) == Some(
                (ram + i - MAIN_MEMORY_START) % 0x40_0000,
            ),
    decreases n,
{
    if n > 0 {
        let k = (n - 1) as nat;
        lemma_store_bytes_placed(t, m, ram, rom, k);
        lemma_store_bytes_frame(t, m, ram, rom, k, 0);
        let adr = wrap_add(ram, k as u32);
        assert(adr == ram + k);
        lemma_window_hit(t, adr);
        let prev = store_bytes(t, m, ram, rom, k);
        assert forall|i: int| 0 <= i < n implies store_bytes(t, m, ram, rom, n)[(ram + i
            - MAIN_MEMORY_START) % 0x40_0000] == #[trigger] rom[i] by {
            if i < k {
                lemma_distinct_slots(ram + i - MAIN_MEMORY_START, ram + k - MAIN_MEMORY_START);
                assert(prev[(ram + i - MAIN_MEMORY_START) % 0x40_0000] == rom[i]);
            }
        }
        assert forall|i: int| 0 <= i < n implies #[trigger] store_slot(t, wrap_add(ram, i as u32))
            == Some((ram + i - MAIN_MEMORY_START) % 0x40_0000) by {
            if i == k {
                assert(wrap_add(ram, i as u32) == adr);
            }
        }
    }
}

/// What loading an image does to the arena, as `load_result` states it.
proof fn lemma_load_result(t: Seq<PageEntry>, m0: Seq<u8>, s: Seq<u8>)
    requires
        mirrored(t),
        table_in_arena(t, MAIN_MEMORY_SIZE as nat),
        m0.len() == MAIN_MEMORY_SIZE,
        s.len() >= CART_HEADER_LEN,
        roms_in_image(s),
    ensures
        load_result(t, m0, loaded_mem(t, m0, s), s),
{
    let h = with_header(m0, s);
    let r7 = arm7_ram_of(s);
    let n7 = arm7_size_of(s) as nat;
    let r9 = arm9_ram_of(s);
    let n9 = arm9_size_of(s) as nat;
    let rom7 = arm7_rom_of(s);
    let rom9 = arm9_rom_of(s);
    let m7 = store_bytes(t, h, r7, rom7, n7);
    let m1 = store_bytes(t, m7, r9, rom9, n9);
    lemma_store_bytes_frame(t, h, r7, rom7, n7, 0);
    lemma_store_bytes_frame(t, m7, r9, rom9, n9, 0);
    assert forall|j: int|
        0 <= j < CART_HEADER_LEN && untouched(t, r7, n7, #[trigger] (HEADER_MIRROR + j))
            && untouched(t, r9, n9, HEADER_MIRROR + j) implies m1[HEADER_MIRROR + j] == s[j] by {
        lemma_store_bytes_frame(t, h, r7, rom7, n7, HEADER_MIRROR + j);
        lemma_store_bytes_frame(t, m7, r9, rom9, n9, HEADER_MIRROR + j);
    }
    if validation_fault(s) is None {
        lemma_store_bytes_placed(t, m7, r9, rom9, n9);
        lemma_store_bytes_placed(t, h, r7, rom7, n7);
        assert forall|i: int| 0 <= i < n9 implies #[trigger] read8_value(t, m1, (r9 + i) as u32)
            == s[arm9_rom_offset_of(s) + i] by {
            lemma_window_hit(t, (r9 + i) as u32);
            assert(rom9[i] == s[arm9_rom_offset_of(s) + i]);
        }
        assert forall|i: int|
            0 <= i < n7 && untouched(t, r9, n9, (r7 + i - MAIN_MEMORY_START) % 0x40_0000)
                implies #[trigger] read8_value(t, m1, (r7 + i) as u32) == s[arm7_rom_offset_of(s)
            + i] by {
            lemma_window_hit(t, (r7 + i) as u32);
            lemma_store_bytes_frame(t, m7, r9, rom9, n9, (r7 + i - MAIN_MEMORY_START) % 0x40_0000);
            assert(rom7[i] == s[arm7_rom_offset_of(s) + i]);
        }
    }
}

impl<E: Engine> Core<E> {
    /// Copies the header into its reserved place, both ROMs into main memory
    /// through the bus, and enters the first CPU at its entry address.
    fn load_rom_internal(&mut self, cartridge: &Cartridge)
        requires
            old(self).wf(),
            mirrored(old(self).table()),
            cartridge.wf(),
            roms_in_image(cartridge@),
        ensures
            final(self).wf(),
            final(self).table() == old(self).table(),
            final(self).arm9.gpr@ == reg_write(
                old(self).arm9.gpr@,
                PC,
                arm9_entry_of(cartridge@),
            ),
            final(self).arm9.cpsr == old(self).arm9.cpsr,
            load_result(old(self).table(), old(self).mem(), final(self).mem(), cartridge@),
    {
        let ghost s = cartridge@;
        let ghost t = self.table();
        let ghost m0 = self.mem();
        let header = cartridge.header();
        assert(header@ =~= s.subrange(0, CART_HEADER_LEN as int));
        let arm9_size = header.arm9_size();
        let arm9_entry = header.arm9_entry_address();
        let arm9_ram = header.arm9_ram_address();
        let arm7_size = header.arm7_size();
        let arm7_ram = header.arm7_ram_address();
        assert(arm9_size == arm9_size_of(s) && arm9_ram == arm9_ram_of(s) && arm9_entry
            == arm9_entry_of(s) && arm7_size == arm7_size_of(s) && arm7_ram == arm7_ram_of(s));

        // the header, verbatim, at its reserved place.
        let bytes = header.as_ref();
        let mut i: usize = 0;
        while i < CART_HEADER_LEN
            invariant
                i <= CART_HEADER_LEN,
                s.len() >= CART_HEADER_LEN,
                bytes@ == s.subrange(0, CART_HEADER_LEN as int),
                bytes@.len() == CART_HEADER_LEN,
                self.wf(),
                self.arm9 == old(self).arm9,
                self.mem().len() == m0.len(),
                forall|o: int|
                    0 <= o < m0.len() ==> #[trigger] self.mem()[o] == if HEADER_MIRROR <= o
                        < HEADER_MIRROR + i {
                        s[o - HEADER_MIRROR]
                    } else {
                        m0[o]
                    },
            decreases CART_HEADER_LEN - i,
        {
            self.main_memory.set(HEADER_MIRROR + i, bytes[i]);
            i = i + 1;
        }
        assert(self.mem() =~= with_header(m0, s));

        // the second CPU's ROM.
        let ghost h = self.mem();
        let arm7_rom = cartridge.arm7_rom();
        let mut i: u32 = 0;
        while i < arm7_size
            invariant
                i <= arm7_size,
                arm7_rom@ == arm7_rom_of(s),
                arm7_rom@.len() == arm7_size,
                self.wf(),
                self.arm9 == old(self).arm9,
                self.mem() == store_bytes(t, h, arm7_ram, arm7_rom@, i as nat),
                self.table() == t,
            decreases arm7_size - i,
        {
            let adr = arm7_ram.wrapping_add(i);
            assert(adr == wrap_add(arm7_ram, i));
            bus::write8(self, adr, arm7_rom[i as usize]);
            assert(store_bytes(t, h, arm7_ram, arm7_rom@, (i + 1) as nat) == write8_mem(
                t,
                store_bytes(t, h, arm7_ram, arm7_rom@, i as nat),
                wrap_add(arm7_ram, i),
                arm7_rom@[i as int],
            ));
            i = i + 1;
        }

        // the first CPU's ROM.
        let ghost m7 = self.mem();
        let arm9_rom = cartridge.arm9_rom();
        let mut i: u32 = 0;
        while i < arm9_size
            invariant
                i <= arm9_size,
                arm9_rom@ == arm9_rom_of(s),
                arm9_rom@.len() == arm9_size,
                self.wf(),
                self.arm9 == old(self).arm9,
                self.mem() == store_bytes(t, m7, arm9_ram, arm9_rom@, i as nat),
                self.table() == t,
            decreases arm9_size - i,
        {
            let adr = arm9_ram.wrapping_add(i);
            assert(adr == wrap_add(arm9_ram, i));
            bus::write8(self, adr, arm9_rom[i as usize]);
            assert(store_bytes(t, m7, arm9_ram, arm9_rom@, (i + 1) as nat) == write8_mem(
                t,
                store_bytes(t, m7, arm9_ram, arm9_rom@, i as nat),
                wrap_add(arm9_ram, i),
                arm9_rom@[i as int],
            ));
            i = i + 1;
        }
        proof {
            lemma_load_result(t, m0, s);
        }

        // enter the first CPU.
        self.arm9.pc_set(arm9_entry);
    }
}

impl<E: Engine> Core<E> {
    /// Validates a cartridge image, then loads it. On any failure nothing is
    /// changed.
    pub fn load_rom(&mut self, rom: &[u8]) -> (r: Result<()>)
        requires
            old(self).wf(),
            mirrored(old(self).table()),
            rom@.len() >= CART_HEADER_LEN && validation_fault(rom@) is None ==> roms_in_image(
                rom@,
            ),
        ensures
            r is Ok <==> rom@.len() >= CART_HEADER_LEN && validation_fault(rom@) is None,
            r matches Err(e) ==> {
                &&& *final(self) == *old(self)
                &&& rom@.len() < CART_HEADER_LEN ==> error_text(e) == fault_text(
                    TOO_SMALL@,
                    rom@.len(),
                )
                &&& rom@.len() >= CART_HEADER_LEN ==> validation_fault(rom@) == Some(
                    error_text(e),
                )
            },
            r is Ok ==> {
                &&& final(self).wf()
                &&& final(self).table() == old(self).table()
                &&& final(self).arm9.gpr@ == reg_write(old(self).arm9.gpr@, PC, arm9_entry_of(rom@))
                &&& final(self).arm9.cpsr == old(self).arm9.cpsr
                &&& load_result(old(self).table(), old(self).mem(), final(self).mem(), rom@)
            },
    {
        let cartridge = match Cartridge::new(rom) {
            Ok(c) => c,
            Err(e) => return Err(e),
        };
        match cartridge.validate() {
            Ok(()) => {},
            Err(e) => return Err(e),
        }
        self.load_rom_internal(&cartridge);
        Ok(())
    }

    /// Loads a cartridge image without validating its header. The image must
    /// still hold both ROMs that the header names.
    pub fn load_unvalidated_rom(&mut self, rom: &[u8]) -> (r: Result<()>)
        requires
            old(self).wf(),
            mirrored(old(self).table()),
            rom@.len() >= CART_HEADER_LEN ==> roms_in_image(rom@),
        ensures
            r is Ok <==> rom@.len() >= CART_HEADER_LEN,
            r matches Err(e) ==> *final(self) == *old(self) && error_text(e) == fault_text(
                TOO_SMALL@,
                rom@.len(),
            ),
            r is Ok ==> {
                &&& final(self).wf()
                &&& final(self).table() == old(self).table()
                &&& final(self).arm9.gpr@ == reg_write(old(self).arm9.gpr@, PC, arm9_entry_of(rom@))
                &&& final(self).arm9.cpsr == old(self).arm9.cpsr
                &&& load_result(old(self).table(), old(self).mem(), final(self).mem(), rom@)
            },
    {
        let cartridge = match Cartridge::new(rom) {
            Ok(c) => c,
            Err(e) => return Err(e),
        };
        self.load_rom_internal(&cartridge);
        Ok(())
    }
}

} // verus!
