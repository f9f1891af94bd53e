//! Width-typed guest memory accesses. A hit on the page table goes straight to
//! the main-memory arena; a miss takes the slow path. The `*_via` accessors
//! hand a miss to a [`Fallback`] supplied by the peripheral layer; the plain
//! accessors use [`NoDevice`], under which unmapped reads give zero and
//! unmapped stores are dropped.
use vstd::prelude::*;

use crate::bytes::{le16, le32};
use crate::core_impl::{main_entry, mirrored, Core, Engine, MAIN_MEMORY_SIZE};
use crate::cartridge::MAIN_MEMORY_START;
use crate::masks::{self, Attr};
use crate::ptrs::{lookup, page_of, PageEntry, PG_SIZE};

verus! {

/// In-page offset of a byte access.
pub open spec fn off8(adr: u32) -> int {
    (adr & 0x3fff) as int
}

/// In-page offset of a half-word access, clamped down to alignment.
pub open spec fn off16(adr: u32) -> int {
    (adr & 0x3ffe) as int
}

/// In-page offset of a word access, clamped down to alignment.
pub open spec fn off32(adr: u32) -> int {
    (adr & 0x3ffc) as int
}

/// The byte a guest read of `adr` gives.
pub open spec fn read8_value(t: Seq<PageEntry>, m: Seq<u8>, adr: u32) -> u8 {
    match lookup(t, adr, masks::R) {
        Some(b) => m[b + off8(adr)],
        None => 0,
    }
}

/// The half-word a guest read of `adr` gives.
pub open spec fn read16_value(t: Seq<PageEntry>, m: Seq<u8>, adr: u32) -> u16 {
    match lookup(t, adr, masks::R) {
        Some(b) => le16(m, b + off16(adr)) as u16,
        None => 0,
    }
}

/// The word a guest read of `adr` gives.
pub open spec fn read32_value(t: Seq<PageEntry>, m: Seq<u8>, adr: u32) -> u32 {
    match lookup(t, adr, masks::R) {
        Some(b) => le32(m, b + off32(adr)) as u32,
        None => 0,
    }
}

/// The arena after a guest byte store of `v` at `adr`.
pub open spec fn write8_mem(t: Seq<PageEntry>, m: Seq<u8>, adr: u32, v: u8) -> Seq<u8> {
    match lookup(t, adr, masks::W_8) {
        Some(b) => m.update(b + off8(adr), v),
        None => m,
    }
}

/// The arena after a guest half-word store of `v` at `adr`, little-endian.
pub open spec fn write16_mem(t: Seq<PageEntry>, m: Seq<u8>, adr: u32, v: u16) -> Seq<u8> {
    match lookup(t, adr, masks::W_16_32) {
        Some(b) => {
            let o = b + off16(adr);
            m.update(o, (v % 256) as u8).update(o + 1, (v / 256) as u8)
        },
        None => m,
    }
}

/// The arena after a guest word store of `v` at `adr`, little-endian.
pub open spec fn write32_mem(t: Seq<PageEntry>, m: Seq<u8>, adr: u32, v: u32) -> Seq<u8> {
    match lookup(t, adr, masks::W_16_32) {
        Some(b) => {
            let o = b + off32(adr);
            m.update(o, (v % 256) as u8).update(o + 1, ((v / 256) % 256) as u8).update(
                o + 2,
                ((v / 65536) % 256) as u8,
            ).update(o + 3, (v / 16777216) as u8)
        },
        None => m,
    }
}

pub(crate) proof fn lemma_offsets(adr: u32)
    ensures
        off8(adr) < PG_SIZE,
        off16(adr) + 1 < PG_SIZE,
        off32(adr) + 3 < PG_SIZE,
{
    assert((adr & 0x3fff) < 0x4000 && (adr & 0x3ffe) < 0x3fff && (adr & 0x3ffc) < 0x3ffd)
        by (bit_vector);
}

/// A slot that grants any permission is mapped, so its page lies in the arena.
proof fn lemma_hit_in_arena<E: Engine>(core: &Core<E>, adr: u32, mask: Attr)
    requires
        core.wf(),
        mask == masks::R || mask == masks::W_8 || mask == masks::W_16_32,
        lookup(core.table(), adr, mask).is_some(),
    ensures
        lookup(core.table(), adr, mask).unwrap() + PG_SIZE <= MAIN_MEMORY_SIZE,
{
    crate::ptrs::lemma_page_in_range(adr);
    let a = core.table()[crate::ptrs::page_of(adr)].attr;
    assert(a & mask != 0 ==> a != 0) by (bit_vector);
}

/// Reads a byte; a miss reads as zero.
pub fn read8<E: Engine>(core: &Core<E>, adr: u32) -> (r: u8)
    requires
        core.wf(),
    ensures
        r == read8_value(core.table(), core.mem(), adr),
{
    match core.arm9.bus_ptrs.read(adr) {
        Some(base) => {
            proof {
                lemma_offsets(adr);
                lemma_hit_in_arena(core, adr, masks::R);
            }
            core.main_memory[base + (adr & 0x3fff) as usize]
        },
        None => 0,
    }
}

/// Reads a little-endian half-word; a miss reads as zero.
pub fn read16<E: Engine>(core: &Core<E>, adr: u32) -> (r: u16)
    requires
        core.wf(),
    ensures
        r == read16_value(core.table(), core.mem(), adr),
{
    match core.arm9.bus_ptrs.read(adr) {
        Some(base) => {
            proof {
                lemma_offsets(adr);
                lemma_hit_in_arena(core, adr, masks::R);
            }
            let o = base + (adr & 0x3ffe) as usize;
            let b0 = core.main_memory[o] as u16;
            let b1 = core.main_memory[o + 1] as u16;
            b0 + b1 * 256
        },
        None => 0,
    }
}

/// Reads a little-endian word; a miss reads as zero.
pub fn read32<E: Engine>(core: &Core<E>, adr: u32) -> (r: u32)
    requires
        core.wf(),
    ensures
        r == read32_value(core.table(), core.mem(), adr),
{
    match core.arm9.bus_ptrs.read(adr) {
        Some(base) => {
            proof {
                lemma_offsets(adr);
                lemma_hit_in_arena(core, adr, masks::R);
            }
            let o = base + (adr & 0x3ffc) as usize;
            let b0 = core.main_memory[o] as u32;
            let b1 = core.main_memory[o + 1] as u32;
            let b2 = core.main_memory[o + 2] as u32;
            let b3 = core.main_memory[o + 3] as u32;
            b0 + b1 * 256 + b2 * 65536 + b3 * 16777216
        },
        None => 0,
    }
}

/// Stores a byte; a miss is dropped.
pub fn write8<E: Engine>(core: &mut Core<E>, adr: u32, val: u8)
    requires
        old(core).wf(),
    ensures
        final(core).wf(),
        final(core).mem() == write8_mem(old(core).table(), old(core).mem(), adr, val),
        final(core).arm9 == old(core).arm9,
{
    match core.arm9.bus_ptrs.write8(adr) {
        Some(base) => {
            proof {
                lemma_offsets(adr);
                lemma_hit_in_arena(core, adr, masks::W_8);
            }
            core.main_memory.set(base + (adr & 0x3fff) as usize, val);
        },
        None => {},
    }
}

/// Stores a little-endian half-word; a miss is dropped.
pub fn write16<E: Engine>(core: &mut Core<E>, adr: u32, val: u16)
    requires
        old(core).wf(),
    ensures
        final(core).wf(),
        final(core).mem() == write16_mem(old(core).table(), old(core).mem(), adr, val),
        final(core).arm9 == old(core).arm9,
{
    match core.arm9.bus_ptrs.write32_16(adr) {
        Some(base) => {
            proof {
                lemma_offsets(adr);
                lemma_hit_in_arena(core, adr, masks::W_16_32);
            }
            let o = base + (adr & 0x3ffe) as usize;
            core.main_memory.set(o, (val % 256) as u8);
            core.main_memory.set(o + 1, (val / 256) as u8);
        },
        None => {},
    }
}

/// Stores a little-endian word; a miss is dropped.
pub fn write32<E: Engine>(core: &mut Core<E>, adr: u32, val: u32)
    requires
        old(core).wf(),
    ensures
        final(core).wf(),
        final(core).mem() == write32_mem(old(core).table(), old(core).mem(), adr, val),
        final(core).arm9 == old(core).arm9,
{
    match core.arm9.bus_ptrs.write32_16(adr) {
        Some(base) => {
            proof {
                lemma_offsets(adr);
                lemma_hit_in_arena(core, adr, masks::W_16_32);
            }
            let o = base + (adr & 0x3ffc) as usize;
            core.main_memory.set(o, (val % 256) as u8);
            core.main_memory.set(o + 1, ((val / 256) % 256) as u8);
            core.main_memory.set(o + 2, ((val / 65536) % 256) as u8);
            core.main_memory.set(o + 3, (val / 16777216) as u8);
        },
        None => {},
    }
}


/// The slow path behind the page table: what answers an access that the
/// table does not map with the needed permission (memory-mapped I/O, open
/// bus). Implemented by the peripheral layer; an observer for debugging
/// implements it without side effects.
pub trait Fallback {
    fn read8(&mut self, adr: u32) -> u8;

    fn read16(&mut self, adr: u32) -> u16;

    fn read32(&mut self, adr: u32) -> u32;

    fn write8(&mut self, adr: u32, val: u8);

    fn write16(&mut self, adr: u32, val: u16);

    fn write32(&mut self, adr: u32, val: u32);
}

/// A slow path with nothing behind it: reads give zero, stores are dropped.
pub struct NoDevice;

impl Fallback for NoDevice {
    fn read8(&mut self, _adr: u32) -> u8 {
        0
    }

    fn read16(&mut self, _adr: u32) -> u16 {
        0
    }

    fn read32(&mut self, _adr: u32) -> u32 {
        0
    }

    fn write8(&mut self, _adr: u32, _val: u8) {
    }

    fn write16(&mut self, _adr: u32, _val: u16) {
    }

    fn write32(&mut self, _adr: u32, _val: u32) {
    }
}

/// Reads a byte; a miss is answered by `io`.
pub fn read8_via<E: Engine, F: Fallback>(core: &Core<E>, io: &mut F, adr: u32) -> (r: u8)
    requires
        core.wf(),
    ensures
        lookup(core.table(), adr, masks::R) is Some ==> r == read8_value(
            core.table(),
            core.mem(),
            adr,
        ) && *final(io) == *old(io),
{
    match core.arm9.bus_ptrs.read(adr) {
        Some(_) => read8(core, adr),
        None => io.read8(adr),
    }
}

/// Reads a little-endian half-word; a miss is answered by `io`.
pub fn read16_via<E: Engine, F: Fallback>(core: &Core<E>, io: &mut F, adr: u32) -> (r: u16)
    requires
        core.wf(),
    ensures
        lookup(core.table(), adr, masks::R) is Some ==> r == read16_value(
            core.table(),
            core.mem(),
            adr,
        ) && *final(io) == *old(io),
{
    match core.arm9.bus_ptrs.read(adr) {
        Some(_) => read16(core, adr),
        None => io.read16(adr),
    }
}

/// Reads a little-endian word; a miss is answered by `io`.
pub fn read32_via<E: Engine, F: Fallback>(core: &Core<E>, io: &mut F, adr: u32) -> (r: u32)
    requires
        core.wf(),
    ensures
        lookup(core.table(), adr, masks::R) is Some ==> r == read32_value(
            core.table(),
            core.mem(),
            adr,
        ) && *final(io) == *old(io),
{
    match core.arm9.bus_ptrs.read(adr) {
        Some(_) => read32(core, adr),
        None => io.read32(adr),
    }
}

/// Stores a byte; a miss goes to `io` and leaves main memory as it is.
pub fn write8_via<E: Engine, F: Fallback>(core: &mut Core<E>, io: &mut F, adr: u32, val: u8)
    requires
        old(core).wf(),
    ensures
        final(core).wf(),
        final(core).mem() == write8_mem(old(core).table(), old(core).mem(), adr, val),
        final(core).arm9 == old(core).arm9,
        lookup(old(core).table(), adr, masks::W_8) is Some ==> *final(io) == *old(io),
{
    match core.arm9.bus_ptrs.write8(adr) {
        Some(_) => write8(core, adr, val),
        None => io.write8(adr, val),
    }
}

/// Stores a little-endian half-word; a miss goes to `io` and leaves main
/// memory as it is.
pub fn write16_via<E: Engine, F: Fallback>(core: &mut Core<E>, io: &mut F, adr: u32, val: u16)
    requires
        old(core).wf(),
    ensures
        final(core).wf(),
        final(core).mem() == write16_mem(old(core).table(), old(core).mem(), adr, val),
        final(core).arm9 == old(core).arm9,
        lookup(old(core).table(), adr, masks::W_16_32) is Some ==> *final(io) == *old(io),
{
    match core.arm9.bus_ptrs.write32_16(adr) {
        Some(_) => write16(core, adr, val),
        None => io.write16(adr, val),
    }
}

/// Stores a little-endian word; a miss goes to `io` and leaves main memory as
/// it is.
pub fn write32_via<E: Engine, F: Fallback>(core: &mut Core<E>, io: &mut F, adr: u32, val: u32)
    requires
        old(core).wf(),
    ensures
        final(core).wf(),
        final(core).mem() == write32_mem(old(core).table(), old(core).mem(), adr, val),
        final(core).arm9 == old(core).arm9,
        lookup(old(core).table(), adr, masks::W_16_32) is Some ==> *final(io) == *old(io),
{
    match core.arm9.bus_ptrs.write32_16(adr) {
        Some(_) => write32(core, adr, val),
        None => io.write32(adr, val),
    }
}

proof fn lemma_word_bytes(v: u32)
    ensures
        v == (v % 256) as u8 + 256 * ((v / 256) % 256) as u8 + 65536 * ((v / 65536) % 256) as u8
            + 16777216 * (v / 16777216) as u8,
{
    assert(v == v % 256 + 256 * ((v / 256) % 256) + 65536 * ((v / 65536) % 256) + 16777216 * (v
        / 16777216)) by (nonlinear_arith);
}

/// Where an address of the main-memory window lands in the arena.
proof fn lemma_window_slot(t: Seq<PageEntry>, k: u32, n: u32)
    requires
        mirrored(t),
        k < 0x40_0000,
        n <= 3,
    ensures
        ({
            let a = (MAIN_MEMORY_START + k + n * 0x40_0000) as u32;
            &&& page_of(a) == 0x800 + n * 0x100 + k / 0x4000
            &&& t[page_of(a)] == main_entry(0x800 + k / 0x4000)
            &&& off8(a) == k % 0x4000
            &&& off16(a) == k % 0x4000 - k % 2
            &&& off32(a) == k % 0x4000 - k % 4
        }),
{
    let a = (MAIN_MEMORY_START + k + n * 0x40_0000) as u32;
    assert(a >> 14 == 0x800 + n * 0x100 + k / 0x4000 && a & 0x3fff == k % 0x4000 && a & 0x3ffe
        == k % 0x4000 - k % 2 && a & 0x3ffc == k % 0x4000 - k % 4) by (bit_vector)
        requires
            k < 0x40_0000,
            n <= 3,
            a == 0x0200_0000u32 + k + n * 0x40_0000u32,
    ;
    let p = page_of(a);
    assert(t[p] == main_entry(p));
    assert((p - 0x800) % 0x100 == (k / 0x4000) as int);
}

/// The main-memory window holds four copies of the arena: a value stored at
/// `start + k` is read back at `start + k + n * 4 MiB`, for each width and
/// each of the four copies (`n` from 0 to 3).
pub proof fn lemma_main_memory_mirrors(
    t: Seq<PageEntry>,
    m: Seq<u8>,
    k: u32,
    n: u32,
    b: u8,
    h: u16,
    w: u32,
)
    requires
        mirrored(t),
        m.len() == MAIN_MEMORY_SIZE,
        k < 0x40_0000,
        n <= 3,
    ensures
        read8_value(
            t,
            write8_mem(t, m, (MAIN_MEMORY_START + k) as u32, b),
            (MAIN_MEMORY_START + k + n * 0x40_0000) as u32,
        ) == b,
        read16_value(
            t,
            write16_mem(t, m, (MAIN_MEMORY_START + k) as u32, h),
            (MAIN_MEMORY_START + k + n * 0x40_0000) as u32,
        ) == h,
        read32_value(
            t,
            write32_mem(t, m, (MAIN_MEMORY_START + k) as u32, w),
            (MAIN_MEMORY_START + k + n * 0x40_0000) as u32,
        ) == w,
{
    lemma_window_slot(t, k, 0);
    lemma_window_slot(t, k, n);
    lemma_word_bytes(w);
    let a = (MAIN_MEMORY_START + k) as u32;
    let p = page_of(a);
    assert(7u8 & 1u8 != 0 && 7u8 & 2u8 != 0 && 7u8 & 4u8 != 0) by (bit_vector);
    assert(t[p].attr == 7);
    assert(t[p].base + PG_SIZE <= MAIN_MEMORY_SIZE) by {
        assert(k / 0x4000 < 0x100);
    }
    assert(h == (h % 256) as u8 + 256 * (h / 256) as u8);
}


/// Where an address of the main-memory window lands in the arena: reads and
/// byte stores hit, at the address's distance from the window start modulo
/// the arena size.
pub proof fn lemma_window_hit(t: Seq<PageEntry>, a: u32)
    requires
        mirrored(t),
        MAIN_MEMORY_START <= a < MAIN_MEMORY_START + 4 * 0x40_0000,
    ensures
        lookup(t, a, masks::R) == lookup(t, a, masks::W_8),
        lookup(t, a, masks::R) is Some,
        lookup(t, a, masks::R).unwrap() + off8(a) == (a - MAIN_MEMORY_START) % 0x40_0000,
{
    let d = (a - MAIN_MEMORY_START) as u32;
    let k = (d % 0x40_0000) as u32;
    let n = (d / 0x40_0000) as u32;
    assert(a == MAIN_MEMORY_START + k + n * 0x40_0000);
    lemma_window_slot(t, k, n);
    assert(7u8 & 1u8 != 0 && 7u8 & 2u8 != 0) by (bit_vector);
    assert((k / 0x4000) % 0x100 == k / 0x4000);
    assert((k / 0x4000) * 0x4000 + k % 0x4000 == k);
}

} // verus!
