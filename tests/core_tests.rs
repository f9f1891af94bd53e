use vargds_core::arm9::Arm9;
use vargds_core::bus::{self, Fallback, NoDevice};
use vargds_core::cartridge::{Cartridge, CART_HEADER_LEN};
use vargds_core::NDSInterp;
use vargds_core::error::Error;
use vargds_core::interpreter::{
    cond_bits, extract_instr_bits, is_cond_instr, run, step, Handler, Interpreter,
};
use vargds_core::masks;
use vargds_core::psr::Psr;
use vargds_core::ptrs::{adr_to_page, PtrTable, ENTRIES};

fn put32(img: &mut [u8], off: usize, v: u32) {
    img[off..off + 4].copy_from_slice(&v.to_le_bytes());
}

/// A well-formed image: ARM9 ROM of 0x100 bytes at 0x4000, loaded at
/// 0x02000000; ARM7 ROM of 0x10 bytes at 0x5000, loaded at 0x02100000.
fn good_image() -> Vec<u8> {
    let mut img = vec![0u8; 0x6000];
    put32(&mut img, 0x20, 0x4000);
    put32(&mut img, 0x24, 0x0200_0000);
    put32(&mut img, 0x28, 0x0200_0000);
    put32(&mut img, 0x2c, 0x100);
    put32(&mut img, 0x30, 0x5000);
    put32(&mut img, 0x34, 0x0210_0000);
    put32(&mut img, 0x38, 0x0210_0000);
    put32(&mut img, 0x3c, 0x10);
    for i in 0..0x100 {
        img[0x4000 + i] = (i as u8).wrapping_mul(7).wrapping_add(3);
    }
    for i in 0..0x10 {
        img[0x5000 + i] = 0xa0 + i as u8;
    }
    img
}

fn message(e: Error) -> String {
    match e {
        Error::Cartridge(m) => m,
    }
}

fn validate(img: &[u8]) -> Result<(), String> {
    Cartridge::new(img).map_err(message)?.validate().map_err(message)
}

#[test]
fn psr_flags_set_and_get() {
    let mut p = Psr::new();
    assert_eq!(p.raw(), 0);
    p.c_set(true);
    assert_eq!(p.raw(), 1 << 29);
    assert!(p.c() && !p.z() && !p.n() && !p.v());
    p.n_set(true);
    p.z_set(true);
    p.v_set(true);
    assert_eq!(p.raw(), 0xf000_0000);
    p.z_set(false);
    assert_eq!(p.raw(), 0xb000_0000);
    assert!(!p.z() && p.n() && p.c() && p.v());
}

#[test]
fn condition_codes_follow_the_truth_table() {
    let mut p = Psr::new();
    p.z_set(true);
    assert!(p.condition_passed(0)); // EQ
    assert!(!p.condition_passed(1)); // NE
    assert!(p.condition_passed(9)); // LS
    assert!(!p.condition_passed(8)); // HI
    assert!(p.condition_passed(14)); // AL
    let mut q = Psr::new();
    q.n_set(true);
    assert!(q.condition_passed(11)); // LT
    assert!(!q.condition_passed(10)); // GE
    assert!(!q.condition_passed(12)); // GT
    q.v_set(true);
    assert!(q.condition_passed(10));
    assert!(q.condition_passed(12));
}

#[test]
fn program_counter_reads_four_ahead() {
    let mut a = Arm9::new();
    a.gpr_set(15, 0x1000);
    assert_eq!(a.gpr(15), 0x1004);
    assert_eq!(a.pc(), 0x1004);
    a.pc_set(0xffff_fffe);
    assert_eq!(a.pc(), 2);
    for i in 0..15 {
        a.gpr_set(i, 0xdead_0000 + i as u32);
        assert_eq!(a.gpr(i), 0xdead_0000 + i as u32);
    }
    a.lr_set(77);
    assert_eq!(a.gpr(14), 77);
}

#[test]
fn register_index_wraps_modulo_sixteen() {
    let mut a = Arm9::new();
    a.gpr_set(16 + 3, 9);
    assert_eq!(a.gpr(3), 9);
    assert_eq!(a.gpr(35), 9);
}

#[test]
fn page_table_map_and_unmap() {
    let mut t = PtrTable::new();
    assert_eq!(PtrTable::adr_to_page(0x0200_4000), 0x801);
    assert_eq!(adr_to_page(0xffff_ffff), ENTRIES - 1);
    assert_eq!(t.read(0x0200_4123), None);
    t.map(0x801, masks::R | masks::W_8, 0x8000);
    assert_eq!(t.read(0x0200_4123), Some(0x8000));
    assert_eq!(t.write8(0x0200_4123), Some(0x8000));
    assert_eq!(t.write32_16(0x0200_4123), None);
    assert_eq!(t.read(0x0200_8000), None);
    t.unmap(0x801);
    assert_eq!(t.read(0x0200_4123), None);
    assert_eq!(t.write8(0x0200_7fff), None);
    assert_eq!(t.write32_16(0x0200_4000), None);
}

#[test]
fn bus_reads_little_endian_with_aligned_offsets() {
    let mut core = NDSInterp::new();
    bus::write32(&mut core, 0x0200_0010, 0x1122_3344);
    assert_eq!(core.main_memory[0x10..0x14], [0x44, 0x33, 0x22, 0x11]);
    assert_eq!(bus::read32(&core, 0x0200_0010), 0x1122_3344);
    // misaligned accesses are clamped to the access width.
    assert_eq!(bus::read32(&core, 0x0200_0013), 0x1122_3344);
    assert_eq!(bus::read16(&core, 0x0200_0013), 0x1122);
    assert_eq!(bus::read16(&core, 0x0200_0010), 0x3344);
    assert_eq!(bus::read8(&core, 0x0200_0012), 0x22);
    bus::write16(&mut core, 0x0200_0021, 0xbeef);
    assert_eq!(core.main_memory[0x20..0x22], [0xef, 0xbe]);
    bus::write8(&mut core, 0x0200_0030, 0x5a);
    assert_eq!(bus::read8(&core, 0x0200_0030), 0x5a);
}

#[test]
fn unmapped_addresses_miss() {
    let mut core = NDSInterp::new();
    assert_eq!(bus::read32(&core, 0x0400_0000), 0);
    bus::write32(&mut core, 0x0400_0000, 0xffff_ffff);
    bus::write8(&mut core, 0x0100_0000, 0xff);
    assert_eq!(bus::read32(&core, 0x0400_0000), 0);
    assert!(core.main_memory.iter().all(|&b| b == 0));
    core.arm9.bus_ptrs.unmap(0x800);
    assert_eq!(bus::read8(&core, 0x0200_0000), 0);
}

#[test]
fn main_memory_is_mirrored_four_times() {
    let mut core = NDSInterp::new();
    for &k in &[0u32, 0x1234, 0x3f_fffc] {
        let v = 0xcafe_0000 | k;
        bus::write32(&mut core, 0x0200_0000 + k, v);
        for n in 1..4u32 {
            assert_eq!(bus::read32(&core, 0x0200_0000 + k + 0x40_0000 * n), v);
        }
    }
    bus::write8(&mut core, 0x02c0_0005, 0x77);
    assert_eq!(bus::read8(&core, 0x0200_0005), 0x77);
    assert_eq!(bus::read32(&core, 0x0300_0000), 0);
}

#[test]
fn cartridge_too_small() {
    let img = vec![0u8; CART_HEADER_LEN - 1];
    let e = Cartridge::new(&img).err().map(message).unwrap();
    assert_eq!(
        e,
        "the cartridge is too small, has to be at least '200' bytes but got '1ff'"
    );
    assert!(Cartridge::new(&vec![0u8; CART_HEADER_LEN]).is_ok());
}

#[test]
fn cartridge_header_fields() {
    let img = good_image();
    let c = Cartridge::new(&img).ok().unwrap();
    let h = c.header();
    assert_eq!(h.as_ref().len(), CART_HEADER_LEN);
    assert_eq!(h.arm9_rom_offset(), 0x4000);
    assert_eq!(h.arm9_entry_address(), 0x0200_0000);
    assert_eq!(h.arm9_ram_address(), 0x0200_0000);
    assert_eq!(h.arm9_size(), 0x100);
    assert_eq!(h.arm7_rom_offset(), 0x5000);
    assert_eq!(h.arm7_entry_address(), 0x0210_0000);
    assert_eq!(h.arm7_ram_address(), 0x0210_0000);
    assert_eq!(h.arm7_size(), 0x10);
    assert_eq!(h.game_title(), &img[0..12]);
    assert_eq!(c.arm9_rom(), &img[0x4000..0x4100]);
    assert_eq!(c.arm7_rom(), &img[0x5000..0x5010]);
    assert!(c.roms_in_bounds());
    assert_eq!(c.validate().is_ok(), true);
}

#[test]
fn arm9_entry_just_below_window_fails() {
    let mut img = good_image();
    put32(&mut img, 0x24, 0x01ff_ffff);
    assert_eq!(
        validate(&img).unwrap_err(),
        "ARM9 entry address outside of '2000000..23bfe00', got '1ffffff'"
    );
    put32(&mut img, 0x24, 0x0200_0000);
    assert!(validate(&img).is_ok());
}

#[test]
fn arm7_rom_offset_minimum_and_alignment() {
    let mut img = good_image();
    put32(&mut img, 0x30, 0x3000);
    assert_eq!(
        validate(&img).unwrap_err(),
        "ARM7 ROM offset below '4000', got '3000'"
    );
    put32(&mut img, 0x30, 0x4000);
    assert!(validate(&img).is_ok());
    put32(&mut img, 0x30, 0x4500);
    assert_eq!(
        validate(&img).unwrap_err(),
        "ARM7 ROM offset not aligned to '1000', got '4500'"
    );
}

#[test]
fn every_validation_error() {
    let cases: Vec<(usize, u32, &str)> = vec![
        (0x28, 0x023b_fe00, "ARM9 RAM address outside of '2000000..23bfe00', got '23bfe00'"),
        (0x2c, 0x003b_fe01, "ARM9 ROM size larger than '3bfe00', got '3bfe01'"),
        (
            0x34,
            0x0380_7e00,
            "ARM7 entry address outside of '2000000..23bfe00' and '37f8000..3807e00', got '3807e00'",
        ),
        (
            0x38,
            0x0300_0000,
            "ARM7 RAM address outside of '2000000..23bfe00' and '37f8000..3807e00', got '3000000'",
        ),
        (0x3c, 0x003b_fe01, "ARM7 ROM size larger than '3bfe00', got '3bfe01'"),
        (0x20, 0x1000, "ARM9 ROM offset below '4000', got '1000'"),
        (0x20, 0x4800, "ARM9 ROM offset not aligned to '1000', got '4800'"),
    ];
    for (off, v, msg) in cases {
        let mut img = good_image();
        put32(&mut img, off, v);
        assert_eq!(validate(&img).unwrap_err(), msg);
    }
    // the second CPU's fast memory has a smaller size limit.
    let mut img = good_image();
    put32(&mut img, 0x38, 0x037f_8000);
    put32(&mut img, 0x3c, 0xfe01);
    assert_eq!(
        validate(&img).unwrap_err(),
        "ARM7 ROM size larger than 'fe00', got 'fe01'"
    );
    // a fast-memory load lies outside of main memory.
    put32(&mut img, 0x3c, 0x10);
    assert_eq!(
        validate(&img).unwrap_err(),
        "ARM7 ROM would load outside of main memory, load end '37f8010'"
    );
    // entry checks come before size checks.
    let mut img = good_image();
    put32(&mut img, 0x24, 0);
    put32(&mut img, 0x2c, 0xffff_ffff);
    assert_eq!(
        validate(&img).unwrap_err(),
        "ARM9 entry address outside of '2000000..23bfe00', got '0'"
    );
}

#[test]
fn load_rom_round_trip() {
    let img = good_image();
    let mut core = NDSInterp::new();
    assert!(core.load_rom(&img).is_ok());
    for i in 0..0x100u32 {
        assert_eq!(bus::read8(&core, 0x0200_0000 + i), img[0x4000 + i as usize]);
    }
    for i in 0..0x10u32 {
        assert_eq!(bus::read8(&core, 0x0210_0000 + i), img[0x5000 + i as usize]);
    }
    assert_eq!(core.main_memory[0x3f_fe00..0x40_0000], img[0..0x200]);
    assert_eq!(core.arm9.gpr[15], 0x0200_0000);
    assert_eq!(core.arm9.pc(), 0x0200_0004);
}

#[test]
fn load_rom_rejects_without_change() {
    let mut img = good_image();
    put32(&mut img, 0x2c, 0x0040_0000);
    let mut core = NDSInterp::new();
    let e = core.load_rom(&img).err().unwrap();
    assert_eq!(
        e.to_string(),
        "cartridge error: ARM9 ROM size larger than '3bfe00', got '400000'"
    );
    assert!(core.main_memory.iter().all(|&b| b == 0));
    assert_eq!(core.arm9.gpr[15], 0);
    assert!(core.load_rom(&[0u8; 16]).is_err());
}

#[test]
fn load_unvalidated_rom_skips_checks() {
    let mut img = good_image();
    put32(&mut img, 0x24, 0x0100_0000);
    let mut core = NDSInterp::new();
    assert!(core.load_rom(&img).is_err());
    assert!(core.load_unvalidated_rom(&img).is_ok());
    assert_eq!(core.arm9.gpr[15], 0x0100_0000);
    assert_eq!(bus::read8(&core, 0x0200_0001), img[0x4001]);
}

#[test]
fn decode_fields() {
    let w = 0xea00_0010u32; // B with condition AL
    assert!(is_cond_instr(w));
    assert_eq!(cond_bits(w), 0xe);
    assert_eq!(extract_instr_bits(w), 0xa01);
    assert!(!is_cond_instr(0xfa00_0000));
    assert_eq!(extract_instr_bits(0xe000_0090), 0x009);
}

#[test]
fn dispatch_is_deterministic() {
    let interp = Interpreter::new();
    for &w in &[0xea00_0010u32, 0xe000_0090, 0xfa00_0001, 0xe591_0004, 0xef00_0000] {
        assert_eq!(interp.lookup(w), interp.lookup(w));
        assert_eq!(extract_instr_bits(w), extract_instr_bits(w));
    }
    assert_eq!(interp.lookup(0xea00_0010), Handler::Branch);
    assert_eq!(interp.lookup(0xeb00_0010), Handler::BranchLink);
    assert_eq!(interp.lookup(0xe000_0090), Handler::Multiply);
    assert_eq!(interp.lookup(0xe591_0004), Handler::SingleTransfer);
    assert_eq!(interp.lookup(0xef00_0000), Handler::SoftwareInterrupt);
    assert_eq!(interp.lookup(0xfa00_0001), Handler::BranchLinkExchange);
    assert_eq!(interp.lookup(0xf000_0000), Handler::Undefined);
}

#[test]
fn unconditional_instruction_ignores_flags() {
    let interp = Interpreter::new();
    for flags in [0u32, 0xf000_0000, 0x4000_0000] {
        let mut core = NDSInterp::new();
        bus::write32(&mut core, 0x0200_0000, 0xfa00_0001);
        core.arm9.gpr[15] = 0x0200_0000;
        core.arm9.cpsr = Psr(flags);
        assert_eq!(step(&mut core, &interp), Some(Handler::BranchLinkExchange));
        assert_eq!(core.arm9.gpr[15], 0x0200_0004);
    }
}

#[test]
fn step_branches_and_links() {
    let interp = Interpreter::new();
    let mut core = NDSInterp::new();
    // BL +0x40 at 0x02000100: target = 0x02000100 + 8 + 0x40.
    bus::write32(&mut core, 0x0200_0100, 0xeb00_0010);
    core.arm9.pc_set(0x0200_0100);
    assert!(core.check_cond(0xe));
    assert_eq!(step(&mut core, &interp), Some(Handler::BranchLink));
    assert_eq!(core.arm9.gpr[15], 0x0200_0148);
    assert_eq!(core.arm9.gpr[14], 0x0200_0104);
    // B -8 branches back to itself.
    bus::write32(&mut core, 0x0200_0148, 0xeaff_fffe);
    assert_eq!(step(&mut core, &interp), Some(Handler::Branch));
    assert_eq!(core.arm9.gpr[15], 0x0200_0148);
}

#[test]
fn failed_condition_skips_instruction() {
    let interp = Interpreter::new();
    let mut core = NDSInterp::new();
    // BEQ with Z clear.
    bus::write32(&mut core, 0x0200_0000, 0x0a00_0010);
    core.arm9.pc_set(0x0200_0000);
    assert!(!core.check_cond(0));
    assert_eq!(step(&mut core, &interp), None);
    assert_eq!(core.arm9.gpr[15], 0x0200_0004);
    core.arm9.cpsr.z_set(true);
    core.arm9.pc_set(0x0200_0000);
    assert_eq!(step(&mut core, &interp), Some(Handler::Branch));
    assert_eq!(core.arm9.gpr[15], 0x0200_0048);
}

#[test]
fn fetch_reads_and_advances() {
    let mut core = NDSInterp::new();
    bus::write32(&mut core, 0x0200_0200, 0x1234_5678);
    core.arm9.pc_set(0x0200_0200);
    assert_eq!(core.fetch(), 0x1234_5678);
    assert_eq!(core.arm9.gpr[15], 0x0200_0204);
}

#[test]
fn run_executes_a_batch() {
    let interp = Interpreter::new();
    let mut core = NDSInterp::new();
    // an infinite loop: B to itself.
    bus::write32(&mut core, 0x0200_0000, 0xeaff_fffe);
    core.arm9.pc_set(0x0200_0000);
    run(&mut core, &interp);
    assert_eq!(core.arm9.gpr[15], 0x0200_0000);
}

#[test]
fn error_to_string_prefixes() {
    let e = Error::Cartridge(String::from("x"));
    assert_eq!(e.to_string(), "cartridge error: x");
}

/// A slow path that records what reached it.
struct Recorder {
    reads: Vec<u32>,
    writes: Vec<(u32, u32)>,
}

impl Fallback for Recorder {
    fn read8(&mut self, adr: u32) -> u8 {
        self.reads.push(adr);
        0xab
    }

    fn read16(&mut self, adr: u32) -> u16 {
        self.reads.push(adr);
        0xabcd
    }

    fn read32(&mut self, adr: u32) -> u32 {
        self.reads.push(adr);
        0x0123_4567
    }

    fn write8(&mut self, adr: u32, val: u8) {
        self.writes.push((adr, val as u32));
    }

    fn write16(&mut self, adr: u32, val: u16) {
        self.writes.push((adr, val as u32));
    }

    fn write32(&mut self, adr: u32, val: u32) {
        self.writes.push((adr, val));
    }
}

#[test]
fn misses_reach_the_fallback_once() {
    let mut core = NDSInterp::new();
    let mut io = Recorder { reads: vec![], writes: vec![] };
    assert_eq!(bus::read8_via(&core, &mut io, 0x0400_0000), 0xab);
    assert_eq!(bus::read16_via(&core, &mut io, 0x0400_0002), 0xabcd);
    assert_eq!(bus::read32_via(&core, &mut io, 0x0400_0004), 0x0123_4567);
    assert_eq!(io.reads, vec![0x0400_0000, 0x0400_0002, 0x0400_0004]);
    bus::write8_via(&mut core, &mut io, 0x0400_0010, 1);
    bus::write16_via(&mut core, &mut io, 0x0400_0012, 2);
    bus::write32_via(&mut core, &mut io, 0x0400_0014, 3);
    assert_eq!(io.writes, vec![(0x0400_0010, 1), (0x0400_0012, 2), (0x0400_0014, 3)]);
    assert!(core.main_memory.iter().all(|&b| b == 0));
}

#[test]
fn hits_do_not_reach_the_fallback() {
    let mut core = NDSInterp::new();
    let mut io = Recorder { reads: vec![], writes: vec![] };
    bus::write32_via(&mut core, &mut io, 0x0200_0040, 0xdead_beef);
    bus::write16_via(&mut core, &mut io, 0x0200_0044, 0x1234);
    bus::write8_via(&mut core, &mut io, 0x0200_0046, 0x56);
    assert_eq!(bus::read32_via(&core, &mut io, 0x0240_0040), 0xdead_beef);
    assert_eq!(bus::read16_via(&core, &mut io, 0x0280_0044), 0x1234);
    assert_eq!(bus::read8_via(&core, &mut io, 0x02c0_0046), 0x56);
    assert!(io.reads.is_empty() && io.writes.is_empty());
    let mut quiet = NoDevice;
    assert_eq!(bus::read32_via(&core, &mut quiet, 0x0500_0000), 0);
}

#[test]
fn load_keeps_header_where_no_rom_lands() {
    let img = good_image();
    let mut a = NDSInterp::new();
    let mut b = NDSInterp::new();
    assert!(a.load_rom(&img).is_ok());
    assert!(b.load_unvalidated_rom(&img).is_ok());
    assert_eq!(a.main_memory, b.main_memory);
    assert_eq!(a.arm9.gpr, b.arm9.gpr);
    // an ARM9 ROM that reaches into the header's place overwrites it there.
    let mut img = good_image();
    img.resize(0x4000 + 0x4_fe80, 0x5c);
    put32(&mut img, 0x28, 0x023b_0000);
    put32(&mut img, 0x2c, 0x4_fe80);
    let mut c = NDSInterp::new();
    assert!(c.load_rom(&img).is_ok());
    assert_eq!(c.main_memory[0x3f_fe00..0x3f_fe80], img[0x53e00..0x53e80]);
    assert_eq!(c.main_memory[0x3f_fe80..0x40_0000], img[0x80..0x200]);
}

#[test]
fn run_executes_exactly_one_batch() {
    let interp = Interpreter::new();
    let mut core = NDSInterp::new();
    // words of zero are data-processing instructions that change nothing here,
    // so the program counter moves on by 4 per step.
    core.arm9.pc_set(0x0200_0000);
    run(&mut core, &interp);
    assert_eq!(core.arm9.gpr[15], 0x0200_0000u32.wrapping_add(4 * 100_000));
}
