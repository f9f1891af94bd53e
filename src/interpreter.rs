//! Fetch, decode, condition gating and table dispatch of the first CPU.
use vstd::prelude::*;

use crate::arm9::{add4, reg_read, reg_write, LR, PC};
use crate::bus::{self, read32_value};
use crate::core_impl::{Core, Engine};
use crate::psr::Psr;
use crate::ptrs::PageEntry;

verus! {

/// Number of buckets in each dispatch table.
pub const LUT_LEN: usize = 4096;

/// The condition field of an instruction word.
pub open spec fn cond_field(w: u32) -> u32 {
    w >> 28
}

/// Whether the word is in the conditional class (its condition field is
/// not the all-ones unconditional marker).
pub open spec fn is_cond_spec(w: u32) -> bool {
    w >> 28 != 0xf
}

/// The 12-bit bucket of a word: encoding bits 27..20 above bits 7..4.
pub open spec fn bucket_of(w: u32) -> u32 {
    ((w >> 16) & 0xff0) | ((w >> 4) & 0xf)
}

/// Whether the word is in the conditional class.
pub fn is_cond_instr(w: u32) -> (r: bool)
    ensures
        r == is_cond_spec(w),
{
    w >> 28 != 0xf
}

/// The condition field.
pub fn cond_bits(w: u32) -> (r: u32)
    ensures
        r == cond_field(w),
        r < 16,
{
    assert(w >> 28 < 16) by (bit_vector);
    w >> 28
}

/// The dispatch bucket.
pub fn extract_instr_bits(w: u32) -> (r: u32)
    ensures
        r == bucket_of(w),
        r < LUT_LEN,
{
    assert(((w >> 16) & 0xff0) | ((w >> 4) & 0xf) < 4096) by (bit_vector);
    ((w >> 16) & 0xff0) | ((w >> 4) & 0xf)
}

/// The behaviour a dispatch-table entry stands for.
#[derive(Clone, Copy, PartialEq, Eq, Structural, Debug)]
pub enum Handler {
    DataProcessing,
    Multiply,
    Swap,
    HalfwordTransfer,
    SingleTransfer,
    BlockTransfer,
    Branch,
    BranchLink,
    BranchLinkExchange,
    Coprocessor,
    SoftwareInterrupt,
    Undefined,
}

/// The handler of a bucket in the conditional table, by the architecture's
/// major opcode classes.
pub open spec fn cond_class(b: u32) -> Handler {
    let op = (b >> 9) & 7;
    let bit24 = (b >> 8) & 1;
    let low = b & 0xf;
    if op == 0 {
        if low == 9 {
            if bit24 == 0 {
                Handler::Multiply
            } else {
                Handler::Swap
            }
        } else if low & 9 == 9 {
            Handler::HalfwordTransfer
        } else {
            Handler::DataProcessing
        }
    } else if op == 1 {
        Handler::DataProcessing
    } else if op == 2 {
        Handler::SingleTransfer
    } else if op == 3 {
        if low & 1 == 1 {
            Handler::Undefined
        } else {
            Handler::SingleTransfer
        }
    } else if op == 4 {
        Handler::BlockTransfer
    } else if op == 5 {
        if bit24 == 1 {
            Handler::BranchLink
        } else {
            Handler::Branch
        }
    } else if op == 6 {
        Handler::Coprocessor
    } else if bit24 == 1 {
        Handler::SoftwareInterrupt
    } else {
        Handler::Coprocessor
    }
}

/// The handler of a bucket in the unconditional table: only the
/// exchanging branch-with-link is defined there.
pub open spec fn uncond_class(b: u32) -> Handler {
    if (b >> 9) & 7 == 5 {
        Handler::BranchLinkExchange
    } else {
        Handler::Undefined
    }
}

fn classify_cond(b: u32) -> (r: Handler)
    ensures
        r == cond_class(b),
{
    let op = (b >> 9) & 7;
    let bit24 = (b >> 8) & 1;
    let low = b & 0xf;
    if op == 0 {
        if low == 9 {
            if bit24 == 0 {
                Handler::Multiply
            } else {
                Handler::Swap
            }
        } else if low & 9 == 9 {
            Handler::HalfwordTransfer
        } else {
            Handler::DataProcessing
        }
    } else if op == 1 {
        Handler::DataProcessing
    } else if op == 2 {
        Handler::SingleTransfer
    } else if op == 3 {
        if low & 1 == 1 {
            Handler::Undefined
        } else {
            Handler::SingleTransfer
        }
    } else if op == 4 {
        Handler::BlockTransfer
    } else if op == 5 {
        if bit24 == 1 {
            Handler::BranchLink
        } else {
            Handler::Branch
        }
    } else if op == 6 {
        Handler::Coprocessor
    } else if bit24 == 1 {
        Handler::SoftwareInterrupt
    } else {
        Handler::Coprocessor
    }
}

fn classify_uncond(b: u32) -> (r: Handler)
    ensures
        r == uncond_class(b),
{
    if (b >> 9) & 7 == 5 {
        Handler::BranchLinkExchange
    } else {
        Handler::Undefined
    }
}

/// What a word selects under the given flags: nothing when it is
/// conditional and its condition fails, else its table entry.
pub open spec fn dispatch(w: u32, flags: Psr) -> Option<Handler> {
    if is_cond_spec(w) {
        if flags.passes(cond_field(w)) {
            Some(cond_class(bucket_of(w)))
        } else {
            None
        }
    } else {
        Some(uncond_class(bucket_of(w)))
    }
}

/// The signed branch displacement of a word, in bytes.
pub open spec fn branch_offset(w: u32) -> int {
    let imm = (w % 0x100_0000) as int;
    if imm >= 0x80_0000 {
        (imm - 0x100_0000) * 4
    } else {
        imm * 4
    }
}

/// Where a branch lands, given the program counter as instructions read it.
pub open spec fn branch_target(pc: u32, w: u32) -> u32 {
    ((pc + branch_offset(w)) % 0x1_0000_0000) as u32
}

/// The registers after a handler ran on word `w`.
pub open spec fn after_exec(regs: Seq<u32>, h: Handler, w: u32) -> Seq<u32> {
    match h {
        Handler::Branch => reg_write(regs, PC, branch_target(reg_read(regs, PC), w)),
        Handler::BranchLink => {
            let target = branch_target(reg_read(regs, PC), w);
            reg_write(reg_write(regs, LR, regs[15]), PC, target)
        },
        _ => regs,
    }
}

/// The registers after one instruction: the word at the stored program
/// counter is fetched, the counter moves on by 4, and the selected handler
/// (if its condition passes) runs.
pub open spec fn step_regs(t: Seq<PageEntry>, m: Seq<u8>, flags: Psr, g: Seq<u32>) -> Seq<u32> {
    let w = read32_value(t, m, g[15]);
    let fetched = reg_write(g, PC, add4(g[15]));
    match dispatch(w, flags) {
        Some(h) => after_exec(fetched, h, w),
        None => fetched,
    }
}

/// The registers after `n` instructions.
pub open spec fn steps(t: Seq<PageEntry>, m: Seq<u8>, flags: Psr, g: Seq<u32>, n: nat) -> Seq<u32>
    decreases n,
{
    if n == 0 {
        g
    } else {
        step_regs(t, m, flags, steps(t, m, flags, g, (n - 1) as nat))
    }
}

/// The two dispatch tables, built once by classifying every bucket.
pub struct Interpreter {
    cond_lut: Vec<Handler>,
    uncond_lut: Vec<Handler>,
}

impl Interpreter {
    pub closed spec fn wf(&self) -> bool {
        &&& self.cond_lut@.len() == LUT_LEN
        &&& self.uncond_lut@.len() == LUT_LEN
        &&& forall|i: int| 0 <= i < LUT_LEN ==> #[trigger] self.cond_lut@[i] == cond_class(i as u32)
        &&& forall|i: int| 0 <= i < LUT_LEN ==> #[trigger] self.uncond_lut@[i] == uncond_class(i as u32)
    }

    /// The entry of bucket `b` in the conditional table.
    pub closed spec fn cond_entry(&self, b: int) -> Handler {
        self.cond_lut@[b]
    }

    /// The entry of bucket `b` in the unconditional table.
    pub closed spec fn uncond_entry(&self, b: int) -> Handler {
        self.uncond_lut@[b]
    }

    /// Builds both tables.
    pub fn new() -> (r: Self)
        ensures
            r.wf(),
            forall|i: int| 0 <= i < LUT_LEN ==> r.cond_entry(i) == cond_class(i as u32),
            forall|i: int| 0 <= i < LUT_LEN ==> r.uncond_entry(i) == uncond_class(i as u32),
    {
        let mut cond_lut: Vec<Handler> = Vec::new();
        let mut uncond_lut: Vec<Handler> = Vec::new();
        let mut i: usize = 0;
        while i < LUT_LEN
            invariant
                i <= LUT_LEN,
                cond_lut@.len() == i,
                uncond_lut@.len() == i,
                forall|j: int| 0 <= j < i ==> #[trigger] cond_lut@[j] == cond_class(j as u32),
                forall|j: int| 0 <= j < i ==> #[trigger] uncond_lut@[j] == uncond_class(j as u32),
            decreases LUT_LEN - i,
        {
            cond_lut.push(classify_cond(i as u32));
            uncond_lut.push(classify_uncond(i as u32));
            i = i + 1;
        }
        Interpreter { cond_lut, uncond_lut }
    }

    /// The table entry a word selects, ignoring its condition.
    pub fn lookup(&self, w: u32) -> (r: Handler)
        requires
            self.wf(),
        ensures
            is_cond_spec(w) ==> r == cond_class(bucket_of(w)),
            !is_cond_spec(w) ==> r == uncond_class(bucket_of(w)),
    {
        let index = extract_instr_bits(w) as usize;
        if is_cond_instr(w) {
            self.cond_lut[index]
        } else {
            self.uncond_lut[index]
        }
    }
}


impl Core<Interpreter> {
    /// Reads the word at the stored program counter and advances it by 4.
    pub fn fetch(&mut self) -> (r: u32)
        requires
            old(self).wf(),
        ensures
            r == read32_value(old(self).table(), old(self).mem(), old(self).arm9.gpr@[15]),
            final(self).arm9.gpr@ == reg_write(
                old(self).arm9.gpr@,
                PC,
                add4(old(self).arm9.gpr@[15]),
            ),
            final(self).arm9.cpsr == old(self).arm9.cpsr,
            final(self).arm9.bus_ptrs == old(self).arm9.bus_ptrs,
            final(self).main_memory == old(self).main_memory,
    {
        let pc = self.arm9.gpr[PC];
        let fetch = bus::read32(self, pc);
        self.arm9.pc_set(pc.wrapping_add(4));
        fetch
    }

    /// Whether a condition field passes under the current flags.
    pub fn check_cond(&self, cond_bits: u32) -> (r: bool)
        ensures
            r == self.arm9.cpsr.passes(cond_bits),
    {
        self.arm9.cpsr.condition_passed(cond_bits)
    }

    fn branch(&mut self, w: u32, link: bool)
        ensures
            final(self).arm9.gpr@ == after_exec(
                old(self).arm9.gpr@,
                if link {
                    Handler::BranchLink
                } else {
                    Handler::Branch
                },
                w,
            ),
            final(self).arm9.cpsr == old(self).arm9.cpsr,
            final(self).arm9.bus_ptrs == old(self).arm9.bus_ptrs,
            final(self).main_memory == old(self).main_memory,
    {
        let pc = self.arm9.pc();
        let imm = w % 0x100_0000;
        let off = imm * 4;
        let target = if imm >= 0x80_0000 {
            pc.wrapping_sub(0x400_0000 - off)
        } else {
            pc.wrapping_add(off)
        };
        if link {
            let ret = self.arm9.gpr[PC];
            self.arm9.lr_set(ret);
        }
        self.arm9.pc_set(target);
    }

    /// Runs a handler on word `w`. Only branches are executed by this
    /// core; every other class leaves the state as it is.
    fn execute(&mut self, h: Handler, w: u32)
        ensures
            final(self).arm9.gpr@ == after_exec(old(self).arm9.gpr@, h, w),
            final(self).arm9.cpsr == old(self).arm9.cpsr,
            final(self).arm9.bus_ptrs == old(self).arm9.bus_ptrs,
            final(self).main_memory == old(self).main_memory,
    {
        match h {
            Handler::Branch => self.branch(w, false),
            Handler::BranchLink => self.branch(w, true),
            _ => {},
        }
    }
}

/// One instruction: fetch, classify, gate on the condition, dispatch.
/// Returns the handler that ran, or `None` when the condition failed.
pub fn step(core: &mut Core<Interpreter>, interp: &Interpreter) -> (r: Option<Handler>)
    requires
        old(core).wf(),
        interp.wf(),
    ensures
        ({
            let w = read32_value(old(core).table(), old(core).mem(), old(core).arm9.gpr@[15]);
            let fetched = reg_write(old(core).arm9.gpr@, PC, add4(old(core).arm9.gpr@[15]));
            &&& r == dispatch(w, old(core).arm9.cpsr)
            &&& final(core).arm9.gpr@ == match r {
                Some(h) => after_exec(fetched, h, w),
                None => fetched,
            }
        }),
        final(core).arm9.gpr@ == step_regs(
            old(core).table(),
            old(core).mem(),
            old(core).arm9.cpsr,
            old(core).arm9.gpr@,
        ),
        final(core).wf(),
        final(core).arm9.cpsr == old(core).arm9.cpsr,
        final(core).arm9.bus_ptrs == old(core).arm9.bus_ptrs,
        final(core).main_memory == old(core).main_memory,
{
    let fetch = core.fetch();
    let h = interp.lookup(fetch);
    if is_cond_instr(fetch) {
        let cond = cond_bits(fetch);
        if core.check_cond(cond) {
            core.execute(h, fetch);
            Some(h)
        } else {
            None
        }
    } else {
        core.execute(h, fetch);
        Some(h)
    }
}

/// Number of instructions one call of `run` executes.
pub const RUN_BATCH: u32 = 100_000;

/// Executes a fixed batch of instructions and returns to the caller.
pub fn run(core: &mut Core<Interpreter>, interp: &Interpreter)
    requires
        old(core).wf(),
        interp.wf(),
    ensures
        final(core).wf(),
        final(core).arm9.cpsr == old(core).arm9.cpsr,
        final(core).arm9.bus_ptrs == old(core).arm9.bus_ptrs,
        final(core).main_memory == old(core).main_memory,
        final(core).arm9.gpr@ == steps(
            old(core).table(),
            old(core).mem(),
            old(core).arm9.cpsr,
            old(core).arm9.gpr@,
            RUN_BATCH as nat,
        ),
{
    let mut i: u32 = 0;
    while i < RUN_BATCH
        invariant
            i <= RUN_BATCH,
            core.arm9.gpr@ == steps(
                old(core).table(),
                old(core).mem(),
                old(core).arm9.cpsr,
                old(core).arm9.gpr@,
                i as nat,
            ),
            core.wf(),
            interp.wf(),
            core.arm9.cpsr == old(core).arm9.cpsr,
            core.arm9.bus_ptrs == old(core).arm9.bus_ptrs,
            core.main_memory == old(core).main_memory,
        decreases RUN_BATCH - i,
    {
        step(core, interp);
        i = i + 1;
    }
}

/// Decoding is a function of the word alone, and a word of the
/// unconditional class selects the same entry whatever the flags.
pub proof fn lemma_dispatch_determinism(w: u32, f1: Psr, f2: Psr)
    ensures
        bucket_of(w) < LUT_LEN,
        !is_cond_spec(w) ==> dispatch(w, f1) == dispatch(w, f2),
        !is_cond_spec(w) ==> dispatch(w, f1) == Some(uncond_class(bucket_of(w))),
        is_cond_spec(w) && f1.passes(cond_field(w)) ==> dispatch(w, f1) == Some(
            cond_class(bucket_of(w)),
        ),
{
    assert(((w >> 16) & 0xff0) | ((w >> 4) & 0xf) < 4096) by (bit_vector);
}


/// A core driven by the interpreter.
pub type NDSInterp = Core<Interpreter>;

impl Engine for Interpreter {
    /// The dispatch tables are shared by every core and live in the
    /// `Interpreter` value itself.
    type GlobalData = ();
    type ARM9Data = ();
    type ARM7Data = ();
}

} // verus!
