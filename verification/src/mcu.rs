//! The execution engine ("Otter" MCU): the program counter, the register
//! file and the memory subsystem, tied together by the
//! fetch → validate → execute cycle.
//!
//! Every step is specified as a pure function from machine state to
//! machine state ([`step_spec`]), so the semantics of each of the 38
//! operations — wrapping arithmetic, signed and unsigned comparisons,
//! sign-extending loads, branch targets — are proved against the model.
//! Run-time faults never panic: invalid instructions execute as no-ops,
//! out-of-range accesses are dropped, and everything is reported through
//! the caller's [`Logger`].

use vstd::prelude::*;

use crate::log::{LogEvent, Logger, NullLogger};
use crate::mem::{
    le_byte, lemma_find_dev_hit, lemma_find_dev_range, lemma_le_recompose, mem_read, mem_write,
    zero_bytes, DevView, MemView, Memory, Size,
};
use crate::rf::{read_spec, write_spec, RegisterFile};
use crate::rv32i::{decode, decode_spec, Instruction, Operation};

verus! {

/// Bytes of main RAM.
pub const MEM_SIZE: u32 = 0x10000;

/// Base address of the LED bank (two bytes: 16 LEDs).
pub const LEDS_ADDR: u32 = 0x11080000;

/// Size in bytes of the LED bank.
pub const LEDS_WIDTH: u32 = 2;

/// Base address of the seven-segment display (one half-word).
pub const SSEG_ADDR: u32 = 0x110C0000;

/// Size in bytes of the seven-segment display register.
pub const SSEG_WIDTH: u32 = 2;

/// Base address of the switch bank (two bytes: 16 switches).
pub const SWITCHES_ADDR: u32 = 0x11000000;

/// Size in bytes of the switch bank.
pub const SWITCHES_WIDTH: u32 = 2;

// ------------------------------------------------------------------
// Arithmetic helpers of the instruction semantics.
// ------------------------------------------------------------------

/// 32-bit addition with defined wraparound.
pub open spec fn wadd(a: u32, b: u32) -> u32 {
    if a + b > u32::MAX {
        (a + b - 0x100000000) as u32
    } else {
        (a + b) as u32
    }
}

/// 32-bit subtraction with defined wraparound.
pub open spec fn wsub(a: u32, b: u32) -> u32 {
    if a - b < 0 {
        (a - b + 0x100000000) as u32
    } else {
        (a - b) as u32
    }
}

/// The signed value of a word read in two's complement.
pub open spec fn to_signed(w: u32) -> int {
    if w < 0x80000000 {
        w as int
    } else {
        w - 0x100000000
    }
}

/// Signed less-than on raw words.
pub open spec fn signed_lt(a: u32, b: u32) -> bool {
    to_signed(a) < to_signed(b)
}

/// Arithmetic right shift: the shifted word's sign bit is replicated into
/// the vacated positions.  The shift amount is taken modulo 32, as the
/// hardware's shifters do.
pub open spec fn sra(w: u32, sh: u32) -> u32 {
    let amt = sh % 32;
    if amt == 0 {
        w
    } else if w < 0x80000000 {
        w >> amt
    } else {
        (w >> amt) | (0xffffffffu32 << (32 - amt))
    }
}

/// A loaded byte sign-extended to 32 bits (bit 7 replicated upward).
pub open spec fn sign_extend_byte(b: u32) -> u32 {
    if b & 0x80 != 0 {
        b | 0xffffff00
    } else {
        b
    }
}

/// A loaded half-word sign-extended to 32 bits (bit 15 replicated upward).
pub open spec fn sign_extend_half(h: u32) -> u32 {
    if h & 0x8000 != 0 {
        h | 0xffff0000
    } else {
        h
    }
}

/// Signed less-than, executable.
fn slt(a: u32, b: u32) -> (r: bool)
    ensures
        r == signed_lt(a, b),
{
    let a_neg = a >= 0x80000000;
    let b_neg = b >= 0x80000000;
    if a_neg == b_neg {
        a < b
    } else {
        a_neg
    }
}

/// Arithmetic right shift, executable.
fn arith_shr(w: u32, sh: u32) -> (r: u32)
    ensures
        r == sra(w, sh),
{
    let amt = sh % 32;
    if amt == 0 {
        w
    } else if w < 0x80000000 {
        w >> amt
    } else {
        (w >> amt) | (0xffffffffu32 << (32 - amt))
    }
}

// ------------------------------------------------------------------
// The machine state and its invariant.
// ------------------------------------------------------------------

/// The complete mathematical state of the machine.
#[verifier::ext_equal]
pub struct McuView {
    pub pc: u32,
    pub regs: Seq<u32>,
    pub mem: MemView,
}

/// The fixed peripheral map of the reference configuration: RAM of
/// `MEM_SIZE` bytes and three two-byte devices — switches, LEDs and the
/// seven-segment display — in ascending base order.
pub open spec fn standard_layout(m: MemView) -> bool {
    &&& m.ram.len() == MEM_SIZE
    &&& m.devices.len() == 3
    &&& m.devices[0].base == SWITCHES_ADDR
    &&& m.devices[0].bytes.len() == SWITCHES_WIDTH
    &&& m.devices[1].base == LEDS_ADDR
    &&& m.devices[1].bytes.len() == LEDS_WIDTH
    &&& m.devices[2].base == SSEG_ADDR
    &&& m.devices[2].bytes.len() == SSEG_WIDTH
}

/// A memory write never changes the peripheral map: device count, bases
/// and sizes survive every store.
pub proof fn lemma_write_preserves_layout(m: MemView, addr: u32, data: u32, size: Size)
    requires
        standard_layout(m),
    ensures
        standard_layout(mem_write(m, addr, data, size)),
{
    lemma_find_dev_range(m.devices, addr);
}

// ------------------------------------------------------------------
// Instruction validation.
// ------------------------------------------------------------------

/// An instruction the execution engine accepts: a recognised operation
/// whose register fields all name one of the 32 registers.
pub open spec fn is_valid(ir: Instruction) -> bool {
    &&& !(ir.op is Invalid)
    &&& ir.rd <= 31
    &&& ir.rs1 <= 31
    &&& ir.rs2 <= 31
}

/// The observably inert substitute: `ADD x0, x0, x0`.
pub open spec fn nop() -> Instruction {
    Instruction { op: Operation::ADD, rs1: 0, rs2: 0, rd: 0, imm: 0 }
}

/// What `validate` returns: the instruction itself when acceptable, the
/// no-op substitute otherwise.
pub open spec fn validate_spec(ir: Instruction) -> Instruction {
    if is_valid(ir) {
        ir
    } else {
        nop()
    }
}

// ------------------------------------------------------------------
// The execution semantics.
// ------------------------------------------------------------------

/// The machine state after executing one instruction: the operation's
/// register and memory effect, and the program counter advanced by its
/// control-flow rule (`pc + 4` unless a jump or taken branch redirects
/// it).  Total: defined for every instruction, validated or not.
pub open spec fn exec_spec(m: McuView, ir: Instruction) -> McuView {
    let rs1 = read_spec(m.regs, ir.rs1);
    let rs2 = read_spec(m.regs, ir.rs2);
    let mem_addr = wadd(rs1, ir.imm);
    let pc4 = wadd(m.pc, 4);
    let target = wadd(m.pc, ir.imm);
    match ir.op {
        Operation::Invalid => McuView { pc: pc4, regs: m.regs, mem: m.mem },
        Operation::LUI => McuView {
            pc: pc4,
            regs: write_spec(m.regs, ir.rd, ir.imm),
            mem: m.mem,
        },
        Operation::AUIPC => McuView {
            pc: pc4,
            regs: write_spec(m.regs, ir.rd, wadd(m.pc, ir.imm)),
            mem: m.mem,
        },
        Operation::JAL => McuView {
            pc: target,
            regs: write_spec(m.regs, ir.rd, pc4),
            mem: m.mem,
        },
        Operation::JALR => McuView {
            pc: mem_addr,
            regs: write_spec(m.regs, ir.rd, pc4),
            mem: m.mem,
        },
        Operation::BEQ => McuView {
            pc: if rs1 == rs2 {
                target
            } else {
                pc4
            },
            regs: m.regs,
            mem: m.mem,
        },
        Operation::BNE => McuView {
            pc: if rs1 != rs2 {
                target
            } else {
                pc4
            },
            regs: m.regs,
            mem: m.mem,
        },
        Operation::BLT => McuView {
            pc: if signed_lt(rs1, rs2) {
                target
            } else {
                pc4
            },
            regs: m.regs,
            mem: m.mem,
        },
        Operation::BGE => McuView {
            pc: if !signed_lt(rs1, rs2) {
                target
            } else {
                pc4
            },
            regs: m.regs,
            mem: m.mem,
        },
        Operation::BLTU => McuView {
            pc: if rs1 < rs2 {
                target
            } else {
                pc4
            },
            regs: m.regs,
            mem: m.mem,
        },
        Operation::BGEU => McuView {
            pc: if rs1 >= rs2 {
                target
            } else {
                pc4
            },
            regs: m.regs,
            mem: m.mem,
        },
        Operation::LB => McuView {
            pc: pc4,
            regs: write_spec(
                m.regs,
                ir.rd,
                sign_extend_byte(mem_read(m.mem, mem_addr, Size::Byte)),
            ),
            mem: m.mem,
        },
        Operation::LH => McuView {
            pc: pc4,
            regs: write_spec(
                m.regs,
                ir.rd,
                sign_extend_half(mem_read(m.mem, mem_addr, Size::HalfWord)),
            ),
            mem: m.mem,
        },
        Operation::LW => McuView {
            pc: pc4,
            regs: write_spec(m.regs, ir.rd, mem_read(m.mem, mem_addr, Size::Word)),
            mem: m.mem,
        },
        Operation::LBU => McuView {
            pc: pc4,
            regs: write_spec(m.regs, ir.rd, mem_read(m.mem, mem_addr, Size::Byte)),
            mem: m.mem,
        },
        Operation::LHU => McuView {
            pc: pc4,
            regs: write_spec(m.regs, ir.rd, mem_read(m.mem, mem_addr, Size::HalfWord)),
            mem: m.mem,
        },
        Operation::SB => McuView {
            pc: pc4,
            regs: m.regs,
            mem: mem_write(m.mem, mem_addr, rs2, Size::Byte),
        },
        Operation::SH => McuView {
            pc: pc4,
            regs: m.regs,
            mem: mem_write(m.mem, mem_addr, rs2, Size::HalfWord),
        },
        Operation::SW => McuView {
            pc: pc4,
            regs: m.regs,
            mem: mem_write(m.mem, mem_addr, rs2, Size::Word),
        },
        Operation::ADDI => McuView {
            pc: pc4,
            regs: write_spec(m.regs, ir.rd, wadd(rs1, ir.imm)),
            mem: m.mem,
        },
        Operation::SLTI => McuView {
            pc: pc4,
            regs: write_spec(
                m.regs,
                ir.rd,
                if signed_lt(rs1, ir.imm) {
                    1
                } else {
                    0
                },
            ),
            mem: m.mem,
        },
        Operation::SLTIU => McuView {
            pc: pc4,
            regs: write_spec(
                m.regs,
                ir.rd,
                if rs1 < ir.imm {
                    1
                } else {
                    0
                },
            ),
            mem: m.mem,
        },
        Operation::XORI => McuView {
            pc: pc4,
            regs: write_spec(m.regs, ir.rd, rs1 ^ ir.imm),
            mem: m.mem,
        },
        Operation::ORI => McuView {
            pc: pc4,
            regs: write_spec(m.regs, ir.rd, rs1 | ir.imm),
            mem: m.mem,
        },
        Operation::ANDI => McuView {
            pc: pc4,
            regs: write_spec(m.regs, ir.rd, rs1 & ir.imm),
            mem: m.mem,
        },
        Operation::SLLI => McuView {
            pc: pc4,
            regs: write_spec(m.regs, ir.rd, rs1 << (ir.imm % 32)),
            mem: m.mem,
        },
        Operation::SRLI => McuView {
            pc: pc4,
            regs: write_spec(m.regs, ir.rd, rs1 >> (ir.imm % 32)),
            mem: m.mem,
        },
        Operation::SRAI => McuView {
            pc: pc4,
            regs: write_spec(m.regs, ir.rd, sra(rs1, ir.imm)),
            mem: m.mem,
        },
        Operation::ADD => McuView {
            pc: pc4,
            regs: write_spec(m.regs, ir.rd, wadd(rs1, rs2)),
            mem: m.mem,
        },
        Operation::SUB => McuView {
            pc: pc4,
            regs: write_spec(m.regs, ir.rd, wsub(rs1, rs2)),
            mem: m.mem,
        },
        Operation::SLL => McuView {
            pc: pc4,
            regs: write_spec(m.regs, ir.rd, rs1 << (rs2 % 32)),
            mem: m.mem,
        },
        Operation::SLT => McuView {
            pc: pc4,
            regs: write_spec(
                m.regs,
                ir.rd,
                if signed_lt(rs1, rs2) {
                    1
                } else {
                    0
                },
            ),
            mem: m.mem,
        },
        Operation::SLTU => McuView {
            pc: pc4,
            regs: write_spec(
                m.regs,
                ir.rd,
                if rs1 < rs2 {
                    1
                } else {
                    0
                },
            ),
            mem: m.mem,
        },
        Operation::XOR => McuView {
            pc: pc4,
            regs: write_spec(m.regs, ir.rd, rs1 ^ rs2),
            mem: m.mem,
        },
        Operation::SRL => McuView {
            pc: pc4,
            regs: write_spec(m.regs, ir.rd, rs1 >> (rs2 % 32)),
            mem: m.mem,
        },
        Operation::SRA => McuView {
            pc: pc4,
            regs: write_spec(m.regs, ir.rd, sra(rs1, rs2)),
            mem: m.mem,
        },
        Operation::OR => McuView {
            pc: pc4,
            regs: write_spec(m.regs, ir.rd, rs1 | rs2),
            mem: m.mem,
        },
        Operation::AND => McuView {
            pc: pc4,
            regs: write_spec(m.regs, ir.rd, rs1 & rs2),
            mem: m.mem,
        },
    }
}

/// One whole cycle: fetch the word at `pc`, decode it, substitute a no-op
/// if validation rejects it, and execute.
pub open spec fn step_spec(m: McuView) -> McuView {
    exec_spec(m, validate_spec(decode_spec(mem_read(m.mem, m.pc, Size::Word))))
}

/// What `toggle_sw` does to the machine: the switches half-word gets bit
/// `index` flipped; nothing else moves.
pub open spec fn toggle_spec(m: McuView, index: usize) -> McuView {
    McuView {
        pc: m.pc,
        regs: m.regs,
        mem: mem_write(
            m.mem,
            SWITCHES_ADDR,
            mem_read(m.mem, SWITCHES_ADDR, Size::HalfWord) ^ (1u32 << index),
            Size::HalfWord,
        ),
    }
}

// ------------------------------------------------------------------
// The machine itself.
// ------------------------------------------------------------------

/// The microcontroller: program counter, register file, memory.  The
/// driver may read and reset `pc` directly; everything else moves only
/// through `exec`/`step`.
pub struct MCU {
    pub pc: u32,
    mem: Memory,
    rf: RegisterFile,
}

impl View for MCU {
    type V = McuView;

    closed spec fn view(&self) -> McuView {
        McuView { pc: self.pc, regs: self.rf@, mem: self.mem@ }
    }
}

impl MCU {
    /// Well-formed: both components are, and the peripheral map is the
    /// reference configuration's.
    pub closed spec fn wf(&self) -> bool {
        &&& self.mem.wf()
        &&& self.rf.wf()
        &&& standard_layout(self@.mem)
    }

    /// What well-formedness guarantees about the visible state.
    pub proof fn lemma_wf_layout(&self)
        requires
            self.wf(),
        ensures
            standard_layout(self@.mem),
            self@.regs.len() == 32,
            self@.regs[0] == 0,
    {
    }

    /// A fresh machine: `pc` 0, registers 0, RAM unset, the three
    /// peripherals mapped and zeroed.
    pub fn new() -> (r: MCU)
        ensures
            r.wf(),
            r@.pc == 0,
            forall|i: int| 0 <= i < 32 ==> r@.regs[i] == 0,
            forall|a: int| 0 <= a < MEM_SIZE ==> r@.mem.ram[a] is None,
            r@.mem.devices[0].bytes == zero_bytes(SWITCHES_WIDTH),
            r@.mem.devices[1].bytes == zero_bytes(LEDS_WIDTH),
            r@.mem.devices[2].bytes == zero_bytes(SSEG_WIDTH),
    {
        let mut mem = Memory::new(MEM_SIZE);
        let ghost m0 = mem@;
        mem.add_io(LEDS_ADDR, LEDS_WIDTH);
        proof {
            let p = choose|p: int|
                {
                    &&& 0 <= p <= m0.devices.len()
                    &&& (forall|j: int| 0 <= j < p ==> (#[trigger] m0.devices[j]).base < LEDS_ADDR)
                    &&& (forall|j: int|
                        p <= j < m0.devices.len() ==> LEDS_ADDR < (#[trigger] m0.devices[j]).base)
                    &&& mem@.devices == #[trigger] m0.devices.insert(
                        p,
                        DevView { base: LEDS_ADDR, bytes: zero_bytes(LEDS_WIDTH) },
                    )
                };
            assert(mem@.devices =~= seq![
                DevView { base: LEDS_ADDR, bytes: zero_bytes(LEDS_WIDTH) },
            ]);
        }
        let ghost m1 = mem@;
        mem.add_io(SSEG_ADDR, SSEG_WIDTH);
        proof {
            let p = choose|p: int|
                {
                    &&& 0 <= p <= m1.devices.len()
                    &&& (forall|j: int| 0 <= j < p ==> (#[trigger] m1.devices[j]).base < SSEG_ADDR)
                    &&& (forall|j: int|
                        p <= j < m1.devices.len() ==> SSEG_ADDR < (#[trigger] m1.devices[j]).base)
                    &&& mem@.devices == #[trigger] m1.devices.insert(
                        p,
                        DevView { base: SSEG_ADDR, bytes: zero_bytes(SSEG_WIDTH) },
                    )
                };
            assert(m1.devices[0].base == LEDS_ADDR);
            assert(p == 1);
            assert(mem@.devices =~= seq![
                DevView { base: LEDS_ADDR, bytes: zero_bytes(LEDS_WIDTH) },
                DevView { base: SSEG_ADDR, bytes: zero_bytes(SSEG_WIDTH) },
            ]);
        }
        let ghost m2 = mem@;
        mem.add_io(SWITCHES_ADDR, SWITCHES_WIDTH);
        proof {
            let p = choose|p: int|
                {
                    &&& 0 <= p <= m2.devices.len()
                    &&& (forall|j: int|
                        0 <= j < p ==> (#[trigger] m2.devices[j]).base < SWITCHES_ADDR)
                    &&& (forall|j: int|
                        p <= j < m2.devices.len() ==> SWITCHES_ADDR < (
                        #[trigger] m2.devices[j]).base)
                    &&& mem@.devices == #[trigger] m2.devices.insert(
                        p,
                        DevView { base: SWITCHES_ADDR, bytes: zero_bytes(SWITCHES_WIDTH) },
                    )
                };
            assert(m2.devices[0].base == LEDS_ADDR && m2.devices[1].base == SSEG_ADDR);
            assert(p == 0);
            assert(mem@.devices =~= seq![
                DevView { base: SWITCHES_ADDR, bytes: zero_bytes(SWITCHES_WIDTH) },
                DevView { base: LEDS_ADDR, bytes: zero_bytes(LEDS_WIDTH) },
                DevView { base: SSEG_ADDR, bytes: zero_bytes(SSEG_WIDTH) },
            ]);
        }
        MCU { pc: 0, mem, rf: RegisterFile::init() }
    }

    /// Resets `pc` and all registers to zero; memory is untouched.
    pub fn reset(&mut self)
        requires
            old(self).wf(),
        ensures
            final(self).wf(),
            final(self)@.pc == 0,
            forall|i: int| 0 <= i < 32 ==> final(self)@.regs[i] == 0,
            final(self)@.mem == old(self)@.mem,
    {
        self.pc = 0;
        self.rf.reset();
    }

    /// The full register dump, x0 through x31.
    pub fn rf(&self) -> (r: Vec<u32>)
        requires
            self.wf(),
        ensures
            r@.len() == 32,
            forall|i: int| 0 <= i < 32 ==> r@[i] == read_spec(self@.regs, i as u32),
    {
        let mut dump: Vec<u32> = Vec::new();
        let mut i: u32 = 0;
        while i < 32
            invariant
                self.wf(),
                i <= 32,
                dump@.len() == i,
                forall|j: int| 0 <= j < i ==> dump@[j] == read_spec(self@.regs, j as u32),
            decreases 32 - i,
        {
            dump.push(self.rf.rd(i));
            i = i + 1;
        }
        dump
    }

    /// Reads one register.
    pub fn rf_rd(&self, addr: u32) -> (r: u32)
        requires
            self.wf(),
        ensures
            r == read_spec(self@.regs, addr),
    {
        self.rf.rd(addr)
    }

    /// Reads memory at `addr` with the given width, dropping diagnostics.
    pub fn mem_rd(&self, addr: u32, size: Size) -> (r: u32)
        requires
            self.wf(),
        ensures
            r == mem_read(self@.mem, addr, size),
    {
        let mut null = NullLogger;
        self.mem.rd(addr, size, &mut null)
    }

    /// Advances `pc` by one instruction, wrapping at the address space's
    /// end.
    fn incr_pc(&mut self)
        ensures
            final(self)@ == (McuView { pc: wadd(old(self)@.pc, 4), ..old(self)@ }),
            final(self).mem == old(self).mem,
            final(self).rf == old(self).rf,
    {
        self.pc = self.pc.wrapping_add(4);
        proof {
            assert(self@ =~~= (McuView { pc: wadd(old(self)@.pc, 4), ..old(self)@ }));
        }
    }

    /// Validates a decoded instruction: an `Invalid` operation or a
    /// register field past x31 is reported, tagged with `pc`, and replaced
    /// by the inert `ADD x0, x0, x0`.
    pub fn validate<L: Logger>(ir: Instruction, pc: u32, logger: &mut L) -> (r: Instruction)
        ensures
            r == validate_spec(ir),
            is_valid(r),
    {
        if matches!(ir.op, Operation::Invalid) {
            logger.log(LogEvent::InvalidInstruction { pc });
            return Instruction { op: Operation::ADD, rs1: 0, rs2: 0, rd: 0, imm: 0 };
        }
        if ir.rd > 31 || ir.rs1 > 31 || ir.rs2 > 31 {
            logger.log(LogEvent::InvalidRegister { pc });
            return Instruction { op: Operation::ADD, rs1: 0, rs2: 0, rd: 0, imm: 0 };
        }
        ir
    }

    /// Fetches and decodes the word at `pc`, without moving `pc`.
    /// Returns the decoded instruction and the raw word.
    pub fn fetch<L: Logger>(&self, logger: &mut L) -> (r: (Instruction, u32))
        requires
            self.wf(),
        ensures
            r.1 == mem_read(self@.mem, self@.pc, Size::Word),
            r.0 == decode_spec(r.1),
    {
        let ir = self.mem.rd(self.pc, Size::Word, logger);
        (decode(ir), ir)
    }

    /// Executes one instruction against the register file and memory and
    /// advances `pc` by its control-flow rule.  Total: an `Invalid`
    /// operation is reported and falls through, and operand fields past
    /// x31 act like x0.
    pub fn exec<L: Logger>(&mut self, ir: Instruction, logger: &mut L)
        requires
            old(self).wf(),
        ensures
            final(self).wf(),
            final(self)@ == exec_spec(old(self)@, ir),
    {
        let rs1: u32 = self.rf.rd(ir.rs1);
        let rs2: u32 = self.rf.rd(ir.rs2);
        let mem_addr: u32 = rs1.wrapping_add(ir.imm);
        let jalr_target: u32 = rs1.wrapping_add(ir.imm);
        let branch_target: u32 = self.pc.wrapping_add(ir.imm);
        let jump_target: u32 = self.pc.wrapping_add(ir.imm);

        match ir.op {
            Operation::Invalid => {
                logger.log(LogEvent::InvalidInstruction { pc: self.pc });
                self.incr_pc();
            },
            Operation::LUI => {
                self.rf.wr(ir.rd, ir.imm);
                self.incr_pc();
            },
            Operation::AUIPC => {
                self.rf.wr(ir.rd, self.pc.wrapping_add(ir.imm));
                self.incr_pc();
            },
            Operation::JAL => {
                self.rf.wr(ir.rd, self.pc.wrapping_add(4));
                self.pc = jump_target;
            },
            Operation::JALR => {
                self.rf.wr(ir.rd, self.pc.wrapping_add(4));
                self.pc = jalr_target;
            },
            Operation::BEQ => {
                if rs1 == rs2 {
                    self.pc = branch_target;
                } else {
                    self.incr_pc();
                }
            },
            Operation::BNE => {
                if rs1 != rs2 {
                    self.pc = branch_target;
                } else {
                    self.incr_pc();
                }
            },
            Operation::BLT => {
                if slt(rs1, rs2) {
                    self.pc = branch_target;
                } else {
                    self.incr_pc();
                }
            },
            Operation::BGE => {
                if !slt(rs1, rs2) {
                    self.pc = branch_target;
                } else {
                    self.incr_pc();
                }
            },
            Operation::BLTU => {
                if rs1 < rs2 {
                    self.pc = branch_target;
                } else {
                    self.incr_pc();
                }
            },
            Operation::BGEU => {
                if rs1 >= rs2 {
                    self.pc = branch_target;
                } else {
                    self.incr_pc();
                }
            },
            Operation::LB => {
                let mut byte = self.mem.rd(mem_addr, Size::Byte, logger);
                if byte & 0x80 != 0 {
                    byte = byte | 0xffffff00;
                }
                self.rf.wr(ir.rd, byte);
                self.incr_pc();
            },
            Operation::LH => {
                let mut halfword = self.mem.rd(mem_addr, Size::HalfWord, logger);
                if halfword & 0x8000 != 0 {
                    halfword = halfword | 0xffff0000;
                }
                self.rf.wr(ir.rd, halfword);
                self.incr_pc();
            },
            Operation::LW => {
                let word = self.mem.rd(mem_addr, Size::Word, logger);
                self.rf.wr(ir.rd, word);
                self.incr_pc();
            },
            Operation::LBU => {
                let byte = self.mem.rd(mem_addr, Size::Byte, logger);
                self.rf.wr(ir.rd, byte);
                self.incr_pc();
            },
            Operation::LHU => {
                let halfword = self.mem.rd(mem_addr, Size::HalfWord, logger);
                self.rf.wr(ir.rd, halfword);
                self.incr_pc();
            },
            Operation::SB => {
                self.mem.wr(mem_addr, rs2, Size::Byte, logger);
                self.incr_pc();
            },
            Operation::SH => {
                self.mem.wr(mem_addr, rs2, Size::HalfWord, logger);
                self.incr_pc();
            },
            Operation::SW => {
                self.mem.wr(mem_addr, rs2, Size::Word, logger);
                self.incr_pc();
            },
            Operation::ADDI => {
                self.rf.wr(ir.rd, rs1.wrapping_add(ir.imm));
                self.incr_pc();
            },
            Operation::SLTI => {
                self.rf.wr(
                    ir.rd,
                    if slt(rs1, ir.imm) {
                        1
                    } else {
                        0
                    },
                );
                self.incr_pc();
            },
            Operation::SLTIU => {
                self.rf.wr(
                    ir.rd,
                    if rs1 < ir.imm {
                        1
                    } else {
                        0
                    },
                );
                self.incr_pc();
            },
            Operation::XORI => {
                self.rf.wr(ir.rd, rs1 ^ ir.imm);
                self.incr_pc();
            },
            Operation::ORI => {
                self.rf.wr(ir.rd, rs1 | ir.imm);
                self.incr_pc();
            },
            Operation::ANDI => {
                self.rf.wr(ir.rd, rs1 & ir.imm);
                self.incr_pc();
            },
            Operation::SLLI => {
                self.rf.wr(ir.rd, rs1 << (ir.imm % 32));
                self.incr_pc();
            },
            Operation::SRLI => {
                self.rf.wr(ir.rd, rs1 >> (ir.imm % 32));
                self.incr_pc();
            },
            Operation::SRAI => {
                self.rf.wr(ir.rd, arith_shr(rs1, ir.imm));
                self.incr_pc();
            },
            Operation::ADD => {
                self.rf.wr(ir.rd, rs1.wrapping_add(rs2));
                self.incr_pc();
            },
            Operation::SUB => {
                self.rf.wr(ir.rd, rs1.wrapping_sub(rs2));
                self.incr_pc();
            },
            Operation::SLL => {
                self.rf.wr(ir.rd, rs1 << (rs2 % 32));
                self.incr_pc();
            },
            Operation::SLT => {
                self.rf.wr(
                    ir.rd,
                    if slt(rs1, rs2) {
                        1
                    } else {
                        0
                    },
                );
                self.incr_pc();
            },
            Operation::SLTU => {
                self.rf.wr(
                    ir.rd,
                    if rs1 < rs2 {
                        1
                    } else {
                        0
                    },
                );
                self.incr_pc();
            },
            Operation::XOR => {
                self.rf.wr(ir.rd, rs1 ^ rs2);
                self.incr_pc();
            },
            Operation::SRL => {
                self.rf.wr(ir.rd, rs1 >> (rs2 % 32));
                self.incr_pc();
            },
            Operation::SRA => {
                self.rf.wr(ir.rd, arith_shr(rs1, rs2));
                self.incr_pc();
            },
            Operation::OR => {
                self.rf.wr(ir.rd, rs1 | rs2);
                self.incr_pc();
            },
            Operation::AND => {
                self.rf.wr(ir.rd, rs1 & rs2);
                self.incr_pc();
            },
        }

        proof {
            lemma_write_preserves_layout(old(self)@.mem, mem_addr, rs2, Size::Byte);
            lemma_write_preserves_layout(old(self)@.mem, mem_addr, rs2, Size::HalfWord);
            lemma_write_preserves_layout(old(self)@.mem, mem_addr, rs2, Size::Word);
            assert(self@ =~~= exec_spec(old(self)@, ir));
        }
    }

    /// One fetch → validate → execute cycle, all diagnostics routed
    /// through `logger`.  The only entry point a driver needs for running
    /// or single-stepping; a fault never unwinds past it.
    pub fn step<L: Logger>(&mut self, logger: &mut L)
        requires
            old(self).wf(),
        ensures
            final(self).wf(),
            final(self)@ == step_spec(old(self)@),
    {
        let ir = self.fetch(logger);
        let ir = MCU::validate(ir.0, self.pc, logger);
        self.exec(ir, logger);
    }

    /// The 16 LED bits: bit `i` lives at byte `i/8`, position `i%8`, of
    /// the LED device region.
    pub fn leds(&self) -> (r: Vec<bool>)
        requires
            self.wf(),
        ensures
            r@.len() == 16,
            forall|i: int|
                0 <= i < 16 ==> r@[i] == (mem_read(
                    self@.mem,
                    (LEDS_ADDR + i / 8) as u32,
                    Size::Byte,
                ) & (1u32 << (i % 8)) != 0),
    {
        let mut leds: Vec<bool> = Vec::new();
        let mut i: u32 = 0;
        while i < 16
            invariant
                self.wf(),
                i <= 16,
                leds@.len() == i,
                forall|j: int|
                    0 <= j < i ==> leds@[j] == (mem_read(
                        self@.mem,
                        (LEDS_ADDR + j / 8) as u32,
                        Size::Byte,
                    ) & (1u32 << (j % 8)) != 0),
            decreases 16 - i,
        {
            let byte = self.mem_rd(LEDS_ADDR + i / 8, Size::Byte);
            leds.push(byte & (1u32 << (i % 8)) != 0);
            i = i + 1;
        }
        leds
    }

    /// The 16 switch bits, mapped like the LEDs.
    pub fn switches(&self) -> (r: Vec<bool>)
        requires
            self.wf(),
        ensures
            r@.len() == 16,
            forall|i: int|
                0 <= i < 16 ==> r@[i] == (mem_read(
                    self@.mem,
                    (SWITCHES_ADDR + i / 8) as u32,
                    Size::Byte,
                ) & (1u32 << (i % 8)) != 0),
    {
        let mut switches: Vec<bool> = Vec::new();
        let mut i: u32 = 0;
        while i < 16
            invariant
                self.wf(),
                i <= 16,
                switches@.len() == i,
                forall|j: int|
                    0 <= j < i ==> switches@[j] == (mem_read(
                        self@.mem,
                        (SWITCHES_ADDR + j / 8) as u32,
                        Size::Byte,
                    ) & (1u32 << (j % 8)) != 0),
            decreases 16 - i,
        {
            let byte = self.mem_rd(SWITCHES_ADDR + i / 8, Size::Byte);
            switches.push(byte & (1u32 << (i % 8)) != 0);
            i = i + 1;
        }
        switches
    }

    /// The raw seven-segment half-word.
    pub fn sseg(&self) -> (r: u16)
        requires
            self.wf(),
        ensures
            r == mem_read(self@.mem, SSEG_ADDR, Size::HalfWord) as u16,
            r == mem_read(self@.mem, SSEG_ADDR, Size::HalfWord),
    {
        proof {
            lemma_halfword_read_bound(self@.mem, SSEG_ADDR);
        }
        self.mem_rd(SSEG_ADDR, Size::HalfWord) as u16
    }

    /// Loads a program image into RAM: word `w` of `binary` lands at byte
    /// address `4*w`, little-endian.  The image must fit in RAM; the
    /// caller checks that at load time.  Registers, `pc` and the
    /// peripherals are untouched.
    pub fn program(&mut self, binary: Vec<Vec<u8>>)
        requires
            old(self).wf(),
            4 * binary@.len() < MEM_SIZE,
            forall|w: int| 0 <= w < binary@.len() ==> (#[trigger] binary@[w])@.len() <= 4,
        ensures
            final(self).wf(),
            final(self)@.pc == old(self)@.pc,
            final(self)@.regs == old(self)@.regs,
            final(self)@.mem.devices == old(self)@.mem.devices,
            forall|a: int|
                0 <= a < MEM_SIZE ==> final(self)@.mem.ram[a] == (if a / 4 < binary@.len() && a
                    % 4 < binary@[a / 4]@.len() {
                    Some(binary@[a / 4]@[a % 4])
                } else {
                    old(self)@.mem.ram[a]
                }),
    {
        let ghost binary_view = binary@;
        self.mem.prog(binary);
    }

    /// Flips switch `index` in the switches half-word.
    pub fn toggle_sw(&mut self, index: usize)
        requires
            old(self).wf(),
            index < 16,
        ensures
            final(self).wf(),
            final(self)@ == toggle_spec(old(self)@, index),
    {
        let mut null = NullLogger;
        let prev_state = self.mem_rd(SWITCHES_ADDR, Size::HalfWord);
        let updated_state: u32 = prev_state ^ (1u32 << index);
        self.mem.wr(SWITCHES_ADDR, updated_state, Size::HalfWord, &mut null);
        proof {
            lemma_write_preserves_layout(
                old(self)@.mem,
                SWITCHES_ADDR,
                updated_state,
                Size::HalfWord,
            );
            assert(self@ =~~= toggle_spec(old(self)@, index));
        }
    }
}

/// Register x0 survives every cycle: whatever instruction a step fetches,
/// decodes and executes — stores to x0 included — x0 still reads as zero
/// afterwards, so it reads as zero after every sequence of steps.
pub proof fn lemma_step_preserves_x0(m: McuView)
    requires
        m.regs.len() == 32,
        m.regs[0] == 0,
    ensures
        step_spec(m).regs.len() == 32,
        step_spec(m).regs[0] == 0,
{
}

/// Toggling the same switch twice returns the machine to its exact
/// starting state, whatever that state was.
pub proof fn lemma_toggle_twice(m: McuView, index: usize)
    requires
        standard_layout(m.mem),
        index < 16,
    ensures
        toggle_spec(toggle_spec(m, index), index) == m,
{
    let devs = m.mem.devices;
    let bytes = devs[0].bytes;
    let b0 = bytes[0] as int;
    let b1 = bytes[1] as int;
    lemma_find_dev_hit(devs, SWITCHES_ADDR, 0);
    let v = mem_read(m.mem, SWITCHES_ADDR, Size::HalfWord);
    assert(v == b0 + 0x100 * b1);
    let msk = 1u32 << index;
    assert(msk < 0x10000) by (bit_vector)
        requires
            msk == 1u32 << index,
            index < 16,
    ;
    let u = v ^ msk;
    let m1 = toggle_spec(m, index);
    let devs1 = m1.mem.devices;
    assert(devs1[0].bytes =~= seq![le_byte(u, 0), le_byte(u, 1)]);
    lemma_find_dev_hit(devs1, SWITCHES_ADDR, 0);
    let v1 = mem_read(m1.mem, SWITCHES_ADDR, Size::HalfWord);
    lemma_le_recompose(u);
    assert(v1 == (u & 0xffff));
    assert(u < 0x10000 && (u & 0xffff) == u && ((u & 0xffff) ^ msk) == v) by (bit_vector)
        requires
            u == v ^ msk,
            v < 0x10000,
            msk < 0x10000,
    ;
    let m2 = toggle_spec(m1, index);
    assert((v / 0x100) % 0x100 == b1 && v % 0x100 == b0) by (nonlinear_arith)
        requires
            v == b0 + 0x100 * b1,
            0 <= b0 < 0x100,
            0 <= b1 < 0x100,
    ;
    assert(m2.mem.devices[0].bytes =~= bytes);
    assert(m2.mem.devices =~~= devs);
    assert(m2 =~~= m);
}

/// A half-word read never exceeds 16 bits.
proof fn lemma_halfword_read_bound(m: MemView, addr: u32)
    ensures
        mem_read(m, addr, Size::HalfWord) < 0x10000,
{
    lemma_find_dev_range(m.devices, addr);
}

} // verus!
