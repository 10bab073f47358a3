use otter::log::{EventLog, LogEvent, NullLogger};
use otter::mcu::{LEDS_ADDR, MCU, SWITCHES_ADDR};
use otter::mem::Size;
use otter::rv32i::{Instruction, Operation};

fn instr(op: Operation, rs1: u32, rs2: u32, rd: u32, imm: u32) -> Instruction {
    Instruction { op, rs1, rs2, rd, imm }
}

#[test]
fn simple_add() {
    let mut null = NullLogger;
    let mut mcu = MCU::new();

    //addi x1, x0, 2
    //addi x2, x0, 3
    mcu.exec(instr(Operation::ADDI, 0, 0, 1, 2), &mut null);
    assert_eq!(2, mcu.rf_rd(1));

    mcu.exec(instr(Operation::ADDI, 0, 0, 2, 3), &mut null);

    assert_eq!(2, mcu.rf_rd(1));
    assert_eq!(3, mcu.rf_rd(2));

    // add x3, x1, x2
    mcu.exec(instr(Operation::ADD, 1, 2, 3, 0), &mut null);

    assert_eq!(2, mcu.rf_rd(1));
    assert_eq!(3, mcu.rf_rd(2));
    assert_eq!(5, mcu.rf_rd(3));
}

#[test]
fn otter_add_addi() {
    let mut null = NullLogger;
    let mut mcu = MCU::new();
    mcu.exec(instr(Operation::ADDI, 0, 0, 1, 2), &mut null);
    assert_eq!(2, mcu.rf_rd(1));
    mcu.exec(instr(Operation::ADDI, 0, 0, 2, 3), &mut null);
    assert_eq!(2, mcu.rf_rd(1));
    assert_eq!(3, mcu.rf_rd(2));
    mcu.exec(instr(Operation::ADD, 1, 2, 3, 0), &mut null);
    assert_eq!(2, mcu.rf_rd(1));
    assert_eq!(3, mcu.rf_rd(2));
    assert_eq!(5, mcu.rf_rd(3));
}

#[test]
fn mcu_add_addi() {
    let mut null = NullLogger;
    let mut mcu = MCU::new();
    mcu.exec(instr(Operation::ADDI, 0, 0, 1, 2), &mut null);
    mcu.exec(instr(Operation::ADDI, 0, 0, 2, 3), &mut null);
    mcu.exec(instr(Operation::ADD, 1, 2, 3, 0), &mut null);
    assert_eq!(5, mcu.rf_rd(3));
}

#[test]
fn add_wraps_around() {
    // ADD with rs1 = 0xFFFFFFFF and rs2 = 1 yields 0, not a fault.
    let mut null = NullLogger;
    let mut mcu = MCU::new();
    mcu.exec(instr(Operation::ADDI, 0, 0, 1, 0xFFFFFFFF), &mut null);
    mcu.exec(instr(Operation::ADDI, 0, 0, 2, 1), &mut null);
    assert_eq!(0xFFFFFFFF, mcu.rf_rd(1));
    mcu.exec(instr(Operation::ADD, 1, 2, 3, 0), &mut null);
    assert_eq!(0, mcu.rf_rd(3));
}

#[test]
fn jal_links_and_jumps() {
    // JAL rd=x1 at pc=0x100 with imm=0x20: x1 == 0x104 and pc == 0x120.
    let mut null = NullLogger;
    let mut mcu = MCU::new();
    mcu.pc = 0x100;
    mcu.exec(instr(Operation::JAL, 0, 0, 1, 0x20), &mut null);
    assert_eq!(0x104, mcu.rf_rd(1));
    assert_eq!(0x120, mcu.pc);
}

#[test]
fn branch_taken_and_fallthrough() {
    // BEQ x0, x0, +8 at pc=0x40 lands at 0x48; BNE x0, x0, +8 falls
    // through to 0x44.
    let mut null = NullLogger;
    let mut mcu = MCU::new();
    mcu.pc = 0x40;
    mcu.exec(instr(Operation::BEQ, 0, 0, 0, 8), &mut null);
    assert_eq!(0x48, mcu.pc);
    mcu.pc = 0x40;
    mcu.exec(instr(Operation::BNE, 0, 0, 0, 8), &mut null);
    assert_eq!(0x44, mcu.pc);
}

#[test]
fn store_load_round_trip() {
    // SW of 0xDEADBEEF at rs1=0, imm=0x10, then LW from the same
    // effective address.
    let mut null = NullLogger;
    let mut mcu = MCU::new();
    mcu.exec(instr(Operation::ADDI, 0, 0, 2, 0xDEADBEEF), &mut null);
    mcu.exec(instr(Operation::SW, 0, 2, 0, 0x10), &mut null);
    mcu.exec(instr(Operation::LW, 0, 0, 3, 0x10), &mut null);
    assert_eq!(0xDEADBEEF, mcu.rf_rd(3));
    assert_eq!(0xDEADBEEF, mcu.mem_rd(0x10, Size::Word));
}

#[test]
fn load_sign_extension() {
    // LB of a stored 0x80 sign-extends to 0xFFFFFF80; LBU zero-extends.
    let mut null = NullLogger;
    let mut mcu = MCU::new();
    mcu.exec(instr(Operation::ADDI, 0, 0, 1, 0x80), &mut null);
    mcu.exec(instr(Operation::SB, 0, 1, 0, 0), &mut null);
    mcu.exec(instr(Operation::LB, 0, 0, 2, 0), &mut null);
    mcu.exec(instr(Operation::LBU, 0, 0, 3, 0), &mut null);
    assert_eq!(0xFFFFFF80, mcu.rf_rd(2));
    assert_eq!(0x00000080, mcu.rf_rd(3));
    // LH of a stored 0x8000 sign-extends; LHU zero-extends.
    mcu.exec(instr(Operation::ADDI, 0, 0, 1, 0x8000), &mut null);
    mcu.exec(instr(Operation::SH, 0, 1, 0, 4), &mut null);
    mcu.exec(instr(Operation::LH, 0, 0, 2, 4), &mut null);
    mcu.exec(instr(Operation::LHU, 0, 0, 3, 4), &mut null);
    assert_eq!(0xFFFF8000, mcu.rf_rd(2));
    assert_eq!(0x00008000, mcu.rf_rd(3));
}

#[test]
fn shifts_and_comparisons() {
    let mut null = NullLogger;
    let mut mcu = MCU::new();
    mcu.exec(instr(Operation::ADDI, 0, 0, 1, 0xFFFFFF00), &mut null);
    // SRAI keeps the sign, SRLI does not.
    mcu.exec(instr(Operation::SRAI, 1, 0, 2, 4), &mut null);
    mcu.exec(instr(Operation::SRLI, 1, 0, 3, 4), &mut null);
    assert_eq!(0xFFFFFFF0, mcu.rf_rd(2));
    assert_eq!(0x0FFFFFF0, mcu.rf_rd(3));
    // SLT is signed (-256 < 1), SLTU is unsigned.
    mcu.exec(instr(Operation::ADDI, 0, 0, 4, 1), &mut null);
    mcu.exec(instr(Operation::SLT, 1, 4, 5, 0), &mut null);
    mcu.exec(instr(Operation::SLTU, 1, 4, 6, 0), &mut null);
    assert_eq!(1, mcu.rf_rd(5));
    assert_eq!(0, mcu.rf_rd(6));
    // SLLI
    mcu.exec(instr(Operation::ADDI, 0, 0, 7, 1), &mut null);
    mcu.exec(instr(Operation::SLLI, 7, 0, 8, 12), &mut null);
    assert_eq!(0x1000, mcu.rf_rd(8));
}

#[test]
fn validate_substitutes_no_op() {
    // An instruction naming register 40 becomes the inert
    // ADD x0, x0, x0 and mutates nothing.
    let mut log = EventLog::new();
    let mut null = NullLogger;
    let mut mcu = MCU::new();
    let bad = instr(Operation::ADDI, 40, 0, 1, 7);
    let fixed = MCU::validate(bad, 0, &mut log);
    assert_eq!(fixed, instr(Operation::ADD, 0, 0, 0, 0));
    assert_eq!(vec![LogEvent::InvalidRegister { pc: 0 }], log.events);
    mcu.exec(fixed, &mut null);
    for (i, v) in mcu.rf().iter().enumerate() {
        assert_eq!(0, *v, "register x{} changed", i);
    }
    assert_eq!(4, mcu.pc);
}

#[test]
fn validate_rejects_invalid() {
    let mut log = EventLog::new();
    let bad = instr(Operation::Invalid, 0, 0, 0, 0);
    let fixed = MCU::validate(bad, 0x44, &mut log);
    assert_eq!(fixed, instr(Operation::ADD, 0, 0, 0, 0));
    assert_eq!(vec![LogEvent::InvalidInstruction { pc: 0x44 }], log.events);
}

#[test]
fn toggle_switch_twice_restores() {
    // Toggling switch 3 twice returns the switches half-word to its
    // original value.
    let mut mcu = MCU::new();
    mcu.toggle_sw(5);
    let before = mcu.mem_rd(SWITCHES_ADDR, Size::HalfWord);
    mcu.toggle_sw(3);
    assert_eq!(before ^ 0x8, mcu.mem_rd(SWITCHES_ADDR, Size::HalfWord));
    mcu.toggle_sw(3);
    assert_eq!(before, mcu.mem_rd(SWITCHES_ADDR, Size::HalfWord));
    let switches = mcu.switches();
    assert_eq!(true, switches[5]);
    assert_eq!(false, switches[3]);
}

#[test]
fn leds_reflect_device_bits() {
    // leds() bit 0 reflects byte 0, bit 0 of the LED device region.
    let mut null = NullLogger;
    let mut mcu = MCU::new();
    mcu.exec(instr(Operation::ADDI, 0, 0, 1, LEDS_ADDR), &mut null);
    mcu.exec(instr(Operation::ADDI, 0, 0, 2, 0x101), &mut null);
    mcu.exec(instr(Operation::SH, 1, 2, 0, 0), &mut null);
    let leds = mcu.leds();
    assert_eq!(16, leds.len());
    assert_eq!(true, leds[0]);
    assert_eq!(false, leds[1]);
    assert_eq!(true, leds[8]);
    assert_eq!(false, leds[15]);
}

#[test]
fn sseg_reads_half_word() {
    let mut null = NullLogger;
    let mut mcu = MCU::new();
    assert_eq!(0, mcu.sseg());
    mcu.exec(
        instr(Operation::ADDI, 0, 0, 1, otter::mcu::SSEG_ADDR),
        &mut null,
    );
    mcu.exec(instr(Operation::ADDI, 0, 0, 2, 0xBEEF), &mut null);
    mcu.exec(instr(Operation::SH, 1, 2, 0, 0), &mut null);
    assert_eq!(0xBEEF, mcu.sseg());
}

#[test]
fn step_on_blank_memory_is_safe() {
    // A fresh machine's first fetch reads unset memory (a zero word),
    // which decodes to Invalid; the step substitutes a no-op, reports,
    // and advances pc.
    let mut log = EventLog::new();
    let mut mcu = MCU::new();
    mcu.step(&mut log);
    assert_eq!(4, mcu.pc);
    for v in mcu.rf().iter() {
        assert_eq!(0, *v);
    }
    assert!(log.events.contains(&LogEvent::ReadUnset { addr: 0 }));
    assert!(log.events.contains(&LogEvent::InvalidInstruction { pc: 0 }));
}

#[test]
fn program_then_step() {
    // addi x1, x0, 0x1d8 assembled little-endian, then one step.
    let mut null = NullLogger;
    let mut mcu = MCU::new();
    let binary: Vec<Vec<u8>> = vec![vec![0x93, 0x00, 0x80, 0x1d]];
    mcu.program(binary);
    assert_eq!(0x1d800093, mcu.mem_rd(0, Size::Word));
    mcu.step(&mut null);
    assert_eq!(0x1d8, mcu.rf_rd(1));
    assert_eq!(4, mcu.pc);
}

#[test]
fn reset_clears_cpu_not_memory() {
    let mut null = NullLogger;
    let mut mcu = MCU::new();
    mcu.exec(instr(Operation::ADDI, 0, 0, 1, 9), &mut null);
    mcu.exec(instr(Operation::SW, 0, 1, 0, 0x20), &mut null);
    mcu.pc = 0x80;
    mcu.reset();
    assert_eq!(0, mcu.pc);
    assert_eq!(0, mcu.rf_rd(1));
    assert_eq!(9, mcu.mem_rd(0x20, Size::Word));
}

#[test]
fn jalr_targets_register() {
    let mut null = NullLogger;
    let mut mcu = MCU::new();
    mcu.pc = 0x200;
    mcu.exec(instr(Operation::ADDI, 0, 0, 5, 0x300), &mut null);
    mcu.pc = 0x204;
    mcu.exec(instr(Operation::JALR, 5, 0, 1, 0x10), &mut null);
    assert_eq!(0x208, mcu.rf_rd(1));
    assert_eq!(0x310, mcu.pc);
}

#[test]
fn auipc_adds_to_pc() {
    let mut null = NullLogger;
    let mut mcu = MCU::new();
    mcu.pc = 0x1000;
    mcu.exec(instr(Operation::AUIPC, 0, 0, 1, 0x2000), &mut null);
    assert_eq!(0x3000, mcu.rf_rd(1));
    assert_eq!(0x1004, mcu.pc);
}
