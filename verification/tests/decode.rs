use otter::rv32i::{decode, reg_name, Operation};

#[test]
fn decode_branch1() {
    // bne x0, x16, 12
    let ir_bytes: u32 = 0x01001663;
    let ir = decode(ir_bytes);
    assert_eq!(ir.rs1, 0);
    assert_eq!(ir.rs2, 16);
    assert_eq!(ir.imm, 12);
}

#[test]
fn decode_branch2() {
    let ir_bytes: u32 = 0xfe000ae3;
    let ir = decode(ir_bytes);
    println!("got: {:#034b}", ir.imm);
    println!("exp: {:#034b}", -0xC);
    assert_eq!(-0xC, ir.imm as i32);
}

#[test]
fn jalr1() {
    // jalr -732(ra)
    let ir_bytes: u32 = 0xd24080e7;
    let ir = decode(ir_bytes);
    println!("got: {:#034b}", ir.imm);
    println!("exp: {:#034b}", -732);
    assert_eq!(-732, ir.imm as i32);
}

#[test]
fn lui1() {
    // lui x1, 15
    let ir_bytes: u32 = 0x0000f0b7;
    let ir = decode(ir_bytes);
    assert_eq!(ir.rd, 1);
    assert_eq!(ir.imm, 0b1111000000000000);
}

#[test]
fn addi1() {
    // addi x1, x0, 0x1d8
    let ir_bytes: u32 = 0x1d800093;
    let ir = decode(ir_bytes);
    assert_eq!(ir.rd, 1);
    assert_eq!(ir.rs1, 0);
    assert_eq!(ir.imm, 0x1d8);
}

#[test]
fn sw1() {
    // sw x1, 12(x2)
    let ir_bytes: u32 = 0x00112623;
    let ir = decode(ir_bytes);
    assert_eq!(ir.rs1, 2);
    assert_eq!(ir.rs2, 1);
    assert_eq!(ir.imm, 12);
}

#[test]
fn add1() {
    // add x13, x14, x15
    let ir_bytes: u32 = 0x00f706b3;
    let ir = decode(ir_bytes);
    assert_eq!(ir.rd, 13);
    assert_eq!(ir.rs1, 14);
    assert_eq!(ir.rs2, 15);
}

#[test]
fn jal1() {
    let ir_bytes: u32 = 0x9a1fe06f;
    let ir = decode(ir_bytes);
    println!(" ir: {:#034b}", ir_bytes);
    println!("got: {:#034b}", ir.imm);
    println!("exp: {:#034b}", -5728);
    assert_eq!(-5728, ir.imm as i32);
}

#[test]
fn rv32i_branch1() {
    let ir_bytes: u32 = 0x01001663;
    let ir = decode(ir_bytes);
    assert_eq!(ir.rs1, 0);
    assert_eq!(ir.rs2, 16);
    assert_eq!(ir.imm, 12);
}

#[test]
fn rv32i_branch2() {
    let ir_bytes: u32 = 0xfe000ae3;
    let ir = decode(ir_bytes);
    assert_eq!(-0xC, ir.imm as i32);
}

#[test]
fn lui() {
    let ir_bytes: u32 = 0x0000f0b7;
    let ir = decode(ir_bytes);
    assert_eq!(ir.rd, 1);
    assert_eq!(ir.imm, 0b1111000000000000);
}

#[test]
fn addi() {
    // addi x1, x0, 0x1d8
    let ir_bytes: u32 = 0x1d800093;
    let ir = decode(ir_bytes);
    assert_eq!(ir.rd, 1);
    assert_eq!(ir.rs1, 0);
    assert_eq!(ir.imm, 0x1d8);
}

#[test]
fn sw() {
    let ir_bytes: u32 = 0x00112623;
    let ir = decode(ir_bytes);
    assert_eq!(ir.rs1, 2);
    assert_eq!(ir.rs2, 1);
    assert_eq!(ir.imm, 12);
}

#[test]
fn add() {
    let ir_bytes: u32 = 0x00f706b3;
    let ir = decode(ir_bytes);
    assert_eq!(ir.rd, 13);
    assert_eq!(ir.rs1, 14);
    assert_eq!(ir.rs2, 15);
}

#[test]
fn jal() {
    // The J-format immediate of this word: bits [19:12] = 0x03,
    // bit 11 from word bit 20, bits [10:1] from word bits [30:21].
    let ir_bytes: u32 = 0x39903fef;
    let ir = decode(ir_bytes);
    assert_eq!(ir.rd, 31);
    assert_eq!(ir.imm, 0x3b98);
}

#[test]
fn jalr() {
    // jalr x1, 0x1d8
    let ir_bytes: u32 = 0x1d8100e7;
    let ir = decode(ir_bytes);
    assert_eq!(ir.rd, 1);
    assert_eq!(ir.imm, 0x1d8);
}

#[test]
fn test_branch() {
    let ir_bytes: u32 = 0x01001663;
    let ir = decode(ir_bytes);
    assert_eq!(ir.rs1, 0);
    assert_eq!(ir.rs2, 16);
    assert_eq!(ir.imm, 12);
}

#[test]
fn test_upper() {
    // lui x1, 15: the raw rs1 field of this word also reads as 1.
    let ir_bytes: u32 = 0x0000f0b7;
    let ir = decode(ir_bytes);
    assert_eq!(ir.rs1, 1);
    assert_eq!(ir.imm, 0b1111000000000000);
}

#[test]
fn test_arithm_imm() {
    // addi x31, x3, 124
    let ir_bytes: u32 = 0x07c18f93;
    let ir = decode(ir_bytes);
    assert_eq!(ir.rd, 31);
    assert_eq!(ir.rs1, 3);
    assert_eq!(ir.imm, 124);
}

#[test]
fn test_store() {
    // sw x1, 12(x2)
    let ir_bytes: u32 = 0x00112623;
    let ir = decode(ir_bytes);
    assert_eq!(ir.rs1, 2);
    assert_eq!(ir.rs2, 1);
    assert_eq!(ir.imm, 12);
}

#[test]
fn test_arithm() {
    let ir_bytes: u32 = 0x00f706b3;
    let ir = decode(ir_bytes);
    assert_eq!(ir.rd, 13);
    assert_eq!(ir.rs1, 14);
    assert_eq!(ir.rs2, 15);
}

#[test]
fn test_jump() {
    // jal x1, 0
    let ir_bytes: u32 = 0x000000ef;
    let ir = decode(ir_bytes);
    assert_eq!(ir.rd, 1);
    assert_eq!(ir.imm, 0);
}

#[test]
fn decode_is_total() {
    // Every word decodes to exactly one operation kind; an unmatched
    // encoding is the Invalid record with all fields zero.
    let ir = decode(0xFFFFFFFF);
    assert_eq!(ir.op, Operation::Invalid);
    assert_eq!(ir.rs1, 0);
    assert_eq!(ir.rs2, 0);
    assert_eq!(ir.rd, 0);
    assert_eq!(ir.imm, 0);
    let ir = decode(0x00000000);
    assert_eq!(ir.op, Operation::Invalid);
}

#[test]
fn imm_round_trip_extremes() {
    // The most negative immediate of each format survives decoding.
    // I: addi x0, x0, -2048
    assert_eq!(decode(0x80000013).imm, 0xFFFFF800);
    // S: sb x0, -2048(x0)
    assert_eq!(decode(0x80000023).imm, 0xFFFFF800);
    // B: beq x0, x0, -4096
    assert_eq!(decode(0x80000063).imm, 0xFFFFF000);
    // J: jal x0, -1048576
    assert_eq!(decode(0x8000006F).imm, 0xFFF00000);
    // U: lui x0, 0xFFFFF
    assert_eq!(decode(0xFFFFF037).imm, 0xFFFFF000);
}

#[test]
fn register_names() {
    assert_eq!(reg_name(0), "zero");
    assert_eq!(reg_name(1), "ra");
    assert_eq!(reg_name(2), "sp");
    assert_eq!(reg_name(31), "t6");
    assert_eq!(reg_name(32), "None");
}
