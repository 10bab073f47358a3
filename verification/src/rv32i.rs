//! RV32I instruction decoding: field extraction, immediate assembly with
//! sign extension, and the map from (opcode, funct3, funct7) to one of the
//! 38 operation kinds.
//!
//! Decoding is total: every 32-bit word yields exactly one [`Instruction`].
//! Unrecognised encodings become [`Operation::Invalid`] with all operand
//! fields zero — rejection is a data value here, judged later by the
//! execution engine's validate step.

use vstd::prelude::*;
use vstd::string::*;

verus! {

/// The operation kinds of the RV32I base set handled by the engine, plus
/// the `Invalid` sentinel for encodings that match none of them.
#[derive(Clone, Copy, Debug, PartialEq, Eq, Structural)]
pub enum Operation {
    // load upper
    LUI,
    AUIPC,
    // jump
    JAL,
    JALR,
    // branch
    BEQ,
    BNE,
    BLT,
    BGE,
    BLTU,
    BGEU,
    // load
    LB,
    LH,
    LW,
    LBU,
    LHU,
    // store
    SB,
    SH,
    SW,
    // arithmetic w/ immediates
    ADDI,
    SLTI,
    SLTIU,
    XORI,
    ORI,
    ANDI,
    SLLI,
    SRLI,
    SRAI,
    // arithmetic
    ADD,
    SUB,
    SLL,
    SLT,
    SLTU,
    XOR,
    SRL,
    SRA,
    OR,
    AND,
    // no match
    Invalid,
}

/// One decoded instruction.  The register fields are raw 5-bit values and
/// `imm` is already sign-extended and shifted into its final two's
/// complement form; nothing here is validated yet.
#[derive(Clone, Copy, Debug, PartialEq, Eq, Structural)]
pub struct Instruction {
    pub op: Operation,
    pub rs1: u32,
    pub rs2: u32,
    pub rd: u32,
    pub imm: u32,
}

// ------------------------------------------------------------------
// Field extraction, specified bit-for-bit after the RV32I format tables.
// ------------------------------------------------------------------

/// Bits [6:0]: the major opcode.
pub open spec fn opcode_of(w: u32) -> u32 {
    w & 0x7f
}

/// Bits [14:12].
pub open spec fn funct3_of(w: u32) -> u32 {
    (w >> 12) & 0x7
}

/// Bits [31:25].
pub open spec fn funct7_of(w: u32) -> u32 {
    (w >> 25) & 0x7f
}

/// Bits [11:7].
pub open spec fn rd_of(w: u32) -> u32 {
    (w >> 7) & 0x1f
}

/// Bits [19:15].
pub open spec fn rs1_of(w: u32) -> u32 {
    (w >> 15) & 0x1f
}

/// Bits [24:20].
pub open spec fn rs2_of(w: u32) -> u32 {
    (w >> 20) & 0x1f
}

/// U-immediate: word bits [31:12] in result bits [31:12], low 12 bits zero.
pub open spec fn u_imm_of(w: u32) -> u32 {
    w & 0xfffff000
}

/// I-immediate: result bits [10:0] from word [30:20]; word bit 31
/// replicated into result bits [31:11].
pub open spec fn i_imm_of(w: u32) -> u32 {
    if w & 0x80000000 != 0 {
        ((w >> 20) & 0x7ff) | 0xfffff800
    } else {
        (w >> 20) & 0x7ff
    }
}

/// S-immediate: result bits [10:5] from word [30:25], bits [4:0] from word
/// [11:7]; word bit 31 replicated into result bits [31:11].
pub open spec fn s_imm_of(w: u32) -> u32 {
    if w & 0x80000000 != 0 {
        ((w >> 20) & 0x7e0) | ((w >> 7) & 0x1f) | 0xfffff800
    } else {
        ((w >> 20) & 0x7e0) | ((w >> 7) & 0x1f)
    }
}

/// B-immediate: result bit 11 from word bit 7, bits [10:5] from word
/// [30:25], bits [4:1] from word [11:8], bit 0 always zero; word bit 31
/// replicated into result bits [31:12].
pub open spec fn b_imm_of(w: u32) -> u32 {
    if w & 0x80000000 != 0 {
        ((w & 0x80) << 4) | ((w >> 20) & 0x7e0) | ((w >> 7) & 0x1e) | 0xfffff000
    } else {
        ((w & 0x80) << 4) | ((w >> 20) & 0x7e0) | ((w >> 7) & 0x1e)
    }
}

/// J-immediate: result bits [19:12] from word [19:12], bit 11 from word
/// bit 20, bits [10:1] from word [30:21], bit 0 always zero; word bit 31
/// replicated into result bits [31:20].
pub open spec fn j_imm_of(w: u32) -> u32 {
    if w & 0x80000000 != 0 {
        (w & 0xff000) | ((w >> 9) & 0x800) | ((w >> 20) & 0x7fe) | 0xfff00000
    } else {
        (w & 0xff000) | ((w >> 9) & 0x800) | ((w >> 20) & 0x7fe)
    }
}

// ------------------------------------------------------------------
// The operation table.
// ------------------------------------------------------------------

/// Maps a word to its operation kind.  Total: exactly one kind (possibly
/// `Invalid`) for every 32-bit word.
pub open spec fn op_of(w: u32) -> Operation {
    let opcode = opcode_of(w);
    let funct3 = funct3_of(w);
    let funct7 = funct7_of(w);
    if opcode == 0b0110111 {
        Operation::LUI
    } else if opcode == 0b0010111 {
        Operation::AUIPC
    } else if opcode == 0b1101111 {
        Operation::JAL
    } else if opcode == 0b1100111 {
        Operation::JALR
    } else if opcode == 0b1100011 {
        if funct3 == 0b000 {
            Operation::BEQ
        } else if funct3 == 0b001 {
            Operation::BNE
        } else if funct3 == 0b100 {
            Operation::BLT
        } else if funct3 == 0b101 {
            Operation::BGE
        } else if funct3 == 0b110 {
            Operation::BLTU
        } else if funct3 == 0b111 {
            Operation::BGEU
        } else {
            Operation::Invalid
        }
    } else if opcode == 0b0000011 {
        if funct3 == 0b000 {
            Operation::LB
        } else if funct3 == 0b001 {
            Operation::LH
        } else if funct3 == 0b010 {
            Operation::LW
        } else if funct3 == 0b100 {
            Operation::LBU
        } else if funct3 == 0b101 {
            Operation::LHU
        } else {
            Operation::Invalid
        }
    } else if opcode == 0b0100011 {
        if funct3 == 0b000 {
            Operation::SB
        } else if funct3 == 0b001 {
            Operation::SH
        } else if funct3 == 0b010 {
            Operation::SW
        } else {
            Operation::Invalid
        }
    } else if opcode == 0b0010011 {
        if funct3 == 0b000 {
            Operation::ADDI
        } else if funct3 == 0b010 {
            Operation::SLTI
        } else if funct3 == 0b011 {
            Operation::SLTIU
        } else if funct3 == 0b100 {
            Operation::XORI
        } else if funct3 == 0b110 {
            Operation::ORI
        } else if funct3 == 0b111 {
            Operation::ANDI
        } else if funct3 == 0b001 {
            Operation::SLLI
        } else if funct3 == 0b101 {
            if funct7 == 0b0000000 {
                Operation::SRLI
            } else if funct7 == 0b0100000 {
                Operation::SRAI
            } else {
                Operation::Invalid
            }
        } else {
            Operation::Invalid
        }
    } else if opcode == 0b0110011 {
        if funct3 == 0b000 {
            if funct7 == 0b0000000 {
                Operation::ADD
            } else if funct7 == 0b0100000 {
                Operation::SUB
            } else {
                Operation::Invalid
            }
        } else if funct3 == 0b001 {
            Operation::SLL
        } else if funct3 == 0b010 {
            Operation::SLT
        } else if funct3 == 0b011 {
            Operation::SLTU
        } else if funct3 == 0b100 {
            Operation::XOR
        } else if funct3 == 0b101 {
            if funct7 == 0b0000000 {
                Operation::SRL
            } else if funct7 == 0b0100000 {
                Operation::SRA
            } else {
                Operation::Invalid
            }
        } else if funct3 == 0b110 {
            Operation::OR
        } else if funct3 == 0b111 {
            Operation::AND
        } else {
            Operation::Invalid
        }
    } else {
        Operation::Invalid
    }
}

/// The immediate carried by a word, chosen by the format of its operation
/// class; register-register operations carry no immediate and get zero.
pub open spec fn imm_of(w: u32) -> u32 {
    match op_of(w) {
        Operation::LUI => u_imm_of(w),
        Operation::AUIPC => u_imm_of(w),
        Operation::JAL => j_imm_of(w),
        Operation::JALR => i_imm_of(w),
        Operation::BEQ => b_imm_of(w),
        Operation::BNE => b_imm_of(w),
        Operation::BLT => b_imm_of(w),
        Operation::BGE => b_imm_of(w),
        Operation::BLTU => b_imm_of(w),
        Operation::BGEU => b_imm_of(w),
        Operation::LB => i_imm_of(w),
        Operation::LH => i_imm_of(w),
        Operation::LW => i_imm_of(w),
        Operation::LBU => i_imm_of(w),
        Operation::LHU => i_imm_of(w),
        Operation::SB => s_imm_of(w),
        Operation::SH => s_imm_of(w),
        Operation::SW => s_imm_of(w),
        Operation::ADDI => i_imm_of(w),
        Operation::SLTI => i_imm_of(w),
        Operation::SLTIU => i_imm_of(w),
        Operation::XORI => i_imm_of(w),
        Operation::ORI => i_imm_of(w),
        Operation::ANDI => i_imm_of(w),
        Operation::SLLI => i_imm_of(w),
        Operation::SRLI => i_imm_of(w),
        Operation::SRAI => i_imm_of(w),
        _ => 0,
    }
}

/// What `decode` returns for every word: the operation kind, the raw
/// register fields, and the format's immediate — or the all-zero `Invalid`
/// record when the word matches no operation.
pub open spec fn decode_spec(w: u32) -> Instruction {
    if op_of(w) is Invalid {
        Instruction { op: Operation::Invalid, rs1: 0, rs2: 0, rd: 0, imm: 0 }
    } else {
        Instruction {
            op: op_of(w),
            rs1: rs1_of(w),
            rs2: rs2_of(w),
            rd: rd_of(w),
            imm: imm_of(w),
        }
    }
}

// ------------------------------------------------------------------
// Executable decoding.
// ------------------------------------------------------------------

fn decode_funct3(w: u32) -> (r: u32)
    ensures
        r == funct3_of(w),
{
    (w >> 12) & 0x7
}

fn decode_funct7(w: u32) -> (r: u32)
    ensures
        r == funct7_of(w),
{
    (w >> 25) & 0x7f
}

fn decode_rd(w: u32) -> (r: u32)
    ensures
        r == rd_of(w),
{
    (w >> 7) & 0x1f
}

fn decode_rs1(w: u32) -> (r: u32)
    ensures
        r == rs1_of(w),
{
    (w >> 15) & 0x1f
}

fn decode_rs2(w: u32) -> (r: u32)
    ensures
        r == rs2_of(w),
{
    (w >> 20) & 0x1f
}

fn decode_u_imm(w: u32) -> (r: u32)
    ensures
        r == u_imm_of(w),
{
    w & 0xfffff000
}

fn decode_i_imm(w: u32) -> (r: u32)
    ensures
        r == i_imm_of(w),
{
    let low: u32 = (w >> 20) & 0x7ff;
    if w & 0x80000000 != 0 {
        low | 0xfffff800
    } else {
        low
    }
}

fn decode_s_imm(w: u32) -> (r: u32)
    ensures
        r == s_imm_of(w),
{
    let low: u32 = ((w >> 20) & 0x7e0) | ((w >> 7) & 0x1f);
    if w & 0x80000000 != 0 {
        low | 0xfffff800
    } else {
        low
    }
}

fn decode_b_imm(w: u32) -> (r: u32)
    ensures
        r == b_imm_of(w),
{
    let low: u32 = ((w & 0x80) << 4) | ((w >> 20) & 0x7e0) | ((w >> 7) & 0x1e);
    if w & 0x80000000 != 0 {
        low | 0xfffff000
    } else {
        low
    }
}

fn decode_j_imm(w: u32) -> (r: u32)
    ensures
        r == j_imm_of(w),
{
    let low: u32 = (w & 0xff000) | ((w >> 9) & 0x800) | ((w >> 20) & 0x7fe);
    if w & 0x80000000 != 0 {
        low | 0xfff00000
    } else {
        low
    }
}

/// Decodes a raw instruction word.  Total — every word yields exactly one
/// instruction record, pinned down by [`decode_spec`]; unmatched encodings
/// come back as `Invalid` with all operand fields zero.
pub fn decode(ir: u32) -> (r: Instruction)
    ensures
        r == decode_spec(ir),
{
    let opcode: u32 = ir & 0x7f;
    let funct3: u32 = decode_funct3(ir);
    let funct7: u32 = decode_funct7(ir);

    let mut op_type: Operation = Operation::Invalid;
    let mut imm: u32 = 0;

    match opcode {
        // lui
        0b0110111 => {
            op_type = Operation::LUI;
            imm = decode_u_imm(ir);
        },
        // auipc
        0b0010111 => {
            op_type = Operation::AUIPC;
            imm = decode_u_imm(ir);
        },
        // jal
        0b1101111 => {
            op_type = Operation::JAL;
            imm = decode_j_imm(ir);
        },
        // jalr
        0b1100111 => {
            op_type = Operation::JALR;
            imm = decode_i_imm(ir);
        },
        // branch
        0b1100011 => {
            imm = decode_b_imm(ir);
            match funct3 {
                0b000 => op_type = Operation::BEQ,
                0b001 => op_type = Operation::BNE,
                0b100 => op_type = Operation::BLT,
                0b101 => op_type = Operation::BGE,
                0b110 => op_type = Operation::BLTU,
                0b111 => op_type = Operation::BGEU,
                _ => (),
            }
        },
        // load
        0b0000011 => {
            imm = decode_i_imm(ir);
            match funct3 {
                0b000 => op_type = Operation::LB,
                0b001 => op_type = Operation::LH,
                0b010 => op_type = Operation::LW,
                0b100 => op_type = Operation::LBU,
                0b101 => op_type = Operation::LHU,
                _ => (),
            }
        },
        // store
        0b0100011 => {
            imm = decode_s_imm(ir);
            match funct3 {
                0b000 => op_type = Operation::SB,
                0b001 => op_type = Operation::SH,
                0b010 => op_type = Operation::SW,
                _ => (),
            }
        },
        // arithmetic w/ immediate
        0b0010011 => {
            imm = decode_i_imm(ir);
            match funct3 {
                0b000 => op_type = Operation::ADDI,
                0b010 => op_type = Operation::SLTI,
                0b011 => op_type = Operation::SLTIU,
                0b100 => op_type = Operation::XORI,
                0b110 => op_type = Operation::ORI,
                0b111 => op_type = Operation::ANDI,
                0b001 => op_type = Operation::SLLI,
                0b101 => match funct7 {
                    0b0000000 => op_type = Operation::SRLI,
                    0b0100000 => op_type = Operation::SRAI,
                    _ => (),
                },
                _ => (),
            }
        },
        // arithmetic
        0b0110011 => {
            match funct3 {
                0b000 => match funct7 {
                    0b0000000 => op_type = Operation::ADD,
                    0b0100000 => op_type = Operation::SUB,
                    _ => (),
                },
                0b001 => op_type = Operation::SLL,
                0b010 => op_type = Operation::SLT,
                0b011 => op_type = Operation::SLTU,
                0b100 => op_type = Operation::XOR,
                0b101 => match funct7 {
                    0b0000000 => op_type = Operation::SRL,
                    0b0100000 => op_type = Operation::SRA,
                    _ => (),
                },
                0b110 => op_type = Operation::OR,
                0b111 => op_type = Operation::AND,
                _ => (),
            }
        },
        _ => (),
    }

    if matches!(op_type, Operation::Invalid) {
        Instruction { op: Operation::Invalid, rs1: 0, rs2: 0, rd: 0, imm: 0 }
    } else {
        Instruction {
            op: op_type,
            rs1: decode_rs1(ir),
            rs2: decode_rs2(ir),
            rd: decode_rd(ir),
            imm,
        }
    }
}

// ------------------------------------------------------------------
// Immediate round trips: placing an in-range immediate into a word and
// extracting it again recovers the immediate, whatever the word's other
// bits hold.
// ------------------------------------------------------------------

/// An immediate representable by the U format: low 12 bits zero.
pub open spec fn fits_u_imm(imm: u32) -> bool {
    imm & 0xfff == 0
}

/// An immediate representable by the I and S formats: a sign-extended
/// 12-bit two's complement value.
pub open spec fn fits_i_imm(imm: u32) -> bool {
    imm < 0x800 || imm >= 0xfffff800
}

/// An immediate representable by the B format: a sign-extended 13-bit
/// value with bit 0 clear.
pub open spec fn fits_b_imm(imm: u32) -> bool {
    imm & 1 == 0 && (imm < 0x1000 || imm >= 0xfffff000)
}

/// An immediate representable by the J format: a sign-extended 21-bit
/// value with bit 0 clear.
pub open spec fn fits_j_imm(imm: u32) -> bool {
    imm & 1 == 0 && (imm < 0x100000 || imm >= 0xfff00000)
}

/// A word carrying `imm` in the U position, with the other bits (the low
/// 12: opcode and rd) taken from `rest`.
pub open spec fn encode_u_imm(imm: u32, rest: u32) -> u32 {
    (imm & 0xfffff000) | (rest & 0xfff)
}

/// A word carrying `imm` in the I position, with word bits [19:0] taken
/// from `rest`.
pub open spec fn encode_i_imm(imm: u32, rest: u32) -> u32 {
    ((imm & 0xfff) << 20) | (rest & 0xfffff)
}

/// A word carrying `imm` in the S position, with the non-immediate word
/// bits ([24:12] and [6:0]) taken from `rest`.
pub open spec fn encode_s_imm(imm: u32, rest: u32) -> u32 {
    (((imm >> 5) & 0x7f) << 25) | ((imm & 0x1f) << 7) | (rest & 0x01fff07f)
}

/// A word carrying `imm` in the B position, with the non-immediate word
/// bits ([24:12] and [6:0]) taken from `rest`.
pub open spec fn encode_b_imm(imm: u32, rest: u32) -> u32 {
    (((imm >> 12) & 1) << 31) | (((imm >> 5) & 0x3f) << 25) | (((imm >> 1) & 0xf) << 8) | (((imm
        >> 11) & 1) << 7) | (rest & 0x01fff07f)
}

/// A word carrying `imm` in the J position, with word bits [11:0] taken
/// from `rest`.
pub open spec fn encode_j_imm(imm: u32, rest: u32) -> u32 {
    (((imm >> 20) & 1) << 31) | (((imm >> 1) & 0x3ff) << 21) | (((imm >> 11) & 1) << 20) | (imm
        & 0xff000) | (rest & 0xfff)
}

/// Round trip for the U format: extraction recovers every representable
/// immediate from every word that encodes it.
pub proof fn lemma_u_imm_round_trip(imm: u32, rest: u32)
    by (bit_vector)
    requires
        fits_u_imm(imm),
    ensures
        u_imm_of(encode_u_imm(imm, rest)) == imm,
{
}

/// Round trip for the I format, including the most negative value
/// (`0xfffff800`, i.e. -2048).
pub proof fn lemma_i_imm_round_trip(imm: u32, rest: u32)
    by (bit_vector)
    requires
        fits_i_imm(imm),
    ensures
        i_imm_of(encode_i_imm(imm, rest)) == imm,
{
}

/// Round trip for the S format, including the most negative value.
pub proof fn lemma_s_imm_round_trip(imm: u32, rest: u32)
    by (bit_vector)
    requires
        fits_i_imm(imm),
    ensures
        s_imm_of(encode_s_imm(imm, rest)) == imm,
{
}

/// Round trip for the B format, including the most negative value
/// (`0xfffff000`, i.e. -4096).
pub proof fn lemma_b_imm_round_trip(imm: u32, rest: u32)
    by (bit_vector)
    requires
        fits_b_imm(imm),
    ensures
        b_imm_of(encode_b_imm(imm, rest)) == imm,
{
}

/// Round trip for the J format, including the most negative value
/// (`0xfff00000`, i.e. -1048576).
pub proof fn lemma_j_imm_round_trip(imm: u32, rest: u32)
    by (bit_vector)
    requires
        fits_j_imm(imm),
    ensures
        j_imm_of(encode_j_imm(imm, rest)) == imm,
{
}

// ------------------------------------------------------------------
// Register names.
// ------------------------------------------------------------------

/// The ABI name of register `index`, or "None" for an index no register
/// has.
pub open spec fn reg_name_spec(index: u32) -> Seq<char> {
    if index == 0 {
        "zero"@
    } else if index == 1 {
        "ra"@
    } else if index == 2 {
        "sp"@
    } else if index == 3 {
        "gp"@
    } else if index == 4 {
        "tp"@
    } else if index == 5 {
        "t0"@
    } else if index == 6 {
        "t1"@
    } else if index == 7 {
        "t2"@
    } else if index == 8 {
        "s0"@
    } else if index == 9 {
        "s1"@
    } else if index == 10 {
        "a0"@
    } else if index == 11 {
        "a1"@
    } else if index == 12 {
        "a2"@
    } else if index == 13 {
        "a3"@
    } else if index == 14 {
        "a4"@
    } else if index == 15 {
        "a5"@
    } else if index == 16 {
        "a6"@
    } else if index == 17 {
        "a7"@
    } else if index == 18 {
        "s2"@
    } else if index == 19 {
        "s3"@
    } else if index == 20 {
        "s4"@
    } else if index == 21 {
        "s5"@
    } else if index == 22 {
        "s6"@
    } else if index == 23 {
        "s7"@
    } else if index == 24 {
        "s8"@
    } else if index == 25 {
        "s9"@
    } else if index == 26 {
        "s10"@
    } else if index == 27 {
        "s11"@
    } else if index == 28 {
        "t3"@
    } else if index == 29 {
        "t4"@
    } else if index == 30 {
        "t5"@
    } else if index == 31 {
        "t6"@
    } else {
        "None"@
    }
}

/// The ABI name of register `index` as an owned string.
pub fn reg_name(index: u32) -> (r: String)
    ensures
        r@ == reg_name_spec(index),
{
    String::from_str(
        match index {
            0 => "zero",
            1 => "ra",
            2 => "sp",
            3 => "gp",
            4 => "tp",
            5 => "t0",
            6 => "t1",
            7 => "t2",
            8 => "s0",
            9 => "s1",
            10 => "a0",
            11 => "a1",
            12 => "a2",
            13 => "a3",
            14 => "a4",
            15 => "a5",
            16 => "a6",
            17 => "a7",
            18 => "s2",
            19 => "s3",
            20 => "s4",
            21 => "s5",
            22 => "s6",
            23 => "s7",
            24 => "s8",
            25 => "s9",
            26 => "s10",
            27 => "s11",
            28 => "t3",
            29 => "t4",
            30 => "t5",
            31 => "t6",
            _ => "None",
        },
    )
}

} // verus!
