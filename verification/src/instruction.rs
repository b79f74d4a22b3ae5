use vstd::prelude::*;
use crate::fields::{field, signed_field, sign_extend, bits32, lemma_shift_constants};
use crate::register::{Register, RegisterError};
use vstd::std_specs::convert::FromSpecImpl;

verus! {

broadcast use crate::register::Register::lemma_numbered;

/// Major opcode groups of the RV32I base encoding.
#[derive(Clone, Copy, Debug, PartialEq, Eq, Structural)]
pub enum Opcode {
    Lui,
    Auipc,
    Jal,
    Jalr,
    Branch,
    Load,
    Store,
    OpImm,
    Op,
    Fence,
    System,
}

/// A decoded 32-bit RV32E instruction.
#[allow(inconsistent_fields)]
#[derive(Clone, Copy, Debug, PartialEq, Eq, Structural)]
pub enum Instruction {
    Lui { rd: Register, imm: u32 },
    Auipc { rd: Register, imm: u32 },
    Jal { rd: Register, offset: i32 },
    Jalr { rd: Register, rs1: Register, offset: i32 },
    Branch { kind: u8, rs1: Register, rs2: Register, offset: i32 },
    Load { width: u8, signed: bool, rd: Register, rs1: Register, offset: i32 },
    Store { width: u8, rs1: Register, rs2: Register, offset: i32 },
    OpImm { kind: u8, rd: Register, rs1: Register, imm: i32 },
    Op { kind: u8, rd: Register, rs1: Register, rs2: Register },
    Fence,
    Ecall,
    Ebreak,
}

/// Why a word is not an instruction this hart can decode.
#[derive(Clone, Copy, Debug, PartialEq, Eq, Structural)]
pub enum DecodeError {
    UnknownOpcode(u8),
    UnknownSystem(u32),
    Register(RegisterError),
}

impl From<RegisterError> for DecodeError {
    fn from(value: RegisterError) -> (r: Self) {
        DecodeError::Register(value)
    }
}

impl FromSpecImpl<RegisterError> for DecodeError {
    open spec fn obeys_from_spec() -> bool {
        true
    }

    open spec fn from_spec(v: RegisterError) -> DecodeError {
        DecodeError::Register(v)
    }
}

/// The register named by the five-bit field of `raw` at bit `lo`, or why it is refused.
pub open spec fn register_at(raw: u32, lo: u32) -> Result<Register, DecodeError> {
    let f = field(raw, lo, 0x1f);
    if f < 16 {
        Ok(Register::numbered(f as nat))
    } else {
        Err(DecodeError::Register(RegisterError::NotRv32e(f as u8)))
    }
}

/// I-type immediate: bits 31..20, sign-extended.
pub open spec fn imm_i_spec(raw: u32) -> int {
    signed_field(field(raw, 20, 0xfff), 0x800)
}

/// S-type immediate: bits 31..25 and 11..7, sign-extended.
pub open spec fn imm_s_spec(raw: u32) -> int {
    signed_field(field(raw, 25, 0x7f) * 0x20 + field(raw, 7, 0x1f), 0x800)
}

/// B-type immediate: imm[12|10:5] in bits 31..25, imm[4:1|11] in bits 11..7.
pub open spec fn imm_b_spec(raw: u32) -> int {
    signed_field(
        field(raw, 31, 1) * 0x1000 + field(raw, 7, 1) * 0x800 + field(raw, 25, 0x3f) * 0x20
            + field(raw, 8, 0xf) * 2,
        0x1000,
    )
}

/// J-type immediate: imm[20|10:1|11|19:12] in bits 31..12.
pub open spec fn imm_j_spec(raw: u32) -> int {
    signed_field(
        field(raw, 31, 1) * 0x10_0000 + field(raw, 12, 0xff) * 0x1000 + field(raw, 20, 1) * 0x800
            + field(raw, 21, 0x3ff) * 2,
        0x10_0000,
    )
}

/// Access width in bytes of a load with the given `funct3`.
pub open spec fn load_width_spec(funct3: int) -> u8 {
    let low = funct3 % 4;
    if low == 0 {
        1
    } else if low == 1 {
        2
    } else {
        4
    }
}

/// Access width in bytes of a store with the given `funct3`.
pub open spec fn store_width_spec(funct3: int) -> u8 {
    if funct3 == 0 {
        1
    } else if funct3 == 1 {
        2
    } else {
        4
    }
}

/// Register-register operation selector: `funct3` plus 8 times the top two bits of `funct7`.
pub open spec fn op_kind_spec(raw: u32) -> int {
    field(raw, 12, 7) + 8 * field(raw, 30, 3)
}

/// What `decode` gives for each word: the RV32I base encoding restricted to RV32E registers.
/// Register fields are checked in the order rd, rs1, rs2; the first that is out of range is
/// the error.
pub open spec fn decode_spec(raw: u32) -> Result<Instruction, DecodeError> {
    let opcode = field(raw, 0, 0x7f);
    let funct3 = field(raw, 12, 7);
    if opcode == 0x37 {
        match register_at(raw, 7) {
            Ok(rd) => Ok(Instruction::Lui { rd, imm: raw & 0xffff_f000 }),
            Err(e) => Err(e),
        }
    } else if opcode == 0x17 {
        match register_at(raw, 7) {
            Ok(rd) => Ok(Instruction::Auipc { rd, imm: raw & 0xffff_f000 }),
            Err(e) => Err(e),
        }
    } else if opcode == 0x6f {
        match register_at(raw, 7) {
            Ok(rd) => Ok(Instruction::Jal { rd, offset: imm_j_spec(raw) as i32 }),
            Err(e) => Err(e),
        }
    } else if opcode == 0x67 {
        match (register_at(raw, 7), register_at(raw, 15)) {
            (Err(e), _) => Err(e),
            (Ok(_), Err(e)) => Err(e),
            (Ok(rd), Ok(rs1)) => Ok(Instruction::Jalr { rd, rs1, offset: imm_i_spec(raw) as i32 }),
        }
    } else if opcode == 0x63 {
        match (register_at(raw, 15), register_at(raw, 20)) {
            (Err(e), _) => Err(e),
            (Ok(_), Err(e)) => Err(e),
            (Ok(rs1), Ok(rs2)) => Ok(
                Instruction::Branch { kind: funct3 as u8, rs1, rs2, offset: imm_b_spec(raw) as i32 },
            ),
        }
    } else if opcode == 0x03 {
        match (register_at(raw, 7), register_at(raw, 15)) {
            (Err(e), _) => Err(e),
            (Ok(_), Err(e)) => Err(e),
            (Ok(rd), Ok(rs1)) => Ok(
                Instruction::Load {
                    width: load_width_spec(funct3),
                    signed: funct3 < 4,
                    rd,
                    rs1,
                    offset: imm_i_spec(raw) as i32,
                },
            ),
        }
    } else if opcode == 0x23 {
        match (register_at(raw, 15), register_at(raw, 20)) {
            (Err(e), _) => Err(e),
            (Ok(_), Err(e)) => Err(e),
            (Ok(rs1), Ok(rs2)) => Ok(
                Instruction::Store {
                    width: store_width_spec(funct3),
                    rs1,
                    rs2,
                    offset: imm_s_spec(raw) as i32,
                },
            ),
        }
    } else if opcode == 0x13 {
        match (register_at(raw, 7), register_at(raw, 15)) {
            (Err(e), _) => Err(e),
            (Ok(_), Err(e)) => Err(e),
            (Ok(rd), Ok(rs1)) => Ok(
                Instruction::OpImm { kind: funct3 as u8, rd, rs1, imm: imm_i_spec(raw) as i32 },
            ),
        }
    } else if opcode == 0x33 {
        match (register_at(raw, 7), register_at(raw, 15), register_at(raw, 20)) {
            (Err(e), _, _) => Err(e),
            (Ok(_), Err(e), _) => Err(e),
            (Ok(_), Ok(_), Err(e)) => Err(e),
            (Ok(rd), Ok(rs1), Ok(rs2)) => Ok(
                Instruction::Op { kind: op_kind_spec(raw) as u8, rd, rs1, rs2 },
            ),
        }
    } else if opcode == 0x0f {
        Ok(Instruction::Fence)
    } else if opcode == 0x73 {
        if raw == 0x0000_0073 {
            Ok(Instruction::Ecall)
        } else if raw == 0x0010_0073 {
            Ok(Instruction::Ebreak)
        } else {
            Err(DecodeError::UnknownSystem(raw))
        }
    } else {
        Err(DecodeError::UnknownOpcode(opcode as u8))
    }
}

/// Decodes one 32-bit instruction word.
pub fn decode(raw: u32) -> (r: Result<Instruction, DecodeError>)
    ensures
        r == decode_spec(raw),
{
    let opcode = bits32(raw, 0, 0x7f);
    let funct3 = bits32(raw, 12, 0x07) as u8;
    if opcode == 0x37 {
        match rd(raw) {
            Ok(rd) => Ok(Instruction::Lui { rd, imm: raw & 0xffff_f000 }),
            Err(e) => Err(e),
        }
    } else if opcode == 0x17 {
        match rd(raw) {
            Ok(rd) => Ok(Instruction::Auipc { rd, imm: raw & 0xffff_f000 }),
            Err(e) => Err(e),
        }
    } else if opcode == 0x6f {
        match rd(raw) {
            Ok(rd) => Ok(Instruction::Jal { rd, offset: imm_j(raw) }),
            Err(e) => Err(e),
        }
    } else if opcode == 0x67 {
        let rd = match rd(raw) {
            Ok(r) => r,
            Err(e) => return Err(e),
        };
        let rs1 = match rs1(raw) {
            Ok(r) => r,
            Err(e) => return Err(e),
        };
        Ok(Instruction::Jalr { rd, rs1, offset: imm_i(raw) })
    } else if opcode == 0x63 {
        let rs1 = match rs1(raw) {
            Ok(r) => r,
            Err(e) => return Err(e),
        };
        let rs2 = match rs2(raw) {
            Ok(r) => r,
            Err(e) => return Err(e),
        };
        Ok(Instruction::Branch { kind: funct3, rs1, rs2, offset: imm_b(raw) })
    } else if opcode == 0x03 {
        let rd = match rd(raw) {
            Ok(r) => r,
            Err(e) => return Err(e),
        };
        let rs1 = match rs1(raw) {
            Ok(r) => r,
            Err(e) => return Err(e),
        };
        Ok(
            Instruction::Load {
                width: load_width(funct3),
                signed: funct3 < 4,
                rd,
                rs1,
                offset: imm_i(raw),
            },
        )
    } else if opcode == 0x23 {
        let rs1 = match rs1(raw) {
            Ok(r) => r,
            Err(e) => return Err(e),
        };
        let rs2 = match rs2(raw) {
            Ok(r) => r,
            Err(e) => return Err(e),
        };
        Ok(Instruction::Store { width: store_width(funct3), rs1, rs2, offset: imm_s(raw) })
    } else if opcode == 0x13 {
        let rd = match rd(raw) {
            Ok(r) => r,
            Err(e) => return Err(e),
        };
        let rs1 = match rs1(raw) {
            Ok(r) => r,
            Err(e) => return Err(e),
        };
        Ok(Instruction::OpImm { kind: funct3, rd, rs1, imm: imm_i(raw) })
    } else if opcode == 0x33 {
        let rd = match rd(raw) {
            Ok(r) => r,
            Err(e) => return Err(e),
        };
        let rs1 = match rs1(raw) {
            Ok(r) => r,
            Err(e) => return Err(e),
        };
        let rs2 = match rs2(raw) {
            Ok(r) => r,
            Err(e) => return Err(e),
        };
        Ok(Instruction::Op { kind: op_kind(raw), rd, rs1, rs2 })
    } else if opcode == 0x0f {
        Ok(Instruction::Fence)
    } else if opcode == 0x73 {
        if raw == 0x0000_0073 {
            Ok(Instruction::Ecall)
        } else if raw == 0x0010_0073 {
            Ok(Instruction::Ebreak)
        } else {
            Err(DecodeError::UnknownSystem(raw))
        }
    } else {
        Err(DecodeError::UnknownOpcode(opcode as u8))
    }
}

fn rd(raw: u32) -> (r: Result<Register, DecodeError>)
    ensures
        r == register_at(raw, 7),
{
    reg(bits32(raw, 7, 0x1f))
}

fn rs1(raw: u32) -> (r: Result<Register, DecodeError>)
    ensures
        r == register_at(raw, 15),
{
    reg(bits32(raw, 15, 0x1f))
}

fn rs2(raw: u32) -> (r: Result<Register, DecodeError>)
    ensures
        r == register_at(raw, 20),
{
    reg(bits32(raw, 20, 0x1f))
}

fn reg(raw: u32) -> (r: Result<Register, DecodeError>)
    requires
        raw < 32,
    ensures
        raw < 16 ==> r == Ok::<Register, DecodeError>(Register::numbered(raw as nat)),
        raw >= 16 ==> r == Err::<Register, DecodeError>(
            DecodeError::Register(RegisterError::NotRv32e(raw as u8)),
        ),
{
    match Register::new(raw as u8) {
        Ok(r) => Ok(r),
        Err(e) => Err(DecodeError::from(e)),
    }
}

fn load_width(funct3: u8) -> (w: u8)
    ensures
        w == load_width_spec(funct3 as int),
{
    match funct3 % 4 {
        0 => 1,
        1 => 2,
        _ => 4,
    }
}

fn store_width(funct3: u8) -> (w: u8)
    ensures
        w == store_width_spec(funct3 as int),
{
    match funct3 {
        0 => 1,
        1 => 2,
        _ => 4,
    }
}

fn op_kind(raw: u32) -> (k: u8)
    ensures
        k == op_kind_spec(raw),
{
    let funct3 = ((raw >> 12) & 0x07) as u8;
    let funct7 = ((raw >> 25) & 0x7f) as u8;
    let k = funct3 | ((funct7 >> 5) << 3);
    assert(k == ((raw >> 12) & 7) + 8 * ((raw >> 30) & 3)) by (bit_vector)
        requires
            funct3 == ((raw >> 12) & 0x07) as u8,
            funct7 == ((raw >> 25) & 0x7f) as u8,
            k == funct3 | ((funct7 >> 5) << 3),
    ;
    k
}

fn imm_i(raw: u32) -> (imm: i32)
    ensures
        imm == imm_i_spec(raw),
{
    let value = bits32(raw, 20, 0xfff);
    proof {
        lemma_shift_constants();
    }
    sign_extend(value, 12)
}

fn imm_s(raw: u32) -> (imm: i32)
    ensures
        imm == imm_s_spec(raw),
{
    let value = ((raw >> 25) << 5) | ((raw >> 7) & 0x1f);
    assert(value < (1u32 << 12u32) && value == ((raw >> 25) & 0x7f) * 0x20 + ((raw >> 7) & 0x1f)) by (bit_vector)
        requires
            value == ((raw >> 25) << 5) | ((raw >> 7) & 0x1f),
    ;
    proof {
        lemma_shift_constants();
    }
    sign_extend(value, 12)
}

fn imm_b(raw: u32) -> (imm: i32)
    ensures
        imm == imm_b_spec(raw),
{
    let value = (((raw >> 31) & 0x01) << 12) | (((raw >> 7) & 0x01) << 11) | (((raw >> 25) & 0x3f)
        << 5) | (((raw >> 8) & 0x0f) << 1);
    assert(value < (1u32 << 13u32) && value == ((raw >> 31) & 1) * 0x1000 + ((raw >> 7) & 1)
        * 0x800 + ((raw >> 25) & 0x3f) * 0x20 + ((raw >> 8) & 0xf) * 2) by (bit_vector)
        requires
            value == (((raw >> 31) & 0x01) << 12) | (((raw >> 7) & 0x01) << 11) | (((raw >> 25)
                & 0x3f) << 5) | (((raw >> 8) & 0x0f) << 1),
    ;
    proof {
        lemma_shift_constants();
    }
    sign_extend(value, 13)
}

fn imm_j(raw: u32) -> (imm: i32)
    ensures
        imm == imm_j_spec(raw),
{
    let value = (((raw >> 31) & 0x01) << 20) | (((raw >> 12) & 0xff) << 12) | (((raw >> 20)
        & 0x01) << 11) | (((raw >> 21) & 0x03ff) << 1);
    assert(value < (1u32 << 21u32) && value == ((raw >> 31) & 1) * 0x10_0000 + ((raw >> 12)
        & 0xff) * 0x1000 + ((raw >> 20) & 1) * 0x800 + ((raw >> 21) & 0x3ff) * 2) by (bit_vector)
        requires
            value == (((raw >> 31) & 0x01) << 20) | (((raw >> 12) & 0xff) << 12) | (((raw >> 20)
                & 0x01) << 11) | (((raw >> 21) & 0x03ff) << 1),
    ;
    proof {
        lemma_shift_constants();
    }
    sign_extend(value, 21)
}

} // verus!
