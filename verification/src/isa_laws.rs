use vstd::prelude::*;
use crate::bus::{Bus, BusFault};
use crate::compressed::{cfield, jump_offset_spec, branch_offset_spec};
use crate::fields::{field, lemma_as_i32, lemma_i32_as_u32};
use crate::instruction::{
    decode_spec, imm_b_spec, imm_i_spec, imm_j_spec, imm_s_spec, DecodeError, Instruction,
};
use crate::machine::{MachineState, StopReason, compressed_spec, load_value_spec, word_spec, MRET};
use crate::register::{Register, RegisterError};

verus! {

broadcast use crate::register::Register::lemma_numbered;

/// Facts about the fixed fields of an instruction word: a word whose major opcode is not
/// `0x73` is not MRET, and a `funct7` of 0 or `0x20` puts 0 or 1 in bits 31..30.
proof fn lemma_word_fields(raw: u32)
    ensures
        field(raw, 0, 0x7f) != 0x73 ==> raw != MRET,
        field(raw, 25, 0x7f) == 0 ==> field(raw, 30, 3) == 0,
        field(raw, 25, 0x7f) == 0x20 ==> field(raw, 30, 3) == 1,
        field(raw, 12, 7) < 8,
{
    assert(((raw >> 0u32) & 0x7fu32 != 0x73u32 ==> raw != 0x3020_0073u32) && ((raw >> 25u32)
        & 0x7fu32 == 0u32 ==> (raw >> 30u32) & 3u32 == 0u32) && ((raw >> 25u32) & 0x7fu32
        == 0x20u32 ==> (raw >> 30u32) & 3u32 == 1u32) && (raw >> 12u32) & 7u32 < 8u32)
        by (bit_vector);
}

/// Register-register instructions (major opcode `0x33`) compute what their names say on the
/// two source registers `a` and `b`, write only `rd` (never `x0`), leave bus and trace alone and
/// move the pc on by four: ADD and SUB modulo 2^32, SLL, SRL and SRA by the low five bits of
/// `b`, SLT and SLTU as 0 or 1, and XOR, OR and AND bit by bit.
pub proof fn law_register_register_ops<B: Bus>(m: MachineState<B::V>, raw: u32, trace: nat)
    requires
        m.regs.len() == 16,
        field(raw, 0, 0x7f) == 0x33,
        field(raw, 7, 0x1f) < 16,
        field(raw, 15, 0x1f) < 16,
        field(raw, 20, 0x1f) < 16,
        field(raw, 25, 0x7f) == 0 || field(raw, 25, 0x7f) == 0x20,
    ensures
        ({
            let (m2, r) = word_spec::<B>(m, raw, trace);
            let a = m.regs[field(raw, 15, 0x1f)];
            let b = m.regs[field(raw, 20, 0x1f)];
            let rd = field(raw, 7, 0x1f);
            let f3 = field(raw, 12, 7);
            let alt = field(raw, 25, 0x7f) == 0x20;
            let v = m2.regs[rd];
            &&& r == StopReason::Running
            &&& m2.pc as int == (m.pc + 4) % 0x1_0000_0000
            &&& m2.bus == m.bus
            &&& m2.events == m.events
            &&& m2.cycles == m.cycles
            &&& m2.regs.len() == 16
            &&& forall|i: int| 0 <= i < 16 && i != rd ==> m2.regs[i] == m.regs[i]
            &&& rd == 0 ==> m2.regs == m.regs
            &&& rd != 0 ==> {
                &&& !alt && f3 == 0 ==> v as int == (a + b) % 0x1_0000_0000
                &&& alt && f3 == 0 ==> v as int == (a - b) % 0x1_0000_0000
                &&& !alt && f3 == 1 ==> v == a << (b & 31)
                &&& !alt && f3 == 2 ==> v == (if (a as i32) < (b as i32) {
                    1u32
                } else {
                    0u32
                })
                &&& !alt && f3 == 3 ==> v == (if a < b {
                    1u32
                } else {
                    0u32
                })
                &&& !alt && f3 == 4 ==> v == a ^ b
                &&& !alt && f3 == 5 ==> v == a >> (b & 31)
                &&& alt && f3 == 5 ==> v == ((a as i32) >> (b & 31)) as u32
                &&& !alt && f3 == 6 ==> v == a | b
                &&& !alt && f3 == 7 ==> v == a & b
            }
        }),
{
    reveal(word_spec);
    lemma_word_fields(raw);
    let a = m.regs[field(raw, 15, 0x1f)];
    let b = m.regs[field(raw, 20, 0x1f)];
    lemma_as_i32(a);
    lemma_as_i32(b);
    assert(b & 31 == b % 32) by (bit_vector);
}

/// The I-type immediate is the top twelve bits of the word, sign-extended: an arithmetic shift
/// of the word right by twenty.
pub proof fn lemma_i_immediate(raw: u32)
    ensures
        imm_i_spec(raw) == (((raw as i32) >> 20u32) as int),
        (((raw as i32) >> 20u32) as u32) % 32 == (raw >> 20u32) & 31,
        ((((raw as i32) >> 20u32) as u32) & 0x400 != 0) == ((raw >> 30u32) & 1 == 1),
{
    let f = (raw >> 20u32) & 0xfffu32;
    let s = (raw as i32) >> 20u32;
    assert((s as u32) == (if f >= 0x800u32 {
        f | 0xffff_f000u32
    } else {
        f
    }) && (f >= 0x800u32 ==> f | 0xffff_f000u32 == f + 0xffff_f000u32) && (s as u32) % 32
        == (raw >> 20u32) & 31 && (((s as u32) & 0x400 != 0) == ((raw >> 30u32) & 1 == 1))
        && ((s as u32) as i32) == s) by (bit_vector)
        requires
            f == (raw >> 20u32) & 0xfffu32,
            s == (raw as i32) >> 20u32,
    ;
    lemma_as_i32(s as u32);
}

/// Register-immediate instructions (major opcode `0x13`) compute what their names say on the
/// source register `a` and the immediate, the top twelve bits of the word sign-extended (`imm`,
/// taken as the word `w`): ADDI modulo 2^32, SLTI and SLTIU as 0 or 1, XORI, ORI and ANDI bit by
/// bit, SLLI, SRLI and SRAI by the shift amount in bits 24..20 (bit 30 tells SRAI, which
/// shifts arithmetically, from SRLI); only `rd` changes (never `x0`), and the pc moves on by four.
pub proof fn law_register_immediate_ops<B: Bus>(m: MachineState<B::V>, raw: u32, trace: nat)
    requires
        m.regs.len() == 16,
        field(raw, 0, 0x7f) == 0x13,
        field(raw, 7, 0x1f) < 16,
        field(raw, 15, 0x1f) < 16,
    ensures
        ({
            let (m2, r) = word_spec::<B>(m, raw, trace);
            let a = m.regs[field(raw, 15, 0x1f)];
            let imm = (raw as i32) >> 20u32;
            let w = imm as u32;
            let shamt = (raw >> 20u32) & 31;
            let rd = field(raw, 7, 0x1f);
            let f3 = field(raw, 12, 7);
            let v = m2.regs[rd];
            &&& r == StopReason::Running
            &&& m2.pc as int == (m.pc + 4) % 0x1_0000_0000
            &&& m2.bus == m.bus
            &&& m2.events == m.events
            &&& m2.cycles == m.cycles
            &&& m2.regs.len() == 16
            &&& forall|i: int| 0 <= i < 16 && i != rd ==> m2.regs[i] == m.regs[i]
            &&& rd == 0 ==> m2.regs == m.regs
            &&& rd != 0 ==> {
                &&& f3 == 0 ==> v as int == (a + w) % 0x1_0000_0000
                &&& f3 == 1 ==> v == a << shamt
                &&& f3 == 2 ==> v == (if (a as i32) < imm {
                    1u32
                } else {
                    0u32
                })
                &&& f3 == 3 ==> v == (if a < w {
                    1u32
                } else {
                    0u32
                })
                &&& f3 == 4 ==> v == a ^ w
                &&& f3 == 5 && (raw >> 30u32) & 1 == 0 ==> v == a >> shamt
                &&& f3 == 5 && (raw >> 30u32) & 1 == 1 ==> v == ((a as i32) >> shamt) as u32
                &&& f3 == 6 ==> v == a | w
                &&& f3 == 7 ==> v == a & w
            }
        }),
{
    reveal(word_spec);
    lemma_word_fields(raw);
    lemma_i_immediate(raw);
    let a = m.regs[field(raw, 15, 0x1f)];
    lemma_as_i32(a);
    lemma_i32_as_u32((raw as i32) >> 20u32);
}

/// Conditional branches (major opcode `0x63`) compare their two source registers `a` and `b`:
/// BEQ is taken exactly when they are equal, BNE exactly when they differ, BLT and BGE by their
/// signed order, BLTU and BGEU by their unsigned order; the two reserved selectors never
/// branch. A taken branch adds its offset to the pc, one not taken moves on by four; registers,
/// bus and trace are untouched.
pub proof fn law_branches<B: Bus>(m: MachineState<B::V>, raw: u32, trace: nat)
    requires
        m.regs.len() == 16,
        field(raw, 0, 0x7f) == 0x63,
        field(raw, 15, 0x1f) < 16,
        field(raw, 20, 0x1f) < 16,
    ensures
        ({
            let (m2, r) = word_spec::<B>(m, raw, trace);
            let a = m.regs[field(raw, 15, 0x1f)];
            let b = m.regs[field(raw, 20, 0x1f)];
            let f3 = field(raw, 12, 7);
            let taken = if f3 == 0 {
                a == b
            } else if f3 == 1 {
                a != b
            } else if f3 == 4 {
                (a as i32) < (b as i32)
            } else if f3 == 5 {
                (a as i32) >= (b as i32)
            } else if f3 == 6 {
                a < b
            } else if f3 == 7 {
                a >= b
            } else {
                false
            };
            &&& r == StopReason::Running
            &&& taken ==> m2.pc as int == (m.pc + (imm_b_spec(raw) as i32)) % 0x1_0000_0000
            &&& !taken ==> m2.pc as int == (m.pc + 4) % 0x1_0000_0000
            &&& m2.regs == m.regs
            &&& m2.bus == m.bus
            &&& m2.events == m.events
        }),
{
    reveal(word_spec);
    lemma_word_fields(raw);
    let a = m.regs[field(raw, 15, 0x1f)];
    let b = m.regs[field(raw, 20, 0x1f)];
    lemma_as_i32(a);
    lemma_as_i32(b);
}

/// Loads and stores decode to the access width their `funct3` names: SB and LB/LBU one byte,
/// SH and LH/LHU two, SW and LW four; LB and LH sign-extend, LBU and LHU do not. The registers
/// are those of the rs1, rs2 and rd fields.
pub proof fn law_memory_access_widths(raw: u32)
    requires
        field(raw, 7, 0x1f) < 16,
        field(raw, 15, 0x1f) < 16,
        field(raw, 20, 0x1f) < 16,
    ensures
        ({
            let f3 = field(raw, 12, 7);
            let rd = Register::numbered(field(raw, 7, 0x1f) as nat);
            let rs1 = Register::numbered(field(raw, 15, 0x1f) as nat);
            let rs2 = Register::numbered(field(raw, 20, 0x1f) as nat);
            &&& field(raw, 0, 0x7f) == 0x23 && f3 == 0 ==> decode_spec(raw) == Ok::<
                Instruction,
                DecodeError,
            >(Instruction::Store { width: 1, rs1, rs2, offset: imm_s_spec(raw) as i32 })
            &&& field(raw, 0, 0x7f) == 0x23 && f3 == 1 ==> decode_spec(raw) == Ok::<
                Instruction,
                DecodeError,
            >(Instruction::Store { width: 2, rs1, rs2, offset: imm_s_spec(raw) as i32 })
            &&& field(raw, 0, 0x7f) == 0x23 && f3 == 2 ==> decode_spec(raw) == Ok::<
                Instruction,
                DecodeError,
            >(Instruction::Store { width: 4, rs1, rs2, offset: imm_s_spec(raw) as i32 })
            &&& field(raw, 0, 0x7f) == 0x03 && f3 == 0 ==> decode_spec(raw) == Ok::<
                Instruction,
                DecodeError,
            >(Instruction::Load { width: 1, signed: true, rd, rs1, offset: imm_i_spec(raw) as i32 })
            &&& field(raw, 0, 0x7f) == 0x03 && f3 == 1 ==> decode_spec(raw) == Ok::<
                Instruction,
                DecodeError,
            >(Instruction::Load { width: 2, signed: true, rd, rs1, offset: imm_i_spec(raw) as i32 })
            &&& field(raw, 0, 0x7f) == 0x03 && f3 == 2 ==> decode_spec(raw) == Ok::<
                Instruction,
                DecodeError,
            >(Instruction::Load { width: 4, signed: true, rd, rs1, offset: imm_i_spec(raw) as i32 })
            &&& field(raw, 0, 0x7f) == 0x03 && f3 == 4 ==> decode_spec(raw) == Ok::<
                Instruction,
                DecodeError,
            >(
                Instruction::Load { width: 1, signed: false, rd, rs1, offset: imm_i_spec(raw) as i32 },
            )
            &&& field(raw, 0, 0x7f) == 0x03 && f3 == 5 ==> decode_spec(raw) == Ok::<
                Instruction,
                DecodeError,
            >(
                Instruction::Load { width: 2, signed: false, rd, rs1, offset: imm_i_spec(raw) as i32 },
            )
        }),
{
}

/// The compressed register-register ALU instructions (quadrant 1, `funct3` 4, bits 11..10 = 3,
/// bit 12 clear) work on `rd'` = x(8 + bits 9..7) and `rs2'` = x(8 + bits 4..2), selected by
/// bits 6..5: C.SUB writes the difference modulo 2^32, C.XOR, C.OR and C.AND the bitwise
/// results; only `rd'` changes and the pc moves on by two. With bit 12 set they are refused.
pub proof fn law_compressed_register_ops<B: Bus>(m: MachineState<B::V>, raw: u16, trace: nat)
    requires
        m.regs.len() == 16,
        raw % 4 == 1,
        cfield(raw, 13, 7) == 4,
        cfield(raw, 10, 3) == 3,
    ensures
        ({
            let (m2, r) = compressed_spec::<B>(m, raw, trace);
            let rd = 8 + cfield(raw, 7, 7);
            let a = m.regs[rd];
            let b = m.regs[8 + cfield(raw, 2, 7)];
            let sel = cfield(raw, 5, 3);
            let v = m2.regs[rd];
            &&& cfield(raw, 12, 1) == 1 ==> m2 == m && r is DecodeFault
            &&& cfield(raw, 12, 1) == 0 ==> {
                &&& r == StopReason::Running
                &&& m2.pc as int == (m.pc + 2) % 0x1_0000_0000
                &&& m2.bus == m.bus
                &&& m2.events == m.events
                &&& m2.regs.len() == 16
                &&& forall|i: int| 0 <= i < 16 && i != rd ==> m2.regs[i] == m.regs[i]
                &&& sel == 0 ==> v as int == (a - b) % 0x1_0000_0000
                &&& sel == 1 ==> v == a ^ b
                &&& sel == 2 ==> v == a | b
                &&& sel == 3 ==> v == a & b
            }
        }),
{
    reveal(compressed_spec);
    crate::compressed::lemma_cfield_bounds(raw);
    assert((raw >> 5u16) & 3u16 < 4u16) by (bit_vector);
}

/// The six-bit signed immediate of a compressed instruction: bit 12 is its sign, bits 6..2 its
/// low five bits.
pub open spec fn compressed_imm6(raw: u16) -> int {
    let x = cfield(raw, 12, 1) * 32 + cfield(raw, 2, 0x1f);
    if cfield(raw, 12, 1) == 1 {
        x - 64
    } else {
        x
    }
}

/// The other compressed instructions of quadrant 1. With `s` the six-bit signed immediate,
/// `rd` the full register field (bits 11..7) and `r'` the short one (x(8 + bits 9..7)):
/// C.ADDI adds `s` to `rd`, C.LI loads `s`, C.LUI loads `s` shifted left by twelve; C.SRLI and
/// C.SRAI shift `r'` right (logically, arithmetically) by bits 6..2 and C.ANDI ands it with `s`;
/// C.J jumps by its offset and C.JAL also writes the return address pc + 2 into `ra`; C.BEQZ
/// and C.BNEZ branch exactly when `r'` is zero, or not zero. Arithmetic is modulo 2^32, and
/// each falls through to pc + 2.
pub proof fn law_compressed_quadrant1<B: Bus>(m: MachineState<B::V>, raw: u16, trace: nat)
    requires
        m.regs.len() == 16,
        raw % 4 == 1,
    ensures
        ({
            let (m2, r) = compressed_spec::<B>(m, raw, trace);
            let f3 = cfield(raw, 13, 7);
            let rd = cfield(raw, 7, 0x1f);
            let rs = 8 + cfield(raw, 7, 7);
            let s = compressed_imm6(raw);
            let next = (m.pc + 2) % 0x1_0000_0000;
            let op2 = cfield(raw, 10, 3);
            let sh = cfield(raw, 2, 0x1f) as u32;
            &&& f3 == 0 && 0 < rd < 16 ==> r == StopReason::Running && m2.pc == next
                && m2.regs[rd] as int == (m.regs[rd] + s) % 0x1_0000_0000
            &&& f3 == 2 && 0 < rd < 16 ==> r == StopReason::Running && m2.pc == next
                && m2.regs[rd] as int == s % 0x1_0000_0000
            &&& f3 == 3 && 0 < rd < 16 && rd != 2 ==> r == StopReason::Running && m2.pc == next
                && m2.regs[rd] as int == (s * 0x1000) % 0x1_0000_0000
            &&& (f3 == 0 || f3 == 2 || f3 == 3) && rd >= 16 ==> m2 == m && r is DecodeFault
            &&& f3 == 4 && op2 == 0 && cfield(raw, 12, 1) == 0 ==> r == StopReason::Running
                && m2.pc == next && m2.regs[rs] == m.regs[rs] >> sh
            &&& f3 == 4 && op2 == 1 && cfield(raw, 12, 1) == 0 ==> r == StopReason::Running
                && m2.pc == next && m2.regs[rs] == ((m.regs[rs] as i32) >> sh) as u32
            &&& f3 == 4 && op2 == 2 ==> r == StopReason::Running && m2.pc == next && m2.regs[rs]
                == m.regs[rs] & ((s % 0x1_0000_0000) as u32)
            &&& f3 == 1 ==> r == StopReason::Running && m2.regs[1] == next && m2.pc as int == (
            m.pc + jump_offset_spec(raw)) % 0x1_0000_0000
            &&& f3 == 5 ==> r == StopReason::Running && m2.regs == m.regs && m2.pc as int == (m.pc
                + jump_offset_spec(raw)) % 0x1_0000_0000
            &&& f3 == 6 ==> r == StopReason::Running && m2.regs == m.regs && m2.pc as int == (if m.regs[rs]
                == 0 {
                (m.pc + branch_offset_spec(raw)) % 0x1_0000_0000
            } else {
                next
            })
            &&& f3 == 7 ==> r == StopReason::Running && m2.regs == m.regs && m2.pc as int == (if m.regs[rs]
                != 0 {
                (m.pc + branch_offset_spec(raw)) % 0x1_0000_0000
            } else {
                next
            })
        }),
{
    reveal(compressed_spec);
    crate::compressed::lemma_cfield_bounds(raw);
    let rs = 8 + cfield(raw, 7, 7);
    lemma_as_i32(m.regs[rs]);
    assert((raw >> 13u16) & 7u16 < 8u16 && (raw >> 10u16) & 3u16 < 4u16 && (raw >> 12u16) & 1u16
        < 2u16) by (bit_vector);
}

/// The register instructions of compressed quadrant 2, with `rd` the field in bits 11..7 and
/// `rs2` the one in bits 6..2: C.SLLI shifts `rd` left by bits 6..2, C.MV copies `rs2` into
/// `rd`, C.ADD adds `rs2` to `rd` modulo 2^32, C.JR jumps to `rd` with bit 0 cleared, C.JALR
/// does so after writing the return address pc + 2 into `ra`, and C.EBREAK stops the machine
/// as it is.
pub proof fn law_compressed_quadrant2<B: Bus>(m: MachineState<B::V>, raw: u16, trace: nat)
    requires
        m.regs.len() == 16,
        raw % 4 == 2,
        cfield(raw, 7, 0x1f) < 16,
        cfield(raw, 2, 0x1f) < 16,
    ensures
        ({
            let (m2, r) = compressed_spec::<B>(m, raw, trace);
            let f3 = cfield(raw, 13, 7);
            let rd = cfield(raw, 7, 0x1f);
            let rs2 = cfield(raw, 2, 0x1f);
            let high = cfield(raw, 12, 1);
            let next = (m.pc + 2) % 0x1_0000_0000;
            &&& f3 == 0 && high == 0 && rd != 0 ==> r == StopReason::Running && m2.pc == next
                && m2.regs[rd] == m.regs[rd] << (rs2 as u32)
            &&& f3 == 4 && high == 0 && rs2 != 0 && rd != 0 ==> r == StopReason::Running && m2.pc
                == next && m2.regs[rd] == m.regs[rs2]
            &&& f3 == 4 && high == 1 && rs2 != 0 && rd != 0 ==> r == StopReason::Running && m2.pc
                == next && m2.regs[rd] as int == (m.regs[rd] + m.regs[rs2]) % 0x1_0000_0000
            &&& f3 == 4 && high == 0 && rs2 == 0 && rd != 0 ==> r == StopReason::Running && m2.pc
                == m.regs[rd] & !1u32 && m2.regs == m.regs
            &&& f3 == 4 && high == 1 && rs2 == 0 && rd != 0 && rd != 1 ==> r == StopReason::Running
                && m2.pc == m.regs[rd] & !1u32 && m2.regs[1] == next
            &&& f3 == 4 && high == 1 && rs2 == 0 && rd == 0 ==> r == StopReason::Ebreak && m2 == m
        }),
{
    reveal(compressed_spec);
    crate::compressed::lemma_cfield_bounds(raw);
    assert((raw >> 13u16) & 7u16 < 8u16 && (raw >> 12u16) & 1u16 < 2u16) by (bit_vector);
}

/// Upper immediates, jumps and system words: LUI loads the word's top twenty bits, AUIPC adds
/// them to the pc, JAL and JALR write the return address pc + 4 and jump (JALR to the source
/// register plus the sign-extended top twelve bits, bit 0 cleared), FENCE only moves on, ECALL
/// and EBREAK stop the machine as it is, and MRET returns to `mepc`.
pub proof fn law_jumps_and_upper_immediates<B: Bus>(m: MachineState<B::V>, raw: u32, trace: nat)
    requires
        m.regs.len() == 16,
        field(raw, 7, 0x1f) < 16,
        field(raw, 15, 0x1f) < 16,
    ensures
        ({
            let (m2, r) = word_spec::<B>(m, raw, trace);
            let op = field(raw, 0, 0x7f);
            let rd = field(raw, 7, 0x1f);
            let a = m.regs[field(raw, 15, 0x1f)];
            let next = (m.pc + 4) % 0x1_0000_0000;
            let upper = raw & 0xffff_f000;
            &&& op == 0x37 && rd != 0 ==> r == StopReason::Running && m2.pc == next
                && m2.regs[rd] == upper
            &&& op == 0x17 && rd != 0 ==> r == StopReason::Running && m2.pc == next
                && m2.regs[rd] as int == (m.pc + upper) % 0x1_0000_0000
            &&& op == 0x6f && rd != 0 ==> r == StopReason::Running && m2.regs[rd] == next
                && m2.pc as int == (m.pc + (imm_j_spec(raw) as i32)) % 0x1_0000_0000
            &&& op == 0x67 && rd != 0 ==> r == StopReason::Running && m2.regs[rd] == next
                && m2.pc == ((a + ((raw as i32) >> 20u32)) % 0x1_0000_0000) as u32 & !1u32
            &&& op == 0x0f ==> r == StopReason::Running && m2 == m.at_pc(next as u32)
            &&& raw == 0x0000_0073 ==> r == StopReason::Ecall && m2 == m
            &&& raw == 0x0010_0073 ==> r == StopReason::Ebreak && m2 == m
            &&& raw == 0x3020_0073 ==> r == StopReason::Running && m2 == m.at_pc(m.mepc)
        }),
{
    reveal(word_spec);
    lemma_word_fields(raw);
    lemma_i_immediate(raw);
    assert((0x0000_0073u32 >> 0u32) & 0x7fu32 == 0x73u32 && (0x0010_0073u32 >> 0u32) & 0x7fu32
        == 0x73u32 && (0x0000_0073u32 >> 12u32) & 7u32 == 0u32 && (0x0010_0073u32 >> 12u32) & 7u32
        == 0u32) by (bit_vector);
}

/// CSRRW (major opcode `0x73`, `funct3` 1) swaps a CSR with a register: `rd` gets the CSR's old
/// value (0 for a CSR other than `mstatus`, `mtvec` and `mepc`), the CSR gets the source
/// register, which is read before `rd` is written, and the pc moves on by four.
pub proof fn law_csr_swap<B: Bus>(m: MachineState<B::V>, raw: u32, trace: nat)
    requires
        m.regs.len() == 16,
        field(raw, 0, 0x7f) == 0x73,
        field(raw, 12, 7) == 1,
        field(raw, 7, 0x1f) < 16,
        field(raw, 15, 0x1f) < 16,
    ensures
        ({
            let (m2, r) = word_spec::<B>(m, raw, trace);
            let csr = raw >> 20u32;
            let rd = field(raw, 7, 0x1f);
            let a = m.regs[field(raw, 15, 0x1f)];
            let old_value = if csr == 0x300 {
                m.mstatus
            } else if csr == 0x305 {
                m.mtvec
            } else if csr == 0x341 {
                m.mepc
            } else {
                0
            };
            &&& r == StopReason::Running
            &&& m2.pc as int == (m.pc + 4) % 0x1_0000_0000
            &&& rd != 0 ==> m2.regs[rd] == old_value
            &&& m2.mstatus == (if csr == 0x300 {
                a
            } else {
                m.mstatus
            })
            &&& m2.mtvec == (if csr == 0x305 {
                a
            } else {
                m.mtvec
            })
            &&& m2.mepc == (if csr == 0x341 {
                a
            } else {
                m.mepc
            })
        }),
{
    reveal(word_spec);
    assert(raw != 0x3020_0073u32 && (raw >> 20u32) & 0xfffu32 == raw >> 20u32) by (bit_vector)
        requires
            (raw >> 12u32) & 7u32 == 1u32,
    ;
}

/// Loads of one and two bytes extend what the bus gives: with sign (the byte or halfword read
/// as `i8` or `i16`) when `signed`, with zeros otherwise; four-byte loads take the word as read.
pub proof fn law_load_extension<B: Bus>(bus: B::V, address: u32, signed: bool)
    ensures
        ({
            let (s, r) = B::read8_spec(bus, address);
            load_value_spec::<B>(bus, address, 1, signed) == (s, match r {
                Ok(b) => Ok(
                    if signed {
                        ((b as i8) as i32) as u32
                    } else {
                        b as u32
                    },
                ),
                Err(e) => Err::<u32, BusFault>(e),
            })
        }),
        ({
            let (s, r) = B::read16_spec(bus, address);
            load_value_spec::<B>(bus, address, 2, signed) == (s, match r {
                Ok(h) => Ok(
                    if signed {
                        ((h as i16) as i32) as u32
                    } else {
                        h as u32
                    },
                ),
                Err(e) => Err::<u32, BusFault>(e),
            })
        }),
        load_value_spec::<B>(bus, address, 4, signed) == B::read32_mut_spec(bus, address),
{
    let (_, r8) = B::read8_spec(bus, address);
    let (_, r16) = B::read16_spec(bus, address);
    if let Ok(b) = r8 {
        assert((((b as i8) as i32) as u32) as int == (if b >= 0x80u8 {
            b as int + 0xffff_ff00
        } else {
            b as int
        })) by (bit_vector);
    }
    if let Ok(h) = r16 {
        assert((((h as i16) as i32) as u32) as int == (if h >= 0x8000u16 {
            h as int + 0xffff_0000
        } else {
            h as int
        })) by (bit_vector);
    }
}

/// RV32E has sixteen registers: an instruction that writes a register numbered 16 or more is
/// refused with that number, and so is a store or branch whose first source is one.
pub proof fn law_decode_refuses_missing_registers(raw: u32)
    ensures
        ({
            let op = field(raw, 0, 0x7f);
            let rd = field(raw, 7, 0x1f);
            let rs1 = field(raw, 15, 0x1f);
            &&& (op == 0x37 || op == 0x17 || op == 0x6f || op == 0x67 || op == 0x03 || op == 0x13
                || op == 0x33) && rd >= 16 ==> decode_spec(raw) == Err::<Instruction, DecodeError>(
                DecodeError::Register(RegisterError::NotRv32e(rd as u8)),
            )
            &&& (op == 0x23 || op == 0x63) && rs1 >= 16 ==> decode_spec(raw) == Err::<
                Instruction,
                DecodeError,
            >(DecodeError::Register(RegisterError::NotRv32e(rs1 as u8)))
        }),
{
}

} // verus!
