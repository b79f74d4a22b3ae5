use vstd::prelude::*;
use crate::fields::{signed_field, sign_extend, lemma_shift_constants};
use crate::instruction::DecodeError;
use crate::register::{Register, RegisterError};

verus! {

broadcast use crate::register::Register::lemma_numbered;

/// The bits of a compressed instruction that start at bit `lo`, kept by `mask`.
pub open spec fn cfield(raw: u16, lo: u16, mask: u16) -> int {
    ((raw >> lo) & mask) as int
}

/// A full five-bit register field: numbers 16 and up, which RV32E lacks, are refused as
/// `decode` refuses them in 32-bit instructions.
pub open spec fn full_register_spec(f: int) -> Result<Register, DecodeError> {
    if 0 <= f < 16 {
        Ok(Register::numbered(f as nat))
    } else {
        Err(DecodeError::Register(RegisterError::NotRv32e(f as u8)))
    }
}

/// A three-bit register field names `x8` ..= `x15`.
pub open spec fn short_register_spec(f: int) -> Register {
    Register::numbered((f + 8) as nat)
}

/// The six-bit signed immediate of C.ADDI, C.LI, C.LUI and C.ANDI: imm[5] in bit 12,
/// imm[4:0] in bits 6..2.
pub open spec fn imm6_spec(raw: u16) -> int {
    signed_field(cfield(raw, 12, 1) * 0x20 + cfield(raw, 2, 0x1f), 0x20)
}

/// The shift amount of C.SLLI, C.SRLI and C.SRAI: shamt[5] in bit 12, shamt[4:0] in bits 6..2.
pub open spec fn shamt_spec(raw: u16) -> int {
    cfield(raw, 12, 1) * 0x20 + cfield(raw, 2, 0x1f)
}

/// Offset of C.LW and C.SW: uimm[5:3] in bits 12..10, uimm[2] in bit 6, uimm[6] in bit 5.
pub open spec fn load_store_offset_spec(raw: u16) -> int {
    cfield(raw, 6, 1) * 4 + cfield(raw, 10, 7) * 8 + cfield(raw, 5, 1) * 0x40
}

/// Offset of C.J and C.JAL: imm[11|4|9:8|10|6|7|3:1|5] in bits 12..2, sign-extended.
pub open spec fn jump_offset_spec(raw: u16) -> int {
    signed_field(
        cfield(raw, 12, 1) * 0x800 + cfield(raw, 11, 1) * 0x10 + cfield(raw, 9, 3) * 0x100
            + cfield(raw, 8, 1) * 0x400 + cfield(raw, 7, 1) * 0x40 + cfield(raw, 6, 1) * 0x80
            + cfield(raw, 3, 7) * 2 + cfield(raw, 2, 1) * 0x20,
        0x800,
    )
}

/// Offset of C.BEQZ and C.BNEZ: imm[8|4:3] in bits 12..10, imm[7:6|2:1|5] in bits 6..2,
/// sign-extended.
pub open spec fn branch_offset_spec(raw: u16) -> int {
    signed_field(
        cfield(raw, 12, 1) * 0x100 + cfield(raw, 10, 3) * 8 + cfield(raw, 5, 3) * 0x40
            + cfield(raw, 3, 3) * 2 + cfield(raw, 2, 1) * 0x20,
        0x100,
    )
}

/// Immediate of C.ADDI16SP: nzimm[9] in bit 12, nzimm[4|6|8:7|5] in bits 6..2, sign-extended.
pub open spec fn addi16sp_offset_spec(raw: u16) -> int {
    signed_field(
        cfield(raw, 12, 1) * 0x200 + cfield(raw, 6, 1) * 0x10 + cfield(raw, 5, 1) * 0x40
            + cfield(raw, 3, 3) * 0x80 + cfield(raw, 2, 1) * 0x20,
        0x200,
    )
}

/// Immediate of C.ADDI4SPN: nzuimm[5:4|9:6|2|3] in bits 12..5.
pub open spec fn addi4spn_offset_spec(raw: u16) -> int {
    cfield(raw, 11, 3) * 0x10 + cfield(raw, 7, 0xf) * 0x40 + cfield(raw, 6, 1) * 4 + cfield(
        raw,
        5,
        1,
    ) * 8
}

/// Offset of C.LWSP: uimm[5] in bit 12, uimm[4:2|7:6] in bits 6..2.
pub open spec fn lwsp_offset_spec(raw: u16) -> int {
    cfield(raw, 12, 1) * 0x20 + cfield(raw, 4, 7) * 4 + cfield(raw, 2, 3) * 0x40
}

/// Offset of C.SWSP: uimm[5:2|7:6] in bits 12..7.
pub open spec fn swsp_offset_spec(raw: u16) -> int {
    cfield(raw, 7, 3) * 0x40 + cfield(raw, 9, 0xf) * 4
}

/// The bits of a compressed instruction that start at bit `lo`, kept by `mask`.
pub fn bits16(raw: u16, lo: u16, mask: u16) -> (r: u16)
    requires
        lo < 16,
    ensures
        r == cfield(raw, lo, mask),
        r <= mask,
{
    let r = (raw >> lo) & mask;
    assert(r <= mask) by (bit_vector)
        requires
            r == (raw >> lo) & mask,
    ;
    r
}

/// The register fields of a compressed instruction are in range.
pub proof fn lemma_cfield_bounds(raw: u16)
    ensures
        cfield(raw, 7, 0x1f) < 32,
        cfield(raw, 2, 0x1f) < 32,
        cfield(raw, 7, 7) < 8,
        cfield(raw, 2, 7) < 8,
{
    assert(((raw >> 7u16) & 0x1fu16) < 32 && ((raw >> 2u16) & 0x1fu16) < 32 && ((raw >> 7u16)
        & 7u16) < 8 && ((raw >> 2u16) & 7u16) < 8) by (bit_vector);
}

/// The register named by a five-bit field, or the fault for a number RV32E lacks.
pub fn raw_register(index: u16) -> (r: Result<Register, DecodeError>)
    requires
        index < 32,
    ensures
        r == full_register_spec(index as int),
{
    match Register::new(index as u8) {
        Ok(r) => Ok(r),
        Err(e) => Err(DecodeError::Register(e)),
    }
}

/// The register named by a three-bit field (`x8` ..= `x15`).
pub fn compressed_register(index: u16) -> (r: Register)
    requires
        index < 8,
    ensures
        r == short_register_spec(index as int),
{
    match Register::new((index + 8) as u8) {
        Ok(r) => r,
        Err(_) => Register::zero(),
    }
}

/// Sign-extends the low `bits` bits of `value`.
pub fn sign_extend_u32(value: u32, bits: u8) -> (r: i32)
    requires
        1 <= bits <= 31,
        value < (1u32 << bits),
    ensures
        r as int == signed_field(value as int, (1u32 << ((bits - 1) as u32)) as int),
{
    sign_extend(value, bits)
}

/// The six-bit immediate of C.ADDI, C.LI, C.LUI and C.ANDI.
pub fn compressed_imm6(raw: u16) -> (r: i32)
    ensures
        r == imm6_spec(raw),
{
    let value = (((raw >> 12) & 1) << 5) as u32 | ((raw >> 2) & 0x1f) as u32;
    assert(value < 0x40 && value == ((raw >> 12) & 1) * 0x20 + ((raw >> 2) & 0x1f)) by (bit_vector)
        requires
            value == (((raw >> 12) & 1) << 5) as u32 | ((raw >> 2) & 0x1f) as u32,
    ;
    proof {
        lemma_shift_constants();
    }
    sign_extend_u32(value, 6)
}

/// The shift amount of C.SLLI, C.SRLI and C.SRAI.
pub fn compressed_shamt(raw: u16) -> (r: u16)
    ensures
        r == shamt_spec(raw),
        r < 64,
{
    let r = (((raw >> 12) & 1) << 5) | ((raw >> 2) & 0x1f);
    assert(r == ((raw >> 12) & 1) * 0x20 + ((raw >> 2) & 0x1f) && r < 64) by (bit_vector)
        requires
            r == (((raw >> 12) & 1) << 5) | ((raw >> 2) & 0x1f),
    ;
    r
}

/// Offset of C.LW and C.SW.
pub fn compressed_load_store_offset(raw: u16) -> (r: u32)
    ensures
        r == load_store_offset_spec(raw),
{
    let v = (((raw >> 6) & 0x01) << 2) | (((raw >> 10) & 0x07) << 3) | (((raw >> 5) & 0x01) << 6);
    assert(v == ((raw >> 6) & 1) * 4 + ((raw >> 10) & 7) * 8 + ((raw >> 5) & 1) * 0x40)
        by (bit_vector)
        requires
            v == (((raw >> 6) & 0x01) << 2) | (((raw >> 10) & 0x07) << 3) | (((raw >> 5) & 0x01)
                << 6),
    ;
    v as u32
}

/// Offset of C.J and C.JAL.
pub fn compressed_jump_offset(raw: u16) -> (r: i32)
    ensures
        r == jump_offset_spec(raw),
{
    let value = (((raw >> 12) & 0x01) << 11) | (((raw >> 11) & 0x01) << 4) | (((raw >> 9) & 0x03)
        << 8) | (((raw >> 8) & 0x01) << 10) | (((raw >> 7) & 0x01) << 6) | (((raw >> 6) & 0x01)
        << 7) | (((raw >> 3) & 0x07) << 1) | (((raw >> 2) & 0x01) << 5);
    assert(value < 0x1000 && value == ((raw >> 12) & 1) * 0x800 + ((raw >> 11) & 1) * 0x10 + ((raw
        >> 9) & 3) * 0x100 + ((raw >> 8) & 1) * 0x400 + ((raw >> 7) & 1) * 0x40 + ((raw >> 6) & 1)
        * 0x80 + ((raw >> 3) & 7) * 2 + ((raw >> 2) & 1) * 0x20) by (bit_vector)
        requires
            value == (((raw >> 12) & 0x01) << 11) | (((raw >> 11) & 0x01) << 4) | (((raw >> 9)
                & 0x03) << 8) | (((raw >> 8) & 0x01) << 10) | (((raw >> 7) & 0x01) << 6) | (((raw
                >> 6) & 0x01) << 7) | (((raw >> 3) & 0x07) << 1) | (((raw >> 2) & 0x01) << 5),
    ;
    proof {
        lemma_shift_constants();
    }
    sign_extend_u32(value as u32, 12)
}

/// Offset of C.BEQZ and C.BNEZ.
pub fn compressed_branch_offset(raw: u16) -> (r: i32)
    ensures
        r == branch_offset_spec(raw),
{
    let value = (((raw >> 12) & 0x01) << 8) | (((raw >> 10) & 0x03) << 3) | (((raw >> 5) & 0x03)
        << 6) | (((raw >> 3) & 0x03) << 1) | (((raw >> 2) & 0x01) << 5);
    assert(value < 0x200 && value == ((raw >> 12) & 1) * 0x100 + ((raw >> 10) & 3) * 8 + ((raw
        >> 5) & 3) * 0x40 + ((raw >> 3) & 3) * 2 + ((raw >> 2) & 1) * 0x20) by (bit_vector)
        requires
            value == (((raw >> 12) & 0x01) << 8) | (((raw >> 10) & 0x03) << 3) | (((raw >> 5)
                & 0x03) << 6) | (((raw >> 3) & 0x03) << 1) | (((raw >> 2) & 0x01) << 5),
    ;
    proof {
        lemma_shift_constants();
    }
    sign_extend_u32(value as u32, 9)
}

/// Immediate of C.ADDI16SP.
pub fn compressed_addi16sp_offset(raw: u16) -> (r: i32)
    ensures
        r == addi16sp_offset_spec(raw),
{
    let value = (((raw >> 12) & 0x01) << 9) | (((raw >> 6) & 0x01) << 4) | (((raw >> 5) & 0x01)
        << 6) | (((raw >> 3) & 0x03) << 7) | (((raw >> 2) & 0x01) << 5);
    assert(value < 0x400 && value == ((raw >> 12) & 1) * 0x200 + ((raw >> 6) & 1) * 0x10 + ((raw
        >> 5) & 1) * 0x40 + ((raw >> 3) & 3) * 0x80 + ((raw >> 2) & 1) * 0x20) by (bit_vector)
        requires
            value == (((raw >> 12) & 0x01) << 9) | (((raw >> 6) & 0x01) << 4) | (((raw >> 5)
                & 0x01) << 6) | (((raw >> 3) & 0x03) << 7) | (((raw >> 2) & 0x01) << 5),
    ;
    proof {
        lemma_shift_constants();
    }
    sign_extend_u32(value as u32, 10)
}

/// Immediate of C.ADDI4SPN.
pub fn compressed_addi4spn_offset(raw: u16) -> (r: u32)
    ensures
        r == addi4spn_offset_spec(raw),
{
    let v = (((raw >> 11) & 0x3) << 4) | (((raw >> 7) & 0xf) << 6) | (((raw >> 6) & 1) << 2) | (((
    raw >> 5) & 1) << 3);
    assert(v == ((raw >> 11) & 3) * 0x10 + ((raw >> 7) & 0xf) * 0x40 + ((raw >> 6) & 1) * 4 + ((raw
        >> 5) & 1) * 8) by (bit_vector)
        requires
            v == (((raw >> 11) & 0x3) << 4) | (((raw >> 7) & 0xf) << 6) | (((raw >> 6) & 1) << 2)
                | (((raw >> 5) & 1) << 3),
    ;
    v as u32
}

/// Offset of C.LWSP.
pub fn compressed_lwsp_offset(raw: u16) -> (r: u32)
    ensures
        r == lwsp_offset_spec(raw),
{
    let v = (((raw >> 12) & 1) << 5) | (((raw >> 4) & 0x07) << 2) | (((raw >> 2) & 0x03) << 6);
    assert(v == ((raw >> 12) & 1) * 0x20 + ((raw >> 4) & 7) * 4 + ((raw >> 2) & 3) * 0x40)
        by (bit_vector)
        requires
            v == (((raw >> 12) & 1) << 5) | (((raw >> 4) & 0x07) << 2) | (((raw >> 2) & 0x03) << 6),
    ;
    v as u32
}

/// Offset of C.SWSP.
pub fn compressed_swsp_offset(raw: u16) -> (r: u32)
    ensures
        r == swsp_offset_spec(raw),
{
    let v = (((raw >> 7) & 0x3) << 6) | (((raw >> 9) & 0x0f) << 2);
    assert(v == ((raw >> 7) & 3) * 0x40 + ((raw >> 9) & 0xf) * 4) by (bit_vector)
        requires
            v == (((raw >> 7) & 0x3) << 6) | (((raw >> 9) & 0x0f) << 2),
    ;
    v as u32
}

} // verus!
