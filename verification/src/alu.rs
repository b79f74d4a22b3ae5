use vstd::prelude::*;
use crate::fields::{signed32, wrap32, lemma_as_i32, lemma_i32_as_u32};

verus! {

/// Sum modulo 2^32 of two words.
pub open spec fn add32(a: u32, b: u32) -> u32 {
    wrap32(a + b)
}

/// Difference modulo 2^32 of two words.
pub open spec fn sub32(a: u32, b: u32) -> u32 {
    wrap32(a - b)
}

/// 1 when the condition holds, else 0.
pub open spec fn flag(b: bool) -> u32 {
    if b {
        1
    } else {
        0
    }
}

/// Arithmetic right shift of a word by `amount` (below 32): the sign bit fills the vacated bits.
pub open spec fn sra32(lhs: u32, amount: u32) -> u32 {
    ((lhs as i32) >> amount) as u32
}

/// Register-immediate ALU result for `funct3 = kind`: ADDI, SLLI, SLTI, SLTIU, XORI, SRLI or
/// SRAI (told apart by bit 10 of the immediate, the `funct7` bit), ORI, ANDI; the immediate is
/// taken as the word it sign-extends to, and shift amounts are its low five bits.
pub open spec fn op_imm_spec(kind: u8, lhs: u32, imm: i32) -> u32 {
    let rhs = wrap32(imm as int);
    if kind == 0 {
        add32(lhs, rhs)
    } else if kind == 1 {
        lhs << (rhs % 32)
    } else if kind == 2 {
        flag(signed32(lhs) < imm)
    } else if kind == 3 {
        flag(lhs < rhs)
    } else if kind == 4 {
        lhs ^ rhs
    } else if kind == 5 {
        if rhs & 0x400 != 0 {
            sra32(lhs, rhs % 32)
        } else {
            lhs >> (rhs % 32)
        }
    } else if kind == 6 {
        lhs | rhs
    } else if kind == 7 {
        lhs & rhs
    } else {
        0
    }
}

/// Register-register ALU result for the selector `kind` (`funct3` plus 8 for the alternate
/// `funct7`): ADD, SLL, SLT, SLTU, XOR, SRL, OR, AND, SUB and SRA; shift amounts are the low
/// five bits of `rhs`; every other selector gives 0.
pub open spec fn op_spec(kind: u8, lhs: u32, rhs: u32) -> u32 {
    if kind == 0 {
        add32(lhs, rhs)
    } else if kind == 1 {
        lhs << (rhs % 32)
    } else if kind == 2 {
        flag(signed32(lhs) < signed32(rhs))
    } else if kind == 3 {
        flag(lhs < rhs)
    } else if kind == 4 {
        lhs ^ rhs
    } else if kind == 5 {
        lhs >> (rhs % 32)
    } else if kind == 6 {
        lhs | rhs
    } else if kind == 7 {
        lhs & rhs
    } else if kind == 8 {
        sub32(lhs, rhs)
    } else if kind == 13 {
        sra32(lhs, rhs % 32)
    } else {
        0
    }
}

/// Whether a conditional branch with `funct3 = kind` is taken: BEQ, BNE, BLT, BGE, BLTU, BGEU;
/// the two reserved selectors never branch.
pub open spec fn branch_taken_spec(kind: u8, lhs: u32, rhs: u32) -> bool {
    if kind == 0 {
        lhs == rhs
    } else if kind == 1 {
        lhs != rhs
    } else if kind == 4 {
        signed32(lhs) < signed32(rhs)
    } else if kind == 5 {
        signed32(lhs) >= signed32(rhs)
    } else if kind == 6 {
        lhs < rhs
    } else if kind == 7 {
        lhs >= rhs
    } else {
        false
    }
}

/// Sum modulo 2^32 of two words.
pub fn add_words(a: u32, b: u32) -> (r: u32)
    ensures
        r == add32(a, b),
{
    a.wrapping_add(b)
}

/// Adds a signed offset to a word modulo 2^32.
pub fn add_offset(a: u32, offset: i32) -> (r: u32)
    ensures
        r == add32(a, wrap32(offset as int)),
        r == wrap32(a + offset),
{
    proof {
        lemma_i32_as_u32(offset);
    }
    let r = a.wrapping_add(offset as u32);
    assert(wrap32(a + wrap32(offset as int)) == wrap32(a + offset)) by {
        assert((a + (offset as int % 0x1_0000_0000)) % 0x1_0000_0000 == (a + offset) % 0x1_0000_0000)
            by {
            vstd::arithmetic::div_mod::lemma_add_mod_noop(a as int, offset as int, 0x1_0000_0000);
            vstd::arithmetic::div_mod::lemma_mod_twice(a as int, 0x1_0000_0000);
        }
    }
    r
}

/// Register-immediate ALU operation.
pub fn op_imm(kind: u8, lhs: u32, imm: i32) -> (r: u32)
    ensures
        r == op_imm_spec(kind, lhs, imm),
{
    proof {
        lemma_i32_as_u32(imm);
        lemma_as_i32(lhs);
    }
    let rhs = imm as u32;
    let amount = rhs % 32;
    match kind {
        0 => lhs.wrapping_add(rhs),
        1 => lhs << amount,
        2 => if (lhs as i32) < imm {
            1
        } else {
            0
        },
        3 => if lhs < rhs {
            1
        } else {
            0
        },
        4 => lhs ^ rhs,
        5 => if rhs & 0x400 != 0 {
            ((lhs as i32) >> amount) as u32
        } else {
            lhs >> amount
        },
        6 => lhs | rhs,
        7 => lhs & rhs,
        _ => 0,
    }
}

/// Register-register ALU operation.
pub fn op(kind: u8, lhs: u32, rhs: u32) -> (r: u32)
    ensures
        r == op_spec(kind, lhs, rhs),
{
    proof {
        lemma_as_i32(lhs);
        lemma_as_i32(rhs);
    }
    let amount = rhs % 32;
    match kind {
        0 => lhs.wrapping_add(rhs),
        1 => lhs << amount,
        2 => if (lhs as i32) < (rhs as i32) {
            1
        } else {
            0
        },
        3 => if lhs < rhs {
            1
        } else {
            0
        },
        4 => lhs ^ rhs,
        5 => lhs >> amount,
        6 => lhs | rhs,
        7 => lhs & rhs,
        8 => lhs.wrapping_sub(rhs),
        13 => ((lhs as i32) >> amount) as u32,
        _ => 0,
    }
}

/// Branch condition.
pub fn branch_taken(kind: u8, lhs: u32, rhs: u32) -> (b: bool)
    ensures
        b == branch_taken_spec(kind, lhs, rhs),
{
    proof {
        lemma_as_i32(lhs);
        lemma_as_i32(rhs);
    }
    match kind {
        0 => lhs == rhs,
        1 => lhs != rhs,
        4 => (lhs as i32) < (rhs as i32),
        5 => (lhs as i32) >= (rhs as i32),
        6 => lhs < rhs,
        7 => lhs >= rhs,
        _ => false,
    }
}

} // verus!
