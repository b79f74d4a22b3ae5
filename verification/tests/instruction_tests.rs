use claudioos::{decode, DecodeError, Instruction, Register, RegisterError};

#[test]
fn decodes_addi() {
    let instruction = decode(0x0010_8093).unwrap();
    assert_eq!(
        instruction,
        Instruction::OpImm {
            kind: 0,
            rd: Register::new(1).unwrap(),
            rs1: Register::new(1).unwrap(),
            imm: 1,
        }
    );
}

#[test]
fn decodes_ebreak() {
    assert_eq!(decode(0x0010_0073).unwrap(), Instruction::Ebreak);
}

#[test]
fn rejects_registers_outside_rv32e() {
    assert_eq!(
        decode(0x0010_8f93),
        Err(DecodeError::Register(RegisterError::NotRv32e(31)))
    );
}

fn reg(i: u8) -> Register {
    Register::new(i).unwrap()
}

#[test]
fn decodes_negative_i_immediate() {
    // addi x2, x2, -16
    assert_eq!(
        decode(0xff01_0113).unwrap(),
        Instruction::OpImm { kind: 0, rd: reg(2), rs1: reg(2), imm: -16 }
    );
}

#[test]
fn decodes_store_and_load_offsets() {
    // sw x2, 12(x1)
    assert_eq!(
        decode(0x0020_a623).unwrap(),
        Instruction::Store { width: 4, rs1: reg(1), rs2: reg(2), offset: 12 }
    );
    // lbu x5, -1(x6)
    assert_eq!(
        decode(0xfff3_4283).unwrap(),
        Instruction::Load { width: 1, signed: false, rd: reg(5), rs1: reg(6), offset: -1 }
    );
    // lh x5, 2(x6)
    assert_eq!(
        decode(0x0023_1283).unwrap(),
        Instruction::Load { width: 2, signed: true, rd: reg(5), rs1: reg(6), offset: 2 }
    );
}

#[test]
fn decodes_branch_and_jump_offsets() {
    // beq x1, x2, -4
    assert_eq!(
        decode(0xfe20_8ee3).unwrap(),
        Instruction::Branch { kind: 0, rs1: reg(1), rs2: reg(2), offset: -4 }
    );
    // jal x1, 2048
    assert_eq!(decode(0x0010_00ef).unwrap(), Instruction::Jal { rd: reg(1), offset: 2048 });
    // jal x0, -2
    assert_eq!(decode(0xfffff06f).unwrap(), Instruction::Jal { rd: reg(0), offset: -2 });
}

#[test]
fn decodes_upper_immediates_and_ops() {
    assert_eq!(
        decode(0x4001_10b7).unwrap(),
        Instruction::Lui { rd: reg(1), imm: 0x4001_1000 }
    );
    // sub x3, x1, x2
    assert_eq!(
        decode(0x4020_81b3).unwrap(),
        Instruction::Op { kind: 8, rd: reg(3), rs1: reg(1), rs2: reg(2) }
    );
    assert_eq!(decode(0x0000_000f).unwrap(), Instruction::Fence);
    assert_eq!(decode(0x0000_0073).unwrap(), Instruction::Ecall);
}

#[test]
fn reports_unknown_encodings() {
    assert_eq!(decode(0x0000_0007), Err(DecodeError::UnknownOpcode(0x07)));
    assert_eq!(decode(0x0020_0073), Err(DecodeError::UnknownSystem(0x0020_0073)));
    // rs2 = x20 in an add
    assert_eq!(
        decode(0x0140_81b3),
        Err(DecodeError::Register(RegisterError::NotRv32e(20)))
    );
}
