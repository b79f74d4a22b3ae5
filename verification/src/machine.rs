use vstd::prelude::*;
use crate::alu::{
    add32, sra32, op_imm_spec, op_spec, branch_taken_spec, add_words, add_offset, op_imm, op,
    branch_taken,
};
use crate::bus::{Bus, BusFault, read_bytes32_spec, read_bytes32, GPIO_OUT, GPIOA_BASE, GPIOC_BASE, GPIOD_BASE, GPIO_BSHR_OFFSET};
use crate::compressed::{
    cfield, full_register_spec, short_register_spec, imm6_spec, shamt_spec,
    load_store_offset_spec, jump_offset_spec, branch_offset_spec, addi16sp_offset_spec,
    lwsp_offset_spec, swsp_offset_spec, addi4spn_offset_spec, bits16, raw_register, compressed_register, compressed_imm6,
    compressed_shamt, compressed_load_store_offset, compressed_jump_offset,
    compressed_branch_offset, compressed_addi16sp_offset, compressed_lwsp_offset,
    compressed_swsp_offset, compressed_addi4spn_offset,
};
use crate::fields::{field, signed_field, wrap32, sign_extend, bits32};
use crate::instruction::{decode, decode_spec, register_at, DecodeError, Instruction};
use crate::register::Register;
use crate::ram_bus::{RamBus, law_ram_hart_word_read};

verus! {

broadcast use crate::register::Register::lemma_numbered;

/// What the machine observed.
#[derive(Clone, Copy, Debug, PartialEq, Eq, Structural)]
pub enum EventKind {
    /// A store to a GPIO output or set/reset register.
    GpioWrite,
}

/// One observed event, stamped with the cycle count at which it happened.
#[derive(Clone, Copy, Debug, PartialEq, Eq, Structural)]
pub struct Event {
    pub cycle: u64,
    pub kind: EventKind,
    pub address: u32,
    pub value: u32,
}

/// How long `run` may go on.
#[derive(Clone, Copy, Debug, PartialEq, Eq, Structural)]
pub struct RunLimit {
    pub max_cycles: u64,
}

/// Why the machine stopped (or `Running` when it may go on).
#[derive(Clone, Copy, Debug, PartialEq, Eq, Structural)]
pub enum StopReason {
    Running,
    Ebreak,
    Ecall,
    MaxCycles,
    DecodeFault(DecodeError),
    BusFault(BusFault),
    Unsupported(Instruction),
}

/// The architectural state of a machine whose bus is in state `S`.
#[verifier::ext_equal]
pub struct MachineState<S> {
    pub bus: S,
    /// The sixteen integer registers; `regs[0]` is `x0`.
    pub regs: Seq<u32>,
    pub pc: u32,
    pub mepc: u32,
    pub mstatus: u32,
    pub mtvec: u32,
    pub cycles: u64,
    /// The recorded events, oldest first.
    pub events: Seq<Event>,
}

/// CSR number of `mstatus`.
pub const CSR_MSTATUS: u32 = 0x300;

/// CSR number of `mtvec`.
pub const CSR_MTVEC: u32 = 0x305;

/// CSR number of `mepc`.
pub const CSR_MEPC: u32 = 0x341;

impl<S> MachineState<S> {
    /// The value of register `r`.
    pub open spec fn reg(self, r: Register) -> u32 {
        self.regs[r@ as int]
    }

    /// The state with `v` written to `r`; writes to `x0` are discarded.
    pub open spec fn set_reg(self, r: Register, v: u32) -> Self {
        if r@ == 0 {
            self
        } else {
            MachineState { regs: self.regs.update(r@ as int, v), ..self }
        }
    }

    pub open spec fn at_pc(self, pc: u32) -> Self {
        MachineState { pc, ..self }
    }

    pub open spec fn on_bus(self, bus: S) -> Self {
        MachineState { bus, ..self }
    }

    /// The state with one more cycle counted (modulo 2^64).
    pub open spec fn tick(self) -> Self {
        MachineState { cycles: ((self.cycles + 1) % 0x1_0000_0000_0000_0000) as u64, ..self }
    }

    /// The state with `e` appended to the trace, unless the trace already holds `trace` events.
    pub open spec fn record(self, e: Event, trace: nat) -> Self {
        if self.events.len() < trace {
            MachineState { events: self.events.push(e), ..self }
        } else {
            self
        }
    }

    /// Value of a CSR: `mstatus`, `mtvec` and `mepc` are kept, every other CSR reads as 0.
    pub open spec fn csr(self, csr: u32) -> u32 {
        if csr == CSR_MSTATUS {
            self.mstatus
        } else if csr == CSR_MTVEC {
            self.mtvec
        } else if csr == CSR_MEPC {
            self.mepc
        } else {
            0
        }
    }

    /// The state with a CSR written; writes to CSRs other than the three kept are discarded.
    pub open spec fn set_csr(self, csr: u32, v: u32) -> Self {
        if csr == CSR_MSTATUS {
            MachineState { mstatus: v, ..self }
        } else if csr == CSR_MTVEC {
            MachineState { mtvec: v, ..self }
        } else if csr == CSR_MEPC {
            MachineState { mepc: v, ..self }
        } else {
            self
        }
    }
}

/// A machine state is consistent: the bus state is one its implementation can be in, there
/// are sixteen registers with `x0` zero, and at most `trace` events are recorded.
pub open spec fn valid_state<B: Bus>(m: MachineState<B::V>, trace: nat) -> bool {
    &&& B::valid(m.bus)
    &&& m.regs.len() == 16
    &&& m.regs[0] == 0
    &&& m.events.len() <= trace
}

/// Addresses whose stores are recorded as GPIO events: the `RamBus` latch and the set/reset
/// registers of ports A, C and D.
pub open spec fn is_gpio_event_spec(address: u32) -> bool {
    ||| address == GPIO_OUT
    ||| address == GPIOA_BASE + GPIO_BSHR_OFFSET
    ||| address == GPIOC_BASE + GPIO_BSHR_OFFSET
    ||| address == GPIOD_BASE + GPIO_BSHR_OFFSET
}

/// A load of `width` bytes (1, 2, anything else meaning 4), sign- or zero-extended.
pub open spec fn load_value_spec<B: Bus>(bus: B::V, address: u32, width: u8, signed: bool) -> (
    B::V,
    Result<u32, BusFault>,
) {
    if width == 1 {
        let (b, r) = B::read8_spec(bus, address);
        (
            b,
            match r {
                Ok(v) => Ok(
                    if signed {
                        wrap32(signed_field(v as int, 0x80))
                    } else {
                        v as u32
                    },
                ),
                Err(e) => Err(e),
            },
        )
    } else if width == 2 {
        let (b, r) = B::read16_spec(bus, address);
        (
            b,
            match r {
                Ok(v) => Ok(
                    if signed {
                        wrap32(signed_field(v as int, 0x8000))
                    } else {
                        v as u32
                    },
                ),
                Err(e) => Err(e),
            },
        )
    } else {
        B::read32_mut_spec(bus, address)
    }
}

/// A store of the low `width` bytes (1, 2, anything else meaning 4) of `value`.
pub open spec fn store_value_spec<B: Bus>(bus: B::V, address: u32, width: u8, value: u32) -> (
    B::V,
    Result<(), BusFault>,
) {
    if width == 1 {
        B::write8_spec(bus, address, (value % 0x100) as u8)
    } else if width == 2 {
        B::write16_spec(bus, address, (value % 0x1_0000) as u16)
    } else {
        B::write32_spec(bus, address, value)
    }
}

/// Executes one decoded 32-bit instruction in state `m` (whose cycle count already includes
/// this instruction); the next sequential pc is `pc + 4`.
pub open spec fn execute_spec<B: Bus>(m: MachineState<B::V>, inst: Instruction, trace: nat) -> (
    MachineState<B::V>,
    StopReason,
) {
    let next_pc = add32(m.pc, 4);
    match inst {
        Instruction::Lui { rd, imm } => (m.set_reg(rd, imm).at_pc(next_pc), StopReason::Running),
        Instruction::Auipc { rd, imm } => (
            m.set_reg(rd, add32(m.pc, imm)).at_pc(next_pc),
            StopReason::Running,
        ),
        Instruction::Jal { rd, offset } => (
            m.set_reg(rd, next_pc).at_pc(wrap32(m.pc + offset)),
            StopReason::Running,
        ),
        Instruction::Jalr { rd, rs1, offset } => (
            m.set_reg(rd, next_pc).at_pc(wrap32(m.reg(rs1) + offset) & !1u32),
            StopReason::Running,
        ),
        Instruction::Branch { kind, rs1, rs2, offset } => (
            m.at_pc(
                if branch_taken_spec(kind, m.reg(rs1), m.reg(rs2)) {
                    wrap32(m.pc + offset)
                } else {
                    next_pc
                },
            ),
            StopReason::Running,
        ),
        Instruction::Load { width, signed, rd, rs1, offset } => {
            let (bus, r) = load_value_spec::<B>(m.bus, wrap32(m.reg(rs1) + offset), width, signed);
            match r {
                Err(f) => (m.on_bus(bus), StopReason::BusFault(f)),
                Ok(v) => (m.on_bus(bus).set_reg(rd, v).at_pc(next_pc), StopReason::Running),
            }
        },
        Instruction::Store { width, rs1, rs2, offset } => {
            let address = wrap32(m.reg(rs1) + offset);
            let value = m.reg(rs2);
            let m1 = if is_gpio_event_spec(address) {
                m.record(
                    Event { cycle: m.cycles, kind: EventKind::GpioWrite, address, value },
                    trace,
                )
            } else {
                m
            };
            let (bus, r) = store_value_spec::<B>(m1.bus, address, width, value);
            match r {
                Err(f) => (m1.on_bus(bus), StopReason::BusFault(f)),
                Ok(()) => (m1.on_bus(bus).at_pc(next_pc), StopReason::Running),
            }
        },
        Instruction::OpImm { kind, rd, rs1, imm } => (
            m.set_reg(rd, op_imm_spec(kind, m.reg(rs1), imm)).at_pc(next_pc),
            StopReason::Running,
        ),
        Instruction::Op { kind, rd, rs1, rs2 } => (
            m.set_reg(rd, op_spec(kind, m.reg(rs1), m.reg(rs2))).at_pc(next_pc),
            StopReason::Running,
        ),
        Instruction::Fence => (m.at_pc(next_pc), StopReason::Running),
        Instruction::Ebreak => (m, StopReason::Ebreak),
        Instruction::Ecall => (m, StopReason::Ecall),
    }
}

/// The machine: a bus, an RV32E register file, the machine-mode CSRs it keeps, a cycle counter
/// and the first `TRACE` GPIO events.
pub struct Machine<B, const TRACE: usize> {
    bus: B,
    registers: Vec<u32>,
    pc: u32,
    mepc: u32,
    mstatus: u32,
    mtvec: u32,
    cycles: u64,
    events: Vec<Event>,
}

impl<B: Bus, const TRACE: usize> View for Machine<B, TRACE> {
    type V = MachineState<B::V>;

    closed spec fn view(&self) -> MachineState<B::V> {
        MachineState {
            bus: self.bus@,
            regs: self.registers@,
            pc: self.pc,
            mepc: self.mepc,
            mstatus: self.mstatus,
            mtvec: self.mtvec,
            cycles: self.cycles,
            events: self.events@,
        }
    }
}

/// Loads `width` bytes at `address`, sign- or zero-extending them.
fn load_value<B: Bus>(bus: &mut B, address: u32, width: u8, signed: bool) -> (r: Result<u32, BusFault>)
    requires
        B::valid(old(bus)@),
    ensures
        B::valid(final(bus)@),
        (final(bus)@, r) == load_value_spec::<B>(old(bus)@, address, width, signed),
{
    match width {
        1 => {
            let value = match bus.read8(address) {
                Ok(v) => v as u32,
                Err(e) => return Err(e),
            };
            Ok(
                if signed {
                    proof {
                        crate::fields::lemma_shift_constants();
                    }
                    let s = sign_extend(value, 8);
                    proof {
                        crate::fields::lemma_i32_as_u32(s);
                    }
                    s as u32
                } else {
                    value
                },
            )
        },
        2 => {
            let value = match bus.read16(address) {
                Ok(v) => v as u32,
                Err(e) => return Err(e),
            };
            Ok(
                if signed {
                    proof {
                        crate::fields::lemma_shift_constants();
                    }
                    let s = sign_extend(value, 16);
                    proof {
                        crate::fields::lemma_i32_as_u32(s);
                    }
                    s as u32
                } else {
                    value
                },
            )
        },
        _ => bus.read32_mut(address),
    }
}

/// Stores the low `width` bytes of `value` at `address`.
fn store_value<B: Bus>(bus: &mut B, address: u32, width: u8, value: u32) -> (r: Result<(), BusFault>)
    requires
        B::valid(old(bus)@),
    ensures
        B::valid(final(bus)@),
        (final(bus)@, r) == store_value_spec::<B>(old(bus)@, address, width, value),
{
    match width {
        1 => {
            let b = (value % 0x100) as u8;
            bus.write8(address, b)
        },
        2 => {
            let h = (value % 0x1_0000) as u16;
            bus.write16(address, h)
        },
        _ => bus.write32(address, value),
    }
}

/// Whether a store to `address` is recorded as a GPIO event.
fn is_gpio_event_address(address: u32) -> (b: bool)
    ensures
        b == is_gpio_event_spec(address),
{
    address == GPIO_OUT || address == GPIOA_BASE + GPIO_BSHR_OFFSET || address == GPIOC_BASE
        + GPIO_BSHR_OFFSET || address == GPIOD_BASE + GPIO_BSHR_OFFSET
}

impl<B: Bus, const TRACE: usize> Machine<B, TRACE> {
    /// Whether the machine's state is consistent.
    pub open spec fn valid(&self) -> bool {
        valid_state::<B>(self@, TRACE as nat)
    }

    fn read_register(&self, register: Register) -> (v: u32)
        requires
            self.valid(),
        ensures
            v == self@.reg(register),
    {
        self.registers[register.index()]
    }

    fn write_register(&mut self, register: Register, value: u32)
        requires
            old(self).valid(),
        ensures
            final(self).valid(),
            final(self)@ == old(self)@.set_reg(register, value),
    {
        if register.index() != 0 {
            let i = register.index();
            self.registers.set(i, value);
        }
    }

    fn record(&mut self, event: Event)
        requires
            old(self).valid(),
        ensures
            final(self).valid(),
            final(self)@ == old(self)@.record(event, TRACE as nat),
    {
        if self.events.len() < TRACE {
            self.events.push(event);
        }
    }

    /// Executes a decoded 32-bit instruction (the cycle is already counted).
    #[verifier::rlimit(40)]
    fn execute(&mut self, instruction: Instruction) -> (r: StopReason)
        requires
            old(self).valid(),
        ensures
            final(self).valid(),
            (final(self)@, r) == execute_spec::<B>(old(self)@, instruction, TRACE as nat),
            final(self)@.cycles == old(self)@.cycles,
    {
        let pc = self.pc;
        let next_pc = add_words(pc, 4);
        match instruction {
            Instruction::Lui { rd, imm } => {
                self.write_register(rd, imm);
                self.pc = next_pc;
            },
            Instruction::Auipc { rd, imm } => {
                let v = add_words(pc, imm);
                self.write_register(rd, v);
                self.pc = next_pc;
            },
            Instruction::Jal { rd, offset } => {
                self.write_register(rd, next_pc);
                self.pc = add_offset(pc, offset);
            },
            Instruction::Jalr { rd, rs1, offset } => {
                let base = self.read_register(rs1);
                let target = add_offset(base, offset) & !1u32;
                self.write_register(rd, next_pc);
                self.pc = target;
            },
            Instruction::Branch { kind, rs1, rs2, offset } => {
                let lhs = self.read_register(rs1);
                let rhs = self.read_register(rs2);
                self.pc = if branch_taken(kind, lhs, rhs) {
                    add_offset(pc, offset)
                } else {
                    next_pc
                };
            },
            Instruction::Load { width, signed, rd, rs1, offset } => {
                let address = add_offset(self.read_register(rs1), offset);
                let value = match load_value(&mut self.bus, address, width, signed) {
                    Ok(value) => value,
                    Err(fault) => return StopReason::BusFault(fault),
                };
                self.write_register(rd, value);
                self.pc = next_pc;
            },
            Instruction::Store { width, rs1, rs2, offset } => {
                let address = add_offset(self.read_register(rs1), offset);
                let value = self.read_register(rs2);
                if is_gpio_event_address(address) {
                    let cycle = self.cycles;
                    self.record(Event { cycle, kind: EventKind::GpioWrite, address, value });
                }
                match store_value(&mut self.bus, address, width, value) {
                    Ok(()) => {},
                    Err(fault) => return StopReason::BusFault(fault),
                }
                self.pc = next_pc;
            },
            Instruction::OpImm { kind, rd, rs1, imm } => {
                let lhs = self.read_register(rs1);
                let value = op_imm(kind, lhs, imm);
                self.write_register(rd, value);
                self.pc = next_pc;
            },
            Instruction::Op { kind, rd, rs1, rs2 } => {
                let lhs = self.read_register(rs1);
                let rhs = self.read_register(rs2);
                let value = op(kind, lhs, rhs);
                self.write_register(rd, value);
                self.pc = next_pc;
            },
            Instruction::Fence => {
                self.pc = next_pc;
            },
            Instruction::Ebreak => return StopReason::Ebreak,
            Instruction::Ecall => return StopReason::Ecall,
        }
        StopReason::Running
    }
}


/// The fault for a compressed encoding this hart does not execute: its low byte.
pub open spec fn unknown_compressed(raw: u16) -> StopReason {
    StopReason::DecodeFault(DecodeError::UnknownOpcode((raw % 0x100) as u8))
}

/// Executes a compressed instruction of quadrant 0: C.ADDI4SPN, C.LW and C.SW. C.ADDI4SPN
/// with a zero immediate is reserved.
pub open spec fn quadrant0_spec<B: Bus>(m: MachineState<B::V>, raw: u16, trace: nat) -> (
    MachineState<B::V>,
    StopReason,
) {
    let funct3 = cfield(raw, 13, 7);
    let next_pc = add32(m.pc, 2);
    let rs1 = short_register_spec(cfield(raw, 7, 7));
    let address = add32(m.reg(rs1), load_store_offset_spec(raw) as u32);
    if funct3 == 0 {
        let imm = addi4spn_offset_spec(raw);
        if imm == 0 {
            (m, unknown_compressed(raw))
        } else {
            let rd = short_register_spec(cfield(raw, 2, 7));
            (
                m.set_reg(rd, add32(m.reg(Register::numbered(2)), imm as u32)).at_pc(next_pc),
                StopReason::Running,
            )
        }
    } else if funct3 == 2 {
        let rd = short_register_spec(cfield(raw, 2, 7));
        let (bus, r) = B::read32_mut_spec(m.bus, address);
        match r {
            Err(f) => (m.on_bus(bus), StopReason::BusFault(f)),
            Ok(v) => (m.on_bus(bus).set_reg(rd, v).at_pc(next_pc), StopReason::Running),
        }
    } else if funct3 == 6 {
        store_word_spec::<B>(m, address, m.reg(short_register_spec(cfield(raw, 2, 7))), trace)
    } else {
        (m, unknown_compressed(raw))
    }
}

/// A word store as the hart performs it: a store to a GPIO event address is recorded (with the
/// current cycle and the whole stored value) before the bus sees it; the pc moves on by two
/// when the bus takes the store.
pub open spec fn store_word_spec<B: Bus>(
    m: MachineState<B::V>,
    address: u32,
    value: u32,
    trace: nat,
) -> (MachineState<B::V>, StopReason) {
    let m1 = if is_gpio_event_spec(address) {
        m.record(Event { cycle: m.cycles, kind: EventKind::GpioWrite, address, value }, trace)
    } else {
        m
    };
    let (bus, r) = B::write32_spec(m1.bus, address, value);
    match r {
        Err(f) => (m1.on_bus(bus), StopReason::BusFault(f)),
        Ok(()) => (m1.on_bus(bus).at_pc(add32(m.pc, 2)), StopReason::Running),
    }
}

/// Executes a compressed instruction of quadrant 1: C.ADDI, C.JAL, C.LI, C.ADDI16SP, C.LUI,
/// C.SRLI, C.SRAI, C.ANDI, C.SUB, C.XOR, C.OR, C.AND, C.J, C.BEQZ and C.BNEZ. A register field
/// naming x16 ..= x31 is refused first; a shift amount of 32 or more is reserved.
pub open spec fn quadrant1_spec<B: Bus>(m: MachineState<B::V>, raw: u16) -> (
    MachineState<B::V>,
    StopReason,
) {
    let funct3 = cfield(raw, 13, 7);
    let next_pc = add32(m.pc, 2);
    let imm = imm6_spec(raw);
    if funct3 == 0 || funct3 == 2 || funct3 == 3 {
        match full_register_spec(cfield(raw, 7, 0x1f)) {
            Err(e) => (m, StopReason::DecodeFault(e)),
            Ok(rd) => if funct3 == 0 {
                (m.set_reg(rd, wrap32(m.reg(rd) + imm)).at_pc(next_pc), StopReason::Running)
            } else if funct3 == 2 {
                (m.set_reg(rd, wrap32(imm)).at_pc(next_pc), StopReason::Running)
            } else if rd@ == 2 {
                (
                    m.set_reg(rd, wrap32(m.reg(rd) + addi16sp_offset_spec(raw))).at_pc(next_pc),
                    StopReason::Running,
                )
            } else {
                (m.set_reg(rd, wrap32(imm * 0x1000)).at_pc(next_pc), StopReason::Running)
            },
        }
    } else if funct3 == 1 {
        (
            m.set_reg(Register::numbered(1), next_pc).at_pc(wrap32(m.pc + jump_offset_spec(raw))),
            StopReason::Running,
        )
    } else if funct3 == 4 {
        let op2 = cfield(raw, 10, 3);
        let rd = short_register_spec(cfield(raw, 7, 7));
        let shift = shamt_spec(raw) as u32;
        if (op2 == 0 || op2 == 1) && shamt_spec(raw) >= 32 {
            (m, unknown_compressed(raw))
        } else if op2 == 0 {
            (m.set_reg(rd, m.reg(rd) >> shift).at_pc(next_pc), StopReason::Running)
        } else if op2 == 1 {
            (m.set_reg(rd, sra32(m.reg(rd), shift)).at_pc(next_pc), StopReason::Running)
        } else if op2 == 2 {
            (m.set_reg(rd, m.reg(rd) & wrap32(imm)).at_pc(next_pc), StopReason::Running)
        } else {
            let rs2 = short_register_spec(cfield(raw, 2, 7));
            let high = cfield(raw, 12, 1);
            let sel = cfield(raw, 5, 3);
            if high == 0 && sel == 0 {
                (
                    m.set_reg(rd, wrap32(m.reg(rd) - m.reg(rs2))).at_pc(next_pc),
                    StopReason::Running,
                )
            } else if high == 0 && sel == 1 {
                (m.set_reg(rd, m.reg(rd) ^ m.reg(rs2)).at_pc(next_pc), StopReason::Running)
            } else if high == 0 && sel == 2 {
                (m.set_reg(rd, m.reg(rd) | m.reg(rs2)).at_pc(next_pc), StopReason::Running)
            } else if high == 0 && sel == 3 {
                (m.set_reg(rd, m.reg(rd) & m.reg(rs2)).at_pc(next_pc), StopReason::Running)
            } else {
                (m, unknown_compressed(raw))
            }
        }
    } else if funct3 == 5 {
        (m.at_pc(wrap32(m.pc + jump_offset_spec(raw))), StopReason::Running)
    } else {
        let v = m.reg(short_register_spec(cfield(raw, 7, 7)));
        let taken = if funct3 == 6 {
            v == 0
        } else {
            v != 0
        };
        (
            m.at_pc(
                if taken {
                    wrap32(m.pc + branch_offset_spec(raw))
                } else {
                    next_pc
                },
            ),
            StopReason::Running,
        )
    }
}

/// Executes C.JR, C.MV, C.EBREAK, C.JALR (which reads its target register after writing `ra`)
/// and C.ADD, once both register fields are known to name RV32E registers.
pub open spec fn register_pair_spec<B: Bus>(
    m: MachineState<B::V>,
    raw: u16,
    rd: Register,
    rs2: Register,
) -> (MachineState<B::V>, StopReason) {
    let next_pc = add32(m.pc, 2);
    if cfield(raw, 12, 1) == 0 {
        if rs2@ == 0 {
            if rd@ == 0 {
                (m, unknown_compressed(raw))
            } else {
                (m.at_pc(m.reg(rd) & !1u32), StopReason::Running)
            }
        } else {
            (m.set_reg(rd, m.reg(rs2)).at_pc(next_pc), StopReason::Running)
        }
    } else if rs2@ == 0 {
        if rd@ == 0 {
            (m, StopReason::Ebreak)
        } else {
            let m1 = m.set_reg(Register::numbered(1), next_pc);
            (m1.at_pc(m1.reg(rd) & !1u32), StopReason::Running)
        }
    } else {
        (m.set_reg(rd, add32(m.reg(rd), m.reg(rs2))).at_pc(next_pc), StopReason::Running)
    }
}

/// Executes a compressed instruction of quadrant 2: C.SLLI, C.LWSP, C.JR, C.MV, C.EBREAK,
/// C.JALR, C.ADD and C.SWSP (which records a GPIO event as C.SW does). Register fields are
/// checked in the order rd, rs2, and one naming x16 ..= x31 is refused; a shift amount of 32 or
/// more is reserved.
pub open spec fn quadrant2_spec<B: Bus>(m: MachineState<B::V>, raw: u16, trace: nat) -> (
    MachineState<B::V>,
    StopReason,
) {
    let funct3 = cfield(raw, 13, 7);
    let next_pc = add32(m.pc, 2);
    let rd = full_register_spec(cfield(raw, 7, 0x1f));
    let rs2 = full_register_spec(cfield(raw, 2, 0x1f));
    let sp = Register::numbered(2);
    if funct3 == 0 {
        match rd {
            Err(e) => (m, StopReason::DecodeFault(e)),
            Ok(rd) => if shamt_spec(raw) >= 32 {
                (m, unknown_compressed(raw))
            } else {
                (
                    m.set_reg(rd, m.reg(rd) << (shamt_spec(raw) as u32)).at_pc(next_pc),
                    StopReason::Running,
                )
            },
        }
    } else if funct3 == 2 {
        match rd {
            Err(e) => (m, StopReason::DecodeFault(e)),
            Ok(rd) => {
                let address = add32(m.reg(sp), lwsp_offset_spec(raw) as u32);
                let (bus, r) = B::read32_mut_spec(m.bus, address);
                match r {
                    Err(f) => (m.on_bus(bus), StopReason::BusFault(f)),
                    Ok(v) => (m.on_bus(bus).set_reg(rd, v).at_pc(next_pc), StopReason::Running),
                }
            },
        }
    } else if funct3 == 4 {
        match (rd, rs2) {
            (Err(e), _) => (m, StopReason::DecodeFault(e)),
            (Ok(_), Err(e)) => (m, StopReason::DecodeFault(e)),
            (Ok(rd), Ok(rs2)) => register_pair_spec::<B>(m, raw, rd, rs2),
        }
    } else if funct3 == 6 {
        match rs2 {
            Err(e) => (m, StopReason::DecodeFault(e)),
            Ok(rs2) => store_word_spec::<B>(
                m,
                add32(m.reg(sp), swsp_offset_spec(raw) as u32),
                m.reg(rs2),
                trace,
            ),
        }
    } else {
        (m, unknown_compressed(raw))
    }
}

/// Executes one compressed (16-bit) instruction in state `m` (cycle already counted).
#[verifier::opaque]
pub open spec fn compressed_spec<B: Bus>(m: MachineState<B::V>, raw: u16, trace: nat) -> (
    MachineState<B::V>,
    StopReason,
) {
    let quadrant = raw % 4;
    if quadrant == 0 {
        quadrant0_spec::<B>(m, raw, trace)
    } else if quadrant == 1 {
        quadrant1_spec::<B>(m, raw)
    } else if quadrant == 2 {
        quadrant2_spec::<B>(m, raw, trace)
    } else {
        (m, unknown_compressed(raw))
    }
}

impl<B: Bus, const TRACE: usize> Machine<B, TRACE> {
    fn unknown_compressed(raw: u16) -> (r: StopReason)
        ensures
            r == unknown_compressed(raw),
    {
        let low = (raw % 0x100) as u8;
        StopReason::DecodeFault(DecodeError::UnknownOpcode(low))
    }

    fn store_word(&mut self, address: u32, value: u32) -> (r: StopReason)
        requires
            old(self).valid(),
        ensures
            final(self).valid(),
            (final(self)@, r) == store_word_spec::<B>(old(self)@, address, value, TRACE as nat),
            final(self)@.cycles == old(self)@.cycles,
    {
        let next_pc = add_words(self.pc, 2);
        if is_gpio_event_address(address) {
            let cycle = self.cycles;
            self.record(Event { cycle, kind: EventKind::GpioWrite, address, value });
        }
        match self.bus.write32(address, value) {
            Ok(()) => {},
            Err(fault) => return StopReason::BusFault(fault),
        }
        self.pc = next_pc;
        StopReason::Running
    }

    #[verifier::rlimit(30)]
    fn quadrant0(&mut self, raw: u16) -> (r: StopReason)
        requires
            old(self).valid(),
        ensures
            final(self).valid(),
            (final(self)@, r) == quadrant0_spec::<B>(old(self)@, raw, TRACE as nat),
            final(self)@.cycles == old(self)@.cycles,
    {
        let funct3 = bits16(raw, 13, 7);
        let next_pc = add_words(self.pc, 2);
        let rs1 = compressed_register(bits16(raw, 7, 7));
        let offset = compressed_load_store_offset(raw);
        let address = add_words(self.read_register(rs1), offset);
        if funct3 == 0 {
            let imm = compressed_addi4spn_offset(raw);
            if imm == 0 {
                return Self::unknown_compressed(raw);
            }
            let rd = compressed_register(bits16(raw, 2, 7));
            let value = add_words(self.read_register(Register::stack_pointer()), imm);
            self.write_register(rd, value);
            self.pc = next_pc;
            StopReason::Running
        } else if funct3 == 2 {
            let rd = compressed_register(bits16(raw, 2, 7));
            let value = match self.bus.read32_mut(address) {
                Ok(value) => value,
                Err(fault) => return StopReason::BusFault(fault),
            };
            self.write_register(rd, value);
            self.pc = next_pc;
            StopReason::Running
        } else if funct3 == 6 {
            let rs2 = compressed_register(bits16(raw, 2, 7));
            let value = self.read_register(rs2);
            self.store_word(address, value)
        } else {
            Self::unknown_compressed(raw)
        }
    }

    #[verifier::rlimit(60)]
    fn quadrant1(&mut self, raw: u16) -> (r: StopReason)
        requires
            old(self).valid(),
        ensures
            final(self).valid(),
            (final(self)@, r) == quadrant1_spec::<B>(old(self)@, raw),
            final(self)@.cycles == old(self)@.cycles,
    {
        let funct3 = bits16(raw, 13, 7);
        let pc = self.pc;
        let next_pc = add_words(pc, 2);
        let imm = compressed_imm6(raw);
        if funct3 == 0 || funct3 == 2 || funct3 == 3 {
            let rd = match raw_register(bits16(raw, 7, 0x1f)) {
                Ok(r) => r,
                Err(e) => return StopReason::DecodeFault(e),
            };
            if funct3 == 0 {
                let value = add_offset(self.read_register(rd), imm);
                self.write_register(rd, value);
            } else if funct3 == 2 {
                proof {
                    crate::fields::lemma_i32_as_u32(imm);
                }
                self.write_register(rd, imm as u32);
            } else if rd.index() == 2 {
                let value = add_offset(self.read_register(rd), compressed_addi16sp_offset(raw));
                self.write_register(rd, value);
            } else {
                let word = imm as u32;
                let value = word << 12;
                proof {
                    crate::fields::lemma_i32_as_u32(imm);
                    assert(value == wrap32(imm as int * 0x1000)) by {
                        assert(value == (word as int * 0x1000) % 0x1_0000_0000) by (bit_vector)
                            requires
                                value == word << 12,
                        ;
                        vstd::arithmetic::div_mod::lemma_mul_mod_noop_left(
                            imm as int,
                            0x1000,
                            0x1_0000_0000,
                        );
                    }
                }
                self.write_register(rd, value);
            }
            self.pc = next_pc;
        } else if funct3 == 1 {
            self.write_register(Register::return_address(), next_pc);
            self.pc = add_offset(pc, compressed_jump_offset(raw));
        } else if funct3 == 4 {
            let op2 = bits16(raw, 10, 3);
            let rd = compressed_register(bits16(raw, 7, 7));
            if op2 == 0 || op2 == 1 {
                let shamt = compressed_shamt(raw);
                if shamt >= 32 {
                    return Self::unknown_compressed(raw);
                }
                let shift = shamt as u32;
                let value = if op2 == 0 {
                    self.read_register(rd) >> shift
                } else {
                    ((self.read_register(rd) as i32) >> shift) as u32
                };
                self.write_register(rd, value);
            } else if op2 == 2 {
                proof {
                    crate::fields::lemma_i32_as_u32(imm);
                }
                let value = self.read_register(rd) & imm as u32;
                self.write_register(rd, value);
            } else {
                let rs2 = compressed_register(bits16(raw, 2, 7));
                let high = bits16(raw, 12, 1);
                let sel = bits16(raw, 5, 3);
                let lhs = self.read_register(rd);
                let rhs = self.read_register(rs2);
                let value = if high == 0 && sel == 0 {
                    lhs.wrapping_sub(rhs)
                } else if high == 0 && sel == 1 {
                    lhs ^ rhs
                } else if high == 0 && sel == 2 {
                    lhs | rhs
                } else if high == 0 && sel == 3 {
                    lhs & rhs
                } else {
                    return Self::unknown_compressed(raw);
                };
                self.write_register(rd, value);
            }
            self.pc = next_pc;
        } else if funct3 == 5 {
            self.pc = add_offset(pc, compressed_jump_offset(raw));
        } else {
            let rs1 = compressed_register(bits16(raw, 7, 7));
            let value = self.read_register(rs1);
            let taken = if funct3 == 6 {
                value == 0
            } else {
                value != 0
            };
            self.pc = if taken {
                add_offset(pc, compressed_branch_offset(raw))
            } else {
                next_pc
            };
        }
        StopReason::Running
    }

    fn register_pair(&mut self, raw: u16, rd: Register, rs2: Register) -> (r: StopReason)
        requires
            old(self).valid(),
        ensures
            final(self).valid(),
            (final(self)@, r) == register_pair_spec::<B>(old(self)@, raw, rd, rs2),
            final(self)@.cycles == old(self)@.cycles,
    {
        let next_pc = add_words(self.pc, 2);
        if bits16(raw, 12, 1) == 0 {
            if rs2.index() == 0 {
                if rd.index() == 0 {
                    return Self::unknown_compressed(raw);
                }
                self.pc = self.read_register(rd) & !1u32;
            } else {
                let value = self.read_register(rs2);
                self.write_register(rd, value);
                self.pc = next_pc;
            }
        } else if rs2.index() == 0 {
            if rd.index() == 0 {
                return StopReason::Ebreak;
            }
            self.write_register(Register::return_address(), next_pc);
            self.pc = self.read_register(rd) & !1u32;
        } else {
            let value = add_words(self.read_register(rd), self.read_register(rs2));
            self.write_register(rd, value);
            self.pc = next_pc;
        }
        StopReason::Running
    }

    #[verifier::rlimit(60)]
    fn quadrant2(&mut self, raw: u16) -> (r: StopReason)
        requires
            old(self).valid(),
        ensures
            final(self).valid(),
            (final(self)@, r) == quadrant2_spec::<B>(old(self)@, raw, TRACE as nat),
            final(self)@.cycles == old(self)@.cycles,
    {
        let funct3 = bits16(raw, 13, 7);
        let next_pc = add_words(self.pc, 2);
        let sp = Register::stack_pointer();
        if funct3 == 0 {
            let rd = match raw_register(bits16(raw, 7, 0x1f)) {
                Ok(r) => r,
                Err(e) => return StopReason::DecodeFault(e),
            };
            let shamt = compressed_shamt(raw);
            if shamt >= 32 {
                return Self::unknown_compressed(raw);
            }
            let value = self.read_register(rd) << (shamt as u32);
            self.write_register(rd, value);
            self.pc = next_pc;
            StopReason::Running
        } else if funct3 == 2 {
            let rd = match raw_register(bits16(raw, 7, 0x1f)) {
                Ok(r) => r,
                Err(e) => return StopReason::DecodeFault(e),
            };
            let address = add_words(self.read_register(sp), compressed_lwsp_offset(raw));
            let value = match self.bus.read32_mut(address) {
                Ok(value) => value,
                Err(fault) => return StopReason::BusFault(fault),
            };
            self.write_register(rd, value);
            self.pc = next_pc;
            StopReason::Running
        } else if funct3 == 4 {
            let rd = match raw_register(bits16(raw, 7, 0x1f)) {
                Ok(r) => r,
                Err(e) => return StopReason::DecodeFault(e),
            };
            let rs2 = match raw_register(bits16(raw, 2, 0x1f)) {
                Ok(r) => r,
                Err(e) => return StopReason::DecodeFault(e),
            };
            self.register_pair(raw, rd, rs2)
        } else if funct3 == 6 {
            let rs2 = match raw_register(bits16(raw, 2, 0x1f)) {
                Ok(r) => r,
                Err(e) => return StopReason::DecodeFault(e),
            };
            let address = add_words(self.read_register(sp), compressed_swsp_offset(raw));
            let value = self.read_register(rs2);
            self.store_word(address, value)
        } else {
            Self::unknown_compressed(raw)
        }
    }

    /// Executes a compressed instruction (the cycle is already counted).
    fn step_compressed(&mut self, raw: u16) -> (r: StopReason)
        requires
            old(self).valid(),
        ensures
            final(self).valid(),
            (final(self)@, r) == compressed_spec::<B>(old(self)@, raw, TRACE as nat),
            final(self)@.cycles == old(self)@.cycles,
    {
        reveal(compressed_spec);
        let quadrant = raw % 4;
        if quadrant == 0 {
            self.quadrant0(raw)
        } else if quadrant == 1 {
            self.quadrant1(raw)
        } else if quadrant == 2 {
            self.quadrant2(raw)
        } else {
            Self::unknown_compressed(raw)
        }
    }
}


/// The MRET instruction word: return from the machine-mode trap handler to `mepc`.
pub const MRET: u32 = 0x3020_0073;

/// Executes one 32-bit instruction word in state `m` (cycle already counted): MRET, CSRRW on
/// the kept CSRs, otherwise the decoded instruction.
#[verifier::opaque]
pub open spec fn word_spec<B: Bus>(m: MachineState<B::V>, raw: u32, trace: nat) -> (
    MachineState<B::V>,
    StopReason,
) {
    if raw == MRET {
        (m.at_pc(m.mepc), StopReason::Running)
    } else if field(raw, 0, 0x7f) == 0x73 && field(raw, 12, 7) == 1 {
        let csr = field(raw, 20, 0xfff) as u32;
        match (register_at(raw, 7), register_at(raw, 15)) {
            (Err(e), _) => (m, StopReason::DecodeFault(e)),
            (Ok(_), Err(e)) => (m, StopReason::DecodeFault(e)),
            (Ok(rd), Ok(rs1)) => (
                m.set_csr(csr, m.reg(rs1)).set_reg(rd, m.csr(csr)).at_pc(add32(m.pc, 4)),
                StopReason::Running,
            ),
        }
    } else {
        match decode_spec(raw) {
            Err(e) => (m, StopReason::DecodeFault(e)),
            Ok(inst) => execute_spec::<B>(m, inst, trace),
        }
    }
}

/// Fetches the instruction word at `address`: odd addresses are refused, otherwise four byte
/// reads assemble a little-endian word.
pub open spec fn fetch_spec<B: Bus>(bus: B::V, address: u32) -> (B::V, Result<u32, BusFault>) {
    if address % 2 != 0 {
        (bus, Err(BusFault::Unaligned { address }))
    } else {
        read_bytes32_spec(|s: B::V, a: u32| B::read8_spec(s, a), bus, address)
    }
}

/// One step of the machine: fetch the half-word at `pc`; if its low two bits are not both
/// set it is a compressed instruction, otherwise fetch the whole word. A fetch fault stops the
/// machine without counting a cycle; otherwise one cycle is counted and the instruction runs.
pub open spec fn step_spec<B: Bus>(m: MachineState<B::V>, trace: nat) -> (
    MachineState<B::V>,
    StopReason,
) {
    let (bus1, low) = B::read16_spec(m.bus, m.pc);
    match low {
        Err(f) => (m.on_bus(bus1), StopReason::BusFault(f)),
        Ok(low) => if low % 4 != 3 {
            compressed_spec::<B>(m.on_bus(bus1).tick(), low, trace)
        } else {
            let (bus2, word) = fetch_spec::<B>(bus1, m.pc);
            match word {
                Err(f) => (m.on_bus(bus2), StopReason::BusFault(f)),
                Ok(raw) => word_spec::<B>(m.on_bus(bus2).tick(), raw, trace),
            }
        },
    }
}

impl<B: Bus, const TRACE: usize> Machine<B, TRACE> {
    fn read_csr(&self, csr: u32) -> (v: u32)
        ensures
            v == self@.csr(csr),
    {
        match csr {
            0x300 => self.mstatus,
            0x305 => self.mtvec,
            0x341 => self.mepc,
            _ => 0,
        }
    }

    fn write_csr(&mut self, csr: u32, value: u32)
        requires
            old(self).valid(),
        ensures
            final(self).valid(),
            final(self)@ == old(self)@.set_csr(csr, value),
    {
        match csr {
            0x300 => self.mstatus = value,
            0x305 => self.mtvec = value,
            0x341 => self.mepc = value,
            _ => {},
        }
    }

    fn fetch_word(&mut self, address: u32) -> (r: Result<u32, BusFault>)
        requires
            old(self).valid(),
        ensures
            final(self).valid(),
            (final(self)@.bus, r) == fetch_spec::<B>(old(self)@.bus, address),
            final(self)@ == old(self)@.on_bus(final(self)@.bus),
    {
        if address % 2 != 0 {
            return Err(BusFault::Unaligned { address });
        }
        read_bytes32(&mut self.bus, address)
    }

    /// Executes a 32-bit instruction word (the cycle is already counted).
    fn step_word(&mut self, raw: u32) -> (r: StopReason)
        requires
            old(self).valid(),
        ensures
            final(self).valid(),
            (final(self)@, r) == word_spec::<B>(old(self)@, raw, TRACE as nat),
            final(self)@.cycles == old(self)@.cycles,
    {
        reveal(word_spec);
        let next_pc = add_words(self.pc, 4);
        if raw == MRET {
            self.pc = self.mepc;
            return StopReason::Running;
        }
        let opcode = bits32(raw, 0, 0x7f);
        let funct3 = bits32(raw, 12, 0x07);
        if opcode == 0x73 && funct3 == 1 {
            let csr = bits32(raw, 20, 0xfff);
            let rd = match Register::new(bits32(raw, 7, 0x1f) as u8) {
                Ok(register) => register,
                Err(error) => return StopReason::DecodeFault(DecodeError::Register(error)),
            };
            let rs1 = match Register::new(bits32(raw, 15, 0x1f) as u8) {
                Ok(register) => register,
                Err(error) => return StopReason::DecodeFault(DecodeError::Register(error)),
            };
            let old = self.read_csr(csr);
            let value = self.read_register(rs1);
            self.write_csr(csr, value);
            self.write_register(rd, old);
            self.pc = next_pc;
            return StopReason::Running;
        }
        let instruction = match decode(raw) {
            Ok(instruction) => instruction,
            Err(fault) => return StopReason::DecodeFault(fault),
        };
        self.execute(instruction)
    }

    /// Executes one instruction.
    pub fn step(&mut self) -> (r: StopReason)
        requires
            old(self).valid(),
        ensures
            final(self).valid(),
            (final(self)@, r) == step_spec::<B>(old(self)@, TRACE as nat),
            r == StopReason::Running ==> final(self)@.cycles == old(self)@.tick().cycles,
    {
        let pc = self.pc;
        let low = match self.bus.read16(pc) {
            Ok(raw) => raw,
            Err(fault) => return StopReason::BusFault(fault),
        };
        if low % 4 != 3 {
            self.cycles = self.cycles.wrapping_add(1);
            return self.step_compressed(low);
        }
        let raw = match self.fetch_word(pc) {
            Ok(raw) => raw,
            Err(fault) => return StopReason::BusFault(fault),
        };
        self.cycles = self.cycles.wrapping_add(1);
        self.step_word(raw)
    }
}


/// The state of a freshly built machine on a bus in state `bus`: all registers, the pc, the
/// CSRs and the cycle counter are zero and nothing is recorded.
pub open spec fn initial_state<S>(bus: S) -> MachineState<S> {
    MachineState {
        bus,
        regs: Seq::new(16, |i: int| 0u32),
        pc: 0,
        mepc: 0,
        mstatus: 0,
        mtvec: 0,
        cycles: 0,
        events: Seq::empty(),
    }
}

/// A compressed instruction leaves the cycle counter alone and never reports the budget.
pub proof fn lemma_compressed_keeps_cycles<B: Bus>(m: MachineState<B::V>, raw: u16, trace: nat)
    ensures
        compressed_spec::<B>(m, raw, trace).0.cycles == m.cycles,
        compressed_spec::<B>(m, raw, trace).1 != StopReason::MaxCycles,
{
    reveal(compressed_spec);
}

/// A 32-bit instruction leaves the cycle counter alone and never reports the budget.
pub proof fn lemma_word_keeps_cycles<B: Bus>(m: MachineState<B::V>, raw: u32, trace: nat)
    ensures
        word_spec::<B>(m, raw, trace).0.cycles == m.cycles,
        word_spec::<B>(m, raw, trace).1 != StopReason::MaxCycles,
{
    reveal(word_spec);
}

/// Every step that lets the machine go on counts exactly one cycle.
pub proof fn lemma_step_counts_cycle<B: Bus>(m: MachineState<B::V>, trace: nat)
    ensures
        step_spec::<B>(m, trace).1 == StopReason::Running ==> step_spec::<B>(m, trace).0.cycles
            == m.tick().cycles,
{
    let (bus1, low) = B::read16_spec(m.bus, m.pc);
    if let Ok(low) = low {
        lemma_compressed_keeps_cycles::<B>(m.on_bus(bus1).tick(), low, trace);
        let (bus2, word) = fetch_spec::<B>(bus1, m.pc);
        if let Ok(raw) = word {
            lemma_word_keeps_cycles::<B>(m.on_bus(bus2).tick(), raw, trace);
        }
    }
}

/// Running until a step stops the machine or the cycle counter reaches `max_cycles`.
pub open spec fn run_spec<B: Bus>(m: MachineState<B::V>, max_cycles: u64, trace: nat) -> (
    MachineState<B::V>,
    StopReason,
)
    decreases max_cycles - m.cycles,
{
    if m.cycles >= max_cycles {
        (m, StopReason::MaxCycles)
    } else {
        let (m1, r) = step_spec::<B>(m, trace);
        if r != StopReason::Running {
            (m1, r)
        } else {
            proof {
                lemma_step_counts_cycle::<B>(m, trace);
            }
            run_spec::<B>(m1, max_cycles, trace)
        }
    }
}

impl<B: Bus, const TRACE: usize> Machine<B, TRACE> {
    /// A machine on `bus` with every register, the pc, the CSRs and the cycle count at zero.
    pub fn new(bus: B) -> (m: Self)
        requires
            B::valid(bus@),
        ensures
            m.valid(),
            m@ == initial_state(bus@),
    {
        let mut registers: Vec<u32> = Vec::new();
        while registers.len() < 16
            invariant
                registers.len() <= 16,
                forall|i: int| 0 <= i < registers.len() ==> registers@[i] == 0,
            decreases 16 - registers.len(),
        {
            registers.push(0);
        }
        let m = Machine {
            bus,
            registers,
            pc: 0,
            mepc: 0,
            mstatus: 0,
            mtvec: 0,
            cycles: 0,
            events: Vec::new(),
        };
        assert(m@.regs =~= Seq::new(16, |i: int| 0u32));
        assert(m@.events =~= Seq::empty());
        m
    }

    /// The program counter.
    pub fn pc(&self) -> (pc: u32)
        ensures
            pc == self@.pc,
    {
        self.pc
    }

    /// The number of cycles counted so far.
    pub fn cycles(&self) -> (c: u64)
        ensures
            c == self@.cycles,
    {
        self.cycles
    }

    /// The bus.
    pub fn bus(&self) -> (b: &B)
        ensures
            b@ == self@.bus,
    {
        &self.bus
    }

    /// The bus, for changing it in place.
    pub fn bus_mut(&mut self) -> (b: &mut B)
        ensures
            b@ == old(self)@.bus,
            final(self)@ == old(self)@.on_bus(final(b)@),
    {
        &mut self.bus
    }

    /// The recorded events, oldest first.
    pub fn events(&self) -> (events: Vec<Event>)
        ensures
            events@ == self@.events,
    {
        let mut out: Vec<Event> = Vec::new();
        let mut i: usize = 0;
        while i < self.events.len()
            invariant
                i <= self.events.len(),
                out@ == self.events@.subrange(0, i as int),
            decreases self.events.len() - i,
        {
            out.push(self.events[i]);
            i = i + 1;
            assert(out@ =~= self.events@.subrange(0, i as int));
        }
        assert(self.events@.subrange(0, i as int) =~= self.events@);
        out
    }

    /// How many events the trace holds.
    pub fn event_count(&self) -> (n: usize)
        ensures
            n == self@.events.len(),
    {
        self.events.len()
    }

    /// The newest event of the trace, if any.
    pub fn last_event(&self) -> (e: Option<Event>)
        ensures
            self@.events.len() == 0 ==> e == None::<Event>,
            self@.events.len() > 0 ==> e == Some(self@.events.last()),
    {
        if self.events.len() == 0 {
            None
        } else {
            Some(self.events[self.events.len() - 1])
        }
    }

    /// The value of a register.
    pub fn register(&self, register: Register) -> (v: u32)
        requires
            self.valid(),
        ensures
            v == self@.reg(register),
    {
        self.read_register(register)
    }

    /// Sets a register; writes to `x0` are discarded.
    pub fn set_register(&mut self, register: Register, value: u32)
        requires
            old(self).valid(),
        ensures
            final(self).valid(),
            final(self)@ == old(self)@.set_reg(register, value),
    {
        self.write_register(register, value)
    }

    /// Steps until a step stops the machine or the cycle count reaches `limit.max_cycles`.
    pub fn run(&mut self, limit: RunLimit) -> (r: StopReason)
        requires
            old(self).valid(),
        ensures
            final(self).valid(),
            (final(self)@, r) == run_spec::<B>(old(self)@, limit.max_cycles, TRACE as nat),
    {
        let ghost start = self@;
        assert(start == old(self)@);
        while self.cycles < limit.max_cycles
            invariant
                start == old(self)@,
                self.valid(),
                run_spec::<B>(self@, limit.max_cycles, TRACE as nat) == run_spec::<B>(
                    start,
                    limit.max_cycles,
                    TRACE as nat,
                ),
            decreases limit.max_cycles - self.cycles,
        {
            let ghost before = self@;
            let reason = self.step();
            if let StopReason::Running = reason {
                assert(self@.cycles == before.cycles + 1);
            } else {
                assert(step_spec::<B>(before, TRACE as nat) == (self@, reason));
                assert(run_spec::<B>(before, limit.max_cycles, TRACE as nat) == (self@, reason));
                return reason;
            }
        }
        StopReason::MaxCycles
    }
}


/// The registers an instruction names are RV32E registers.
pub open spec fn names_rv32e_registers(inst: Instruction) -> bool {
    match inst {
        Instruction::Lui { rd, .. } => rd@ < 16,
        Instruction::Auipc { rd, .. } => rd@ < 16,
        Instruction::Jal { rd, .. } => rd@ < 16,
        Instruction::Jalr { rd, rs1, .. } => rd@ < 16 && rs1@ < 16,
        Instruction::Branch { rs1, rs2, .. } => rs1@ < 16 && rs2@ < 16,
        Instruction::Load { rd, rs1, .. } => rd@ < 16 && rs1@ < 16,
        Instruction::Store { rs1, rs2, .. } => rs1@ < 16 && rs2@ < 16,
        Instruction::OpImm { rd, rs1, .. } => rd@ < 16 && rs1@ < 16,
        Instruction::Op { rd, rs1, rs2, .. } => rd@ < 16 && rs1@ < 16 && rs2@ < 16,
        _ => true,
    }
}

/// What every instruction keeps: sixteen registers with `x0` zero, and a trace that only
/// grows, by at most one event, and never past `trace` events.
pub open spec fn keeps_machine_shape<S>(before: MachineState<S>, after: MachineState<S>, trace: nat) -> bool {
    &&& after.regs.len() == 16
    &&& after.regs[0] == 0
    &&& after.events.len() <= trace
    &&& before.events.len() <= after.events.len() <= before.events.len() + 1
    &&& after.events.subrange(0, before.events.len() as int) == before.events
}

/// Any event that `after` holds beyond those of `before` is stamped with `cycle`.
pub open spec fn new_event_stamped<S>(before: MachineState<S>, after: MachineState<S>, cycle: u64) -> bool {
    after.events.len() > before.events.len() ==> after.events.last().cycle == cycle
}

/// The shape a machine state has between steps.
pub open spec fn machine_shape<S>(m: MachineState<S>, trace: nat) -> bool {
    &&& m.regs.len() == 16
    &&& m.regs[0] == 0
    &&& m.events.len() <= trace
}

proof fn lemma_set_reg_shape<S>(m: MachineState<S>, r: Register, v: u32, trace: nat)
    requires
        machine_shape(m, trace),
        r@ < 16,
    ensures
        keeps_machine_shape(m, m.set_reg(r, v), trace),
        m.set_reg(r, v).events == m.events,
        new_event_stamped(m, m.set_reg(r, v), m.cycles),
{
    assert(m.events.subrange(0, m.events.len() as int) =~= m.events);
}

proof fn lemma_record_shape<S>(m: MachineState<S>, e: Event, trace: nat)
    requires
        machine_shape(m, trace),
    ensures
        keeps_machine_shape(m, m.record(e, trace), trace),
        new_event_stamped(m, m.record(e, trace), e.cycle),
{
    assert(m.events.push(e).subrange(0, m.events.len() as int) =~= m.events);
    assert(m.events.subrange(0, m.events.len() as int) =~= m.events);
}

/// A decoded instruction only names RV32E registers.
pub proof fn lemma_decoded_registers(raw: u32)
    ensures
        decode_spec(raw) matches Ok(inst) ==> names_rv32e_registers(inst),
{
}

proof fn lemma_execute_shape<B: Bus>(m: MachineState<B::V>, inst: Instruction, trace: nat)
    requires
        machine_shape(m, trace),
        names_rv32e_registers(inst),
    ensures
        keeps_machine_shape(m, execute_spec::<B>(m, inst, trace).0, trace),
        new_event_stamped(m, execute_spec::<B>(m, inst, trace).0, m.cycles),
{
    assert(m.events.subrange(0, m.events.len() as int) =~= m.events);
    match inst {
        Instruction::Lui { rd, imm } => lemma_set_reg_shape(m, rd, imm, trace),
        Instruction::Auipc { rd, imm } => lemma_set_reg_shape(m, rd, add32(m.pc, imm), trace),
        Instruction::Jal { rd, .. } => lemma_set_reg_shape(m, rd, add32(m.pc, 4), trace),
        Instruction::Jalr { rd, .. } => lemma_set_reg_shape(m, rd, add32(m.pc, 4), trace),
        Instruction::Load { width, signed, rd, rs1, offset } => {
            let (bus, r) = load_value_spec::<B>(m.bus, wrap32(m.reg(rs1) + offset), width, signed);
            if let Ok(v) = r {
                lemma_set_reg_shape(m.on_bus(bus), rd, v, trace);
            }
        },
        Instruction::Store { rs1, rs2, offset, .. } => {
            let address = wrap32(m.reg(rs1) + offset);
            let value = m.reg(rs2);
            lemma_record_shape(
                m,
                Event { cycle: m.cycles, kind: EventKind::GpioWrite, address, value },
                trace,
            );
        },
        Instruction::OpImm { kind, rd, rs1, imm } => lemma_set_reg_shape(
            m,
            rd,
            op_imm_spec(kind, m.reg(rs1), imm),
            trace,
        ),
        Instruction::Op { kind, rd, rs1, rs2 } => lemma_set_reg_shape(
            m,
            rd,
            op_spec(kind, m.reg(rs1), m.reg(rs2)),
            trace,
        ),
        _ => {},
    }
}

proof fn lemma_word_shape<B: Bus>(m: MachineState<B::V>, raw: u32, trace: nat)
    requires
        machine_shape(m, trace),
    ensures
        keeps_machine_shape(m, word_spec::<B>(m, raw, trace).0, trace),
        new_event_stamped(m, word_spec::<B>(m, raw, trace).0, m.cycles),
{
    reveal(word_spec);
    assert(m.events.subrange(0, m.events.len() as int) =~= m.events);
    if raw == MRET {
    } else if field(raw, 0, 0x7f) == 0x73 && field(raw, 12, 7) == 1 {
        let csr = field(raw, 20, 0xfff) as u32;
        if let (Ok(rd), Ok(rs1)) = (register_at(raw, 7), register_at(raw, 15)) {
            lemma_set_reg_shape(m.set_csr(csr, m.reg(rs1)), rd, m.csr(csr), trace);
        }
    } else {
        lemma_decoded_registers(raw);
        if let Ok(inst) = decode_spec(raw) {
            lemma_execute_shape::<B>(m, inst, trace);
        }
    }
}

proof fn lemma_compressed_shape<B: Bus>(m: MachineState<B::V>, raw: u16, trace: nat)
    requires
        machine_shape(m, trace),
    ensures
        keeps_machine_shape(m, compressed_spec::<B>(m, raw, trace).0, trace),
        new_event_stamped(m, compressed_spec::<B>(m, raw, trace).0, m.cycles),
{
    reveal(compressed_spec);
    assert(m.events.subrange(0, m.events.len() as int) =~= m.events);
    let r = compressed_spec::<B>(m, raw, trace).0;
    assert(forall|f: int| #[trigger] full_register_spec(f) is Ok ==> full_register_spec(f)->Ok_0@ < 16);
    assert(forall|f: int| 0 <= f < 8 ==> #[trigger] short_register_spec(f)@ < 16);
    crate::compressed::lemma_cfield_bounds(raw);
    let quadrant = raw % 4;
    if quadrant == 0 {
        let rs1 = short_register_spec(cfield(raw, 7, 7));
        let address = add32(m.reg(rs1), load_store_offset_spec(raw) as u32);
        let value = m.reg(short_register_spec(cfield(raw, 2, 7)));
        lemma_record_shape(
            m,
            Event { cycle: m.cycles, kind: EventKind::GpioWrite, address, value },
            trace,
        );
        let (bus, rr) = B::read32_mut_spec(m.bus, address);
        if let Ok(v) = rr {
            lemma_set_reg_shape(m.on_bus(bus), short_register_spec(cfield(raw, 2, 7)), v, trace);
        }
    } else if quadrant == 2 && cfield(raw, 13, 7) == 4 && cfield(raw, 12, 1) != 0 {
        let m1 = m.set_reg(Register::numbered(1), add32(m.pc, 2));
        lemma_set_reg_shape(m, Register::numbered(1), add32(m.pc, 2), trace);
    } else if quadrant == 2 && cfield(raw, 13, 7) == 2 {
        let sp = Register::numbered(2);
        let address = add32(m.reg(sp), lwsp_offset_spec(raw) as u32);
        let (bus, rr) = B::read32_mut_spec(m.bus, address);
        if let (Ok(v), Ok(rd)) = (rr, full_register_spec(cfield(raw, 7, 0x1f))) {
            lemma_set_reg_shape(m.on_bus(bus), rd, v, trace);
        }
    } else if quadrant == 2 && cfield(raw, 13, 7) == 6 {
        if let Ok(rs2) = full_register_spec(cfield(raw, 2, 0x1f)) {
            let address = add32(m.reg(Register::numbered(2)), swsp_offset_spec(raw) as u32);
            lemma_record_shape(
                m,
                Event { cycle: m.cycles, kind: EventKind::GpioWrite, address, value: m.reg(rs2) },
                trace,
            );
        }
    }
    assert(keeps_machine_shape(m, r, trace));
    assert(new_event_stamped(m, r, m.cycles));
}

/// Every step keeps `x0` at zero and the register file at sixteen registers, and only ever
/// appends to the event trace, at most one event per step and never past `trace` events.
pub proof fn law_step_keeps_machine_shape<B: Bus>(m: MachineState<B::V>, trace: nat)
    requires
        machine_shape(m, trace),
    ensures
        keeps_machine_shape(m, step_spec::<B>(m, trace).0, trace),
{
    assert(m.events.subrange(0, m.events.len() as int) =~= m.events);
    let (bus1, low) = B::read16_spec(m.bus, m.pc);
    if let Ok(low) = low {
        if low % 4 != 3 {
            lemma_compressed_shape::<B>(m.on_bus(bus1).tick(), low, trace);
        } else {
            let (bus2, word) = fetch_spec::<B>(bus1, m.pc);
            if let Ok(raw) = word {
                lemma_word_shape::<B>(m.on_bus(bus2).tick(), raw, trace);
            }
        }
    }
}

/// Event stamps are in order: no recorded event is stamped later than the one after it, nor
/// later than the machine's cycle count.
pub open spec fn stamps_ordered<S>(m: MachineState<S>) -> bool {
    &&& forall|i: int, j: int|
        0 <= i < j < m.events.len() ==> #[trigger] m.events[i].cycle <= #[trigger] m.events[j].cycle
    &&& forall|i: int| 0 <= i < m.events.len() ==> #[trigger] m.events[i].cycle <= m.cycles
}

/// A step keeps the event stamps in order (while the cycle count does not wrap): an event it
/// records is stamped with the cycle count the step ends at.
pub proof fn law_step_keeps_stamps_ordered<B: Bus>(m: MachineState<B::V>, trace: nat)
    requires
        machine_shape(m, trace),
        stamps_ordered(m),
        m.cycles < u64::MAX,
    ensures
        stamps_ordered(step_spec::<B>(m, trace).0),
        step_spec::<B>(m, trace).0.events.len() > m.events.len() ==> step_spec::<B>(
            m,
            trace,
        ).0.events.last().cycle == step_spec::<B>(m, trace).0.cycles,
{
    law_step_keeps_machine_shape::<B>(m, trace);
    lemma_step_stop_cycles::<B>(m, trace);
    let m2 = step_spec::<B>(m, trace).0;
    let (bus1, low) = B::read16_spec(m.bus, m.pc);
    if let Ok(low) = low {
        if low % 4 != 3 {
            lemma_compressed_shape::<B>(m.on_bus(bus1).tick(), low, trace);
            lemma_compressed_keeps_cycles::<B>(m.on_bus(bus1).tick(), low, trace);
        } else {
            let (bus2, word) = fetch_spec::<B>(bus1, m.pc);
            if let Ok(raw) = word {
                lemma_word_shape::<B>(m.on_bus(bus2).tick(), raw, trace);
                lemma_word_keeps_cycles::<B>(m.on_bus(bus2).tick(), raw, trace);
            }
        }
    }
    let n = m.events.len() as int;
    assert forall|i: int| 0 <= i < n implies m2.events[i] == m.events[i] by {
        assert(m2.events.subrange(0, n)[i] == m2.events[i]);
    }
    if m2.events.len() > n {
        assert(m2.events.last().cycle == m.cycles + 1);
        assert(m2.cycles == m.cycles + 1);
    }
}

/// A run keeps the event stamps in order, so the trace of a run that starts with none comes out
/// sorted by cycle.
pub proof fn law_run_keeps_stamps_ordered<B: Bus>(m: MachineState<B::V>, max_cycles: u64, trace: nat)
    requires
        machine_shape(m, trace),
        stamps_ordered(m),
    ensures
        stamps_ordered(run_spec::<B>(m, max_cycles, trace).0),
    decreases max_cycles - m.cycles,
{
    if m.cycles < max_cycles {
        let (m1, r) = step_spec::<B>(m, trace);
        law_step_keeps_stamps_ordered::<B>(m, trace);
        law_step_keeps_machine_shape::<B>(m, trace);
        lemma_step_counts_cycle::<B>(m, trace);
        if r == StopReason::Running {
            law_run_keeps_stamps_ordered::<B>(m1, max_cycles, trace);
        }
    }
}

/// Writing a register and reading it back gives the value, except for `x0`, which stays zero;
/// other registers are untouched.
pub proof fn law_register_write_read<S>(m: MachineState<S>, r: Register, other: Register, v: u32)
    requires
        m.regs.len() == 16,
        m.regs[0] == 0,
        r@ < 16,
        other@ < 16,
    ensures
        m.set_reg(r, v).reg(r) == if r@ == 0 {
            0
        } else {
            v
        },
        other@ != r@ ==> m.set_reg(r, v).reg(other) == m.reg(other),
{
}

/// `run` stops inside its budget: started at or below `max_cycles`, it never counts past it,
/// it reports `MaxCycles` exactly when it used the whole budget without stopping earlier, and
/// it never reports `Running`.
pub proof fn law_run_respects_budget<B: Bus>(m: MachineState<B::V>, max_cycles: u64, trace: nat)
    requires
        m.cycles <= max_cycles,
    ensures
        run_spec::<B>(m, max_cycles, trace).0.cycles <= max_cycles,
        run_spec::<B>(m, max_cycles, trace).1 == StopReason::MaxCycles ==> run_spec::<B>(
            m,
            max_cycles,
            trace,
        ).0.cycles == max_cycles,
        run_spec::<B>(m, max_cycles, trace).1 != StopReason::Running,
    decreases max_cycles - m.cycles,
{
    if m.cycles < max_cycles {
        let (m1, r) = step_spec::<B>(m, trace);
        lemma_step_counts_cycle::<B>(m, trace);
        if r == StopReason::Running {
            law_run_respects_budget::<B>(m1, max_cycles, trace);
        } else {
            lemma_step_stop_cycles::<B>(m, trace);
        }
    }
}

/// A step counts at most one cycle and never reports the budget.
pub proof fn lemma_step_stop_cycles<B: Bus>(m: MachineState<B::V>, trace: nat)
    ensures
        step_spec::<B>(m, trace).0.cycles == m.cycles || step_spec::<B>(m, trace).0.cycles
            == m.tick().cycles,
        step_spec::<B>(m, trace).1 != StopReason::MaxCycles,
{
    let (bus1, low) = B::read16_spec(m.bus, m.pc);
    if let Ok(low) = low {
        lemma_compressed_keeps_cycles::<B>(m.on_bus(bus1).tick(), low, trace);
        let (bus2, word) = fetch_spec::<B>(bus1, m.pc);
        if let Ok(raw) = word {
            lemma_word_keeps_cycles::<B>(m.on_bus(bus2).tick(), raw, trace);
        }
    }
}

/// The word store a compressed instruction makes in state `m`, as (address, value): C.SW, and
/// C.SWSP when its source field names an RV32E register.
pub open spec fn compressed_store<S>(m: MachineState<S>, raw: u16) -> Option<(u32, u32)> {
    if raw % 4 == 0 && cfield(raw, 13, 7) == 6 {
        Some(
            (
                add32(m.reg(short_register_spec(cfield(raw, 7, 7))), load_store_offset_spec(raw) as u32),
                m.reg(short_register_spec(cfield(raw, 2, 7))),
            ),
        )
    } else if raw % 4 == 2 && cfield(raw, 13, 7) == 6 {
        match full_register_spec(cfield(raw, 2, 0x1f)) {
            Ok(rs2) => Some(
                (add32(m.reg(Register::numbered(2)), swsp_offset_spec(raw) as u32), m.reg(rs2)),
            ),
            Err(_) => None,
        }
    } else {
        None
    }
}

/// The store a 32-bit instruction word makes in state `m`, as (address, whole source register).
pub open spec fn word_store<S>(m: MachineState<S>, raw: u32) -> Option<(u32, u32)> {
    match decode_spec(raw) {
        Ok(Instruction::Store { rs1, rs2, offset, .. }) => Some(
            (wrap32(m.reg(rs1) + offset), m.reg(rs2)),
        ),
        _ => None,
    }
}

/// The store the next step of `m` makes, if its instruction can be fetched and is a store.
pub open spec fn step_store<B: Bus>(m: MachineState<B::V>) -> Option<(u32, u32)> {
    let (bus1, low) = B::read16_spec(m.bus, m.pc);
    match low {
        Err(_) => None,
        Ok(low) => if low % 4 != 3 {
            compressed_store(m, low)
        } else {
            match fetch_spec::<B>(bus1, m.pc).1 {
                Err(_) => None,
                Ok(raw) => word_store(m, raw),
            }
        },
    }
}

/// The event a store makes, stamped `cycle`: one event for a store to a GPIO event address,
/// none otherwise.
pub open spec fn gpio_event_of(store: Option<(u32, u32)>, cycle: u64) -> Seq<Event> {
    match store {
        Some((address, value)) => if is_gpio_event_spec(address) {
            seq![Event { cycle, kind: EventKind::GpioWrite, address, value }]
        } else {
            Seq::empty()
        },
        None => Seq::empty(),
    }
}

/// A trace after a store: its event is appended while fewer than `trace` events are kept.
pub open spec fn traced(events: Seq<Event>, store: Option<(u32, u32)>, cycle: u64, trace: nat) -> Seq<
    Event,
> {
    if events.len() < trace {
        events + gpio_event_of(store, cycle)
    } else {
        events
    }
}

proof fn lemma_compressed_events<B: Bus>(m: MachineState<B::V>, raw: u16, trace: nat)
    ensures
        compressed_spec::<B>(m, raw, trace).0.events == traced(
            m.events,
            compressed_store(m, raw),
            m.cycles,
            trace,
        ),
{
    reveal(compressed_spec);
    assert(m.events + Seq::<Event>::empty() =~= m.events);
    let e = compressed_store(m, raw);
    if let Some((address, value)) = e {
        assert(m.events.push(Event { cycle: m.cycles, kind: EventKind::GpioWrite, address, value })
            =~= m.events + seq![Event { cycle: m.cycles, kind: EventKind::GpioWrite, address, value }]);
    }
}

proof fn lemma_word_events<B: Bus>(m: MachineState<B::V>, raw: u32, trace: nat)
    ensures
        word_spec::<B>(m, raw, trace).0.events == traced(m.events, word_store(m, raw), m.cycles, trace),
{
    reveal(word_spec);
    assert(m.events + Seq::<Event>::empty() =~= m.events);
    if raw == MRET || (field(raw, 0, 0x7f) == 0x73 && field(raw, 12, 7) == 1) {
        assert(field(raw, 0, 0x7f) == 0x73) by {
            if raw == MRET {
                assert((0x3020_0073u32 >> 0u32) & 0x7fu32 == 0x73u32) by (bit_vector);
            }
        }
        assert(word_store(m, raw) is None);
    } else {
        match decode_spec(raw) {
            Err(_) => {},
            Ok(inst) => {
                if let Instruction::Store { width, rs1, rs2, offset } = inst {
                    let address = wrap32(m.reg(rs1) + offset);
                    let value = m.reg(rs2);
                    assert(m.events.push(
                        Event { cycle: m.cycles, kind: EventKind::GpioWrite, address, value },
                    ) =~= m.events + seq![
                        Event { cycle: m.cycles, kind: EventKind::GpioWrite, address, value },
                    ]);
                }
            },
        }
    }
}

/// One step and the trace: a store to a GPIO event address (`GPIO_OUT` or a port's set/reset
/// register), made while fewer than `trace` events are kept, appends exactly one event with
/// the store's address, the whole stored register, and the cycle count after the step; any
/// other step leaves the trace as it was.
pub proof fn law_step_traces_gpio_stores<B: Bus>(m: MachineState<B::V>, trace: nat)
    ensures
        step_spec::<B>(m, trace).0.events == traced(
            m.events,
            step_store::<B>(m),
            m.tick().cycles,
            trace,
        ),
{
    assert(m.events + Seq::<Event>::empty() =~= m.events);
    let (bus1, low) = B::read16_spec(m.bus, m.pc);
    if let Ok(low) = low {
        if low % 4 != 3 {
            lemma_compressed_events::<B>(m.on_bus(bus1).tick(), low, trace);
            assert(compressed_store(m.on_bus(bus1).tick(), low) == compressed_store(m, low));
        } else {
            let (bus2, word) = fetch_spec::<B>(bus1, m.pc);
            if let Ok(raw) = word {
                lemma_word_events::<B>(m.on_bus(bus2).tick(), raw, trace);
                assert(word_store(m.on_bus(bus2).tick(), raw) == word_store(m, raw));
            }
        }
    }
}

/// Every GPIO event of a run, in execution order, with no limit on their number.
pub open spec fn run_gpio_events<B: Bus>(m: MachineState<B::V>, max_cycles: u64, trace: nat) -> Seq<
    Event,
>
    decreases max_cycles - m.cycles,
{
    if m.cycles >= max_cycles {
        Seq::empty()
    } else {
        let (m1, r) = step_spec::<B>(m, trace);
        let here = gpio_event_of(step_store::<B>(m), m.tick().cycles);
        if r != StopReason::Running {
            here
        } else {
            proof {
                lemma_step_counts_cycle::<B>(m, trace);
            }
            here + run_gpio_events::<B>(m1, max_cycles, trace)
        }
    }
}

/// The first `n` items of `s` (all of them when it has no more).
pub open spec fn first_items<A>(s: Seq<A>, n: nat) -> Seq<A> {
    if s.len() <= n {
        s
    } else {
        s.subrange(0, n as int)
    }
}

/// A run keeps the first GPIO events: after it, the trace is the events kept before followed
/// by the run's GPIO events in execution order, cut to `trace` events; later ones are dropped.
pub proof fn law_run_keeps_first_gpio_events<B: Bus>(
    m: MachineState<B::V>,
    max_cycles: u64,
    trace: nat,
)
    requires
        m.events.len() <= trace,
    ensures
        run_spec::<B>(m, max_cycles, trace).0.events == first_items(
            m.events + run_gpio_events::<B>(m, max_cycles, trace),
            trace,
        ),
    decreases max_cycles - m.cycles,
{
    if m.cycles >= max_cycles {
        assert(m.events + Seq::<Event>::empty() =~= m.events);
    } else {
        let (m1, r) = step_spec::<B>(m, trace);
        let here = gpio_event_of(step_store::<B>(m), m.tick().cycles);
        law_step_traces_gpio_stores::<B>(m, trace);
        lemma_step_counts_cycle::<B>(m, trace);
        assert(here.len() <= 1);
        if r != StopReason::Running {
            if m.events.len() >= trace {
                assert((m.events + here).subrange(0, trace as int) =~= m.events);
            }
        } else {
            let rest = run_gpio_events::<B>(m1, max_cycles, trace);
            law_run_keeps_first_gpio_events::<B>(m1, max_cycles, trace);
            if m.events.len() < trace {
                assert(m.events + (here + rest) =~= (m.events + here) + rest);
            } else {
                assert((m.events + (here + rest)).subrange(0, trace as int) =~= m.events);
                assert(m.events + rest =~= m.events + rest);
                if (m.events + rest).len() > trace {
                    assert((m.events + rest).subrange(0, trace as int) =~= m.events);
                }
            }
        }
    }
}

/// On the RAM bus, a C.SWSP followed by a C.LWSP at the same stack offset reads back the word
/// that was stored: both steps run on, the loading register gets the stored register's value,
/// and the pc moves on by four.
pub proof fn law_stack_word_round_trip<const WORDS: usize>(
    m: MachineState<(Seq<u32>, u32)>,
    store: u16,
    load: u16,
    trace: nat,
)
    requires
        RamBus::<WORDS>::valid(m.bus),
        m.regs.len() == 16,
        store % 4 == 2,
        cfield(store, 13, 7) == 6,
        cfield(store, 2, 0x1f) < 16,
        load % 4 == 2,
        cfield(load, 13, 7) == 2,
        0 < cfield(load, 7, 0x1f) < 16,
        lwsp_offset_spec(load) == swsp_offset_spec(store),
        add32(m.reg(Register::numbered(2)), swsp_offset_spec(store) as u32) % 4 == 0,
        add32(m.reg(Register::numbered(2)), swsp_offset_spec(store) as u32) / 4 < WORDS,
        add32(m.reg(Register::numbered(2)), swsp_offset_spec(store) as u32) != GPIO_OUT,
    ensures
        ({
            let (m1, r1) = compressed_spec::<RamBus<WORDS>>(m, store, trace);
            let (m2, r2) = compressed_spec::<RamBus<WORDS>>(m1, load, trace);
            &&& r1 == StopReason::Running
            &&& r2 == StopReason::Running
            &&& m2.reg(Register::numbered(cfield(load, 7, 0x1f) as nat)) == m.reg(
                Register::numbered(cfield(store, 2, 0x1f) as nat),
            )
            &&& m2.pc == add32(add32(m.pc, 2), 2)
        }),
{
    reveal(compressed_spec);
    let sp = Register::numbered(2);
    let a = add32(m.reg(sp), swsp_offset_spec(store) as u32);
    let v = m.reg(Register::numbered(cfield(store, 2, 0x1f) as nat));
    let bus1 = (m.bus.0.update((a / 4) as int, v), m.bus.1);
    assert(full_register_spec(cfield(store, 2, 0x1f)) == Ok::<Register, DecodeError>(
        Register::numbered(cfield(store, 2, 0x1f) as nat),
    ));
    assert(full_register_spec(cfield(load, 7, 0x1f)) == Ok::<Register, DecodeError>(
        Register::numbered(cfield(load, 7, 0x1f) as nat),
    ));
    assert(compressed_spec::<RamBus<WORDS>>(m, store, trace) == quadrant2_spec::<RamBus<WORDS>>(
        m,
        store,
        trace,
    ));
    assert(quadrant2_spec::<RamBus<WORDS>>(m, store, trace) == store_word_spec::<RamBus<WORDS>>(
        m,
        a,
        v,
        trace,
    ));
    let m1 = compressed_spec::<RamBus<WORDS>>(m, store, trace).0;
    assert(m1.bus == bus1 && m1.regs == m.regs && m1.pc == add32(m.pc, 2));
    law_ram_hart_word_read::<WORDS>(bus1, a);
    assert(compressed_spec::<RamBus<WORDS>>(m1, load, trace) == quadrant2_spec::<RamBus<WORDS>>(
        m1,
        load,
        trace,
    ));
}

/// A reserved compressed shift (C.SLLI, C.SRLI or C.SRAI with bit 12 set, a shift by 32 or
/// more) is a decode fault that leaves the machine as it was.
pub proof fn law_reserved_compressed_shifts<B: Bus>(m: MachineState<B::V>, raw: u16, trace: nat)
    requires
        cfield(raw, 12, 1) == 1,
        (raw % 4 == 1 && cfield(raw, 13, 7) == 4 && cfield(raw, 10, 3) < 2) || (raw % 4 == 2
            && cfield(raw, 13, 7) == 0),
    ensures
        compressed_spec::<B>(m, raw, trace).0 == m,
        compressed_spec::<B>(m, raw, trace).1 is DecodeFault,
{
    reveal(compressed_spec);
}

} // verus!
