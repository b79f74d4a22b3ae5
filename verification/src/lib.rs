//! An emulator for the RV32EC One Dollar Computer: instruction decoding, a hart that executes
//! RV32E with the compressed extension and the CSRs its firmware uses, and buses that model the
//! board's memory and peripherals.

use vstd::prelude::*;

pub mod alu;
pub mod board;
pub mod board_bus;
pub mod bus;
pub mod compressed;
pub mod display;
pub mod fields;
pub mod image;
pub mod instruction;
pub mod isa_laws;
pub mod machine;
pub mod pinout;
pub mod project;
pub mod ram_bus;
pub mod register;
pub mod session;
pub mod text;

pub use board::{
    one_dollar_board_model_1_004, BoardModel, BoardTarget, CompatibilityRule, InstructionSet,
};
pub use board_bus::{BoardBus, GpioPort};
pub use bus::{Bus, BusFault, GPIO_OUT};
pub use instruction::{decode, DecodeError, Instruction, Opcode};
pub use machine::{Event, EventKind, Machine, RunLimit, StopReason};
pub use pinout::{one_dollar_board_pinout, BoardPin, PinKind, Pinout, Signal};
pub use project::{ArchitectureProfile, DesignRule, ProjectScope};
pub use ram_bus::RamBus;
pub use register::{Register, RegisterError, REGISTER_COUNT};

verus! {

} // verus!
