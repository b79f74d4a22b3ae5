use vstd::prelude::*;

verus! {

/// Number of integer registers of an RV32E hart (`x0` ..= `x15`).
pub const REGISTER_COUNT: usize = 16;

/// Why a register number was refused.
#[derive(Clone, Copy, Debug, PartialEq, Eq, Structural)]
pub enum RegisterError {
    /// The number names a register that RV32E does not have (16 or more).
    NotRv32e(u8),
}

/// One of the sixteen RV32E integer registers.
#[derive(Clone, Copy, Debug, PartialEq, Eq, Structural)]
pub struct Register(u8);

impl View for Register {
    type V = nat;

    /// The register's number.
    closed spec fn view(&self) -> nat {
        self.0 as nat
    }
}

impl Register {
    #[verifier::type_invariant]
    spec fn in_rv32e(self) -> bool {
        self.0 < 16
    }

    /// The register whose number is `index` (meaningful for `index < 16`).
    pub closed spec fn numbered(index: nat) -> Register {
        Register(index as u8)
    }

    /// Numbering is exact: `numbered(i)` has number `i`.
    pub broadcast proof fn lemma_numbered(index: nat)
        requires
            index < 16,
        ensures
            (#[trigger] Register::numbered(index))@ == index,
    {
    }

    /// A register is determined by its number. (That the number is below 16 is a type
    /// invariant, which holds of every register a program holds: `index` and `raw` return it.)
    pub broadcast proof fn lemma_view_injective(a: Register, b: Register)
        ensures
            #[trigger] a@ == #[trigger] b@ ==> a == b,
    {
    }

    /// Validates a register number: RV32E has registers 0 ..= 15 only.
    pub fn new(index: u8) -> (r: Result<Register, RegisterError>)
        ensures
            index < 16 ==> r == Ok::<Register, RegisterError>(Register::numbered(index as nat)),
            index < 16 ==> (r matches Ok(reg) && reg@ == index),
            index >= 16 ==> r == Err::<Register, RegisterError>(RegisterError::NotRv32e(index)),
    {
        if index < REGISTER_COUNT as u8 {
            Ok(Register(index))
        } else {
            Err(RegisterError::NotRv32e(index))
        }
    }

    /// The register's number, usable as an index into the register file.
    pub fn index(self) -> (i: usize)
        ensures
            i == self@,
            i < 16,
    {
        proof {
            use_type_invariant(&self);
        }
        self.0 as usize
    }

    /// The register's number as a byte.
    pub fn raw(self) -> (b: u8)
        ensures
            b == self@,
            b < 16,
    {
        proof {
            use_type_invariant(&self);
        }
        self.0
    }

    /// Register `x0`, hard-wired to zero.
    pub fn zero() -> (r: Register)
        ensures
            r@ == 0,
            r == Register::numbered(0),
    {
        Register(0)
    }

    /// Register `x1` (`ra`), the return address register.
    pub fn return_address() -> (r: Register)
        ensures
            r@ == 1,
            r == Register::numbered(1),
    {
        Register(1)
    }

    /// Register `x2` (`sp`), the stack pointer.
    pub fn stack_pointer() -> (r: Register)
        ensures
            r@ == 2,
            r == Register::numbered(2),
    {
        Register(2)
    }
}

} // verus!
