use vstd::prelude::*;

verus! {

/// The instruction profile a board target guarantees.
#[derive(Clone, Copy, Debug, PartialEq, Eq, Structural)]
pub enum InstructionSet {
    Rv32ec,
}

impl InstructionSet {
    /// The profile's conventional name.
    pub fn name(self) -> (s: &'static str)
        ensures
            s@ == "RV32EC"@,
    {
        match self {
            InstructionSet::Rv32ec => "RV32EC",
        }
    }
}

/// A rule the board ecosystem promises to keep.
#[derive(Clone, Copy, Debug, PartialEq, Eq, Structural)]
pub enum CompatibilityRule {
    BoardContractFirst,
    StableRustPrograms,
    ReplaceableMicrocontroller,
    PinoutCompatibility,
}

/// A physical board model.
#[derive(Clone, Copy, Debug, PartialEq, Eq)]
pub struct BoardModel {
    pub name: &'static str,
    pub revision: &'static str,
    pub compatibility_family: &'static str,
}

/// The contract a board offers to programs.
#[derive(Clone, Copy, Debug, PartialEq, Eq)]
pub struct BoardTarget {
    pub name: &'static str,
    pub cli_name: &'static str,
    pub model: BoardModel,
    pub instruction_set: InstructionSet,
    pub flash_bytes: usize,
    pub ram_bytes: usize,
    pub rules: &'static [CompatibilityRule],
}

/// One Dollar Computer, model 1.004 R1.
pub fn one_dollar_board_model_1_004() -> (m: BoardModel)
    ensures
        m.name@ == "One Dollar Computer"@,
        m.revision@ == "1.004 R1"@,
        m.compatibility_family@ == "One Dollar Computer 1.x"@,
{
    BoardModel {
        name: "One Dollar Computer",
        revision: "1.004 R1",
        compatibility_family: "One Dollar Computer 1.x",
    }
}

impl BoardTarget {
    /// The RV32EC One Dollar Computer target: 16 KiB flash, 2 KiB RAM, and all four rules.
    pub fn rv32ec_one_dollar_board() -> (t: BoardTarget)
        ensures
            t.name@ == "One Dollar Computer"@,
            t.cli_name@ == "rv32ec-onedollarcomputer"@,
            t.model.name@ == "One Dollar Computer"@,
            t.model.revision@ == "1.004 R1"@,
            t.model.compatibility_family@ == "One Dollar Computer 1.x"@,
            t.instruction_set == InstructionSet::Rv32ec,
            t.flash_bytes == 16_384,
            t.ram_bytes == 2_048,
            t.rules@ == seq![
                CompatibilityRule::BoardContractFirst,
                CompatibilityRule::StableRustPrograms,
                CompatibilityRule::ReplaceableMicrocontroller,
                CompatibilityRule::PinoutCompatibility,
            ],
    {
        BoardTarget {
            name: "One Dollar Computer",
            cli_name: "rv32ec-onedollarcomputer",
            model: one_dollar_board_model_1_004(),
            instruction_set: InstructionSet::Rv32ec,
            flash_bytes: 16_384,
            ram_bytes: 2_048,
            rules: &[
                CompatibilityRule::BoardContractFirst,
                CompatibilityRule::StableRustPrograms,
                CompatibilityRule::ReplaceableMicrocontroller,
                CompatibilityRule::PinoutCompatibility,
            ],
        }
    }
}


impl BoardTarget {
    /// Programs stay portable when the target promises both stable Rust programs and a
    /// replaceable microcontroller.
    pub fn keeps_programs_portable(self) -> (b: bool)
        ensures
            b == (self.rules@.contains(CompatibilityRule::StableRustPrograms)
                && self.rules@.contains(CompatibilityRule::ReplaceableMicrocontroller)),
    {
        contains_rule(self.rules, CompatibilityRule::StableRustPrograms) && contains_rule(
            self.rules,
            CompatibilityRule::ReplaceableMicrocontroller,
        )
    }
}

fn contains_rule(rules: &[CompatibilityRule], expected: CompatibilityRule) -> (b: bool)
    ensures
        b == rules@.contains(expected),
{
    let mut index: usize = 0;
    while index < rules.len()
        invariant
            index <= rules@.len(),
            forall|j: int| 0 <= j < index ==> rules@[j] != expected,
        decreases rules@.len() - index,
    {
        if matches_rule(rules[index], expected) {
            assert(rules@[index as int] == expected);
            return true;
        }
        index += 1;
    }
    false
}

fn matches_rule(left: CompatibilityRule, right: CompatibilityRule) -> (b: bool)
    ensures
        b == (left == right),
{
    match (left, right) {
        (CompatibilityRule::BoardContractFirst, CompatibilityRule::BoardContractFirst) => true,
        (CompatibilityRule::StableRustPrograms, CompatibilityRule::StableRustPrograms) => true,
        (
            CompatibilityRule::ReplaceableMicrocontroller,
            CompatibilityRule::ReplaceableMicrocontroller,
        ) => true,
        (CompatibilityRule::PinoutCompatibility, CompatibilityRule::PinoutCompatibility) => true,
        _ => false,
    }
}

} // verus!
