use vstd::prelude::*;

verus! {

/// The instruction profile the project targets.
#[derive(Clone, Copy, Debug, PartialEq, Eq, Structural)]
pub enum ArchitectureProfile {
    Rv32ec,
}

/// A rule the project holds itself to.
#[derive(Clone, Copy, Debug, PartialEq, Eq, Structural)]
pub enum DesignRule {
    BoardFirst,
    VendorNeutral,
    Educational,
    RustOnly,
}

/// What the project is and the rules it keeps.
#[derive(Clone, Copy, Debug, PartialEq, Eq)]
pub struct ProjectScope {
    pub os_name: &'static str,
    pub board_name: &'static str,
    pub architecture: ArchitectureProfile,
    pub rules: &'static [DesignRule],
}

impl ProjectScope {
    /// Claudio OS on the One Dollar Board, keeping all four design rules.
    pub fn claudio_os() -> (p: ProjectScope)
        ensures
            p.os_name@ == "Claudio OS"@,
            p.board_name@ == "One Dollar Board"@,
            p.architecture == ArchitectureProfile::Rv32ec,
            p.rules@ == seq![
                DesignRule::BoardFirst,
                DesignRule::VendorNeutral,
                DesignRule::Educational,
                DesignRule::RustOnly,
            ],
    {
        ProjectScope {
            os_name: "Claudio OS",
            board_name: "One Dollar Board",
            architecture: ArchitectureProfile::Rv32ec,
            rules: &[
                DesignRule::BoardFirst,
                DesignRule::VendorNeutral,
                DesignRule::Educational,
                DesignRule::RustOnly,
            ],
        }
    }

    /// Whether the scope keeps the vendor-neutral rule.
    pub fn is_vendor_neutral(self) -> (b: bool)
        ensures
            b == self.rules@.contains(DesignRule::VendorNeutral),
    {
        contains_rule(self.rules, DesignRule::VendorNeutral)
    }

    /// Whether the scope keeps the Rust-only rule.
    pub fn is_rust_only(self) -> (b: bool)
        ensures
            b == self.rules@.contains(DesignRule::RustOnly),
    {
        contains_rule(self.rules, DesignRule::RustOnly)
    }
}

fn contains_rule(rules: &[DesignRule], expected: DesignRule) -> (b: bool)
    ensures
        b == rules@.contains(expected),
{
    let mut index: usize = 0;
    while index < rules.len()
        invariant
            index <= rules@.len(),
            forall|j: int| 0 <= j < index ==> rules@[j] != expected,
        decreases rules@.len() - index,
    {
        if matches_rule(rules[index], expected) {
            assert(rules@[index as int] == expected);
            return true;
        }
        index += 1;
    }
    false
}

fn matches_rule(left: DesignRule, right: DesignRule) -> (b: bool)
    ensures
        b == (left == right),
{
    match (left, right) {
        (DesignRule::BoardFirst, DesignRule::BoardFirst) => true,
        (DesignRule::VendorNeutral, DesignRule::VendorNeutral) => true,
        (DesignRule::Educational, DesignRule::Educational) => true,
        (DesignRule::RustOnly, DesignRule::RustOnly) => true,
        _ => false,
    }
}

} // verus!
