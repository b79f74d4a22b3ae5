use claudioos::{
    one_dollar_board_pinout, ArchitectureProfile, BoardTarget, CompatibilityRule, InstructionSet,
    PinKind, ProjectScope, Signal,
};

#[test]
fn names_board_target_without_vendor_identity() {
    let target = BoardTarget::rv32ec_one_dollar_board();

    assert_eq!(target.name, "One Dollar Computer");
    assert_eq!(target.cli_name, "rv32ec-onedollarcomputer");
    assert_eq!(target.model.revision, "1.004 R1");
    assert_eq!(target.instruction_set.name(), "RV32EC");
    assert!(target.keeps_programs_portable());
}

#[test]
fn portability_needs_both_rules() {
    let mut target = BoardTarget::rv32ec_one_dollar_board();
    target.rules = &[CompatibilityRule::StableRustPrograms];
    assert!(!target.keeps_programs_portable());
    target.rules = &[
        CompatibilityRule::ReplaceableMicrocontroller,
        CompatibilityRule::StableRustPrograms,
    ];
    assert!(target.keeps_programs_portable());
    assert_eq!(target.flash_bytes, 16_384);
    assert_eq!(target.ram_bytes, 2_048);
    assert_eq!(target.instruction_set, InstructionSet::Rv32ec);
}

#[test]
fn exposes_blink_pin_from_board_pinout() {
    let blink = one_dollar_board_pinout().blink_pin();

    assert_eq!(blink.number, 19);
    assert_eq!(blink.signal, Signal::Pd6);
    assert!(blink.functions.contains(&"GPIO"));
}

#[test]
fn matches_v1004_r1_svg_power_and_nc_pins() {
    let pinout = one_dollar_board_pinout();

    assert_eq!(pinout.pin(10).map(|pin| pin.signal), Some(Signal::Power3v3));
    assert_eq!(pinout.pin(11).map(|pin| pin.signal), Some(Signal::Ground));
    assert_eq!(
        pinout.pin(16).map(|pin| pin.kind),
        Some(PinKind::NotConnected)
    );
    assert_eq!(
        pinout.pin(17).map(|pin| pin.kind),
        Some(PinKind::NotConnected)
    );
    assert_eq!(
        pinout.pin(18).map(|pin| pin.kind),
        Some(PinKind::NotConnected)
    );
}

#[test]
fn pinout_lookup_and_signal_names() {
    let pinout = one_dollar_board_pinout();
    assert!(pinout.pin(20).is_none());
    assert_eq!(pinout.pins.len(), 20);
    assert_eq!(pinout.pin(13).unwrap().signal.name(), "PD7");
    assert_eq!(pinout.pin(0).unwrap().package_pad, Some("MCU-7"));
    assert_eq!(Signal::Power3v3.name(), "+3V3");
    assert_eq!(Signal::NotConnected.name(), "NC");
}

#[test]
fn project_scope_names_os_and_board_separately() {
    let scope = ProjectScope::claudio_os();

    assert_eq!(scope.os_name, "Claudio OS");
    assert_eq!(scope.board_name, "One Dollar Board");
    assert_eq!(scope.architecture, ArchitectureProfile::Rv32ec);
    assert!(scope.is_vendor_neutral());
    assert!(scope.is_rust_only());
}
