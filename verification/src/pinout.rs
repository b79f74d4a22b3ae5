use vstd::prelude::*;

verus! {

/// What a board pin is for.
#[derive(Clone, Copy, Debug, PartialEq, Eq, Structural)]
pub enum PinKind {
    Digital,
    Power,
    Ground,
    NotConnected,
}

/// The chip-level signal behind a board pin.
#[derive(Clone, Copy, Debug, PartialEq, Eq, Structural)]
pub enum Signal {
    Pc0,
    Pc1,
    Pc2,
    Pc3,
    Pc4,
    Pc5,
    Pc6,
    Pc7,
    Pa1,
    Pa2,
    Pd0,
    Pd1,
    Pd2,
    Pd6,
    Pd7,
    Power3v3,
    Ground,
    NotConnected,
}

/// The conventional name of a signal.
pub open spec fn signal_name_spec(signal: Signal) -> Seq<char> {
    match signal {
        Signal::Pc0 => "PC0"@,
        Signal::Pc1 => "PC1"@,
        Signal::Pc2 => "PC2"@,
        Signal::Pc3 => "PC3"@,
        Signal::Pc4 => "PC4"@,
        Signal::Pc5 => "PC5"@,
        Signal::Pc6 => "PC6"@,
        Signal::Pc7 => "PC7"@,
        Signal::Pa1 => "PA1"@,
        Signal::Pa2 => "PA2"@,
        Signal::Pd0 => "PD0"@,
        Signal::Pd1 => "PD1"@,
        Signal::Pd2 => "PD2"@,
        Signal::Pd6 => "PD6"@,
        Signal::Pd7 => "PD7"@,
        Signal::Power3v3 => "+3V3"@,
        Signal::Ground => "GND"@,
        Signal::NotConnected => "NC"@,
    }
}

impl Signal {
    /// The signal's conventional name.
    pub fn name(self) -> (s: &'static str)
        ensures
            s@ == signal_name_spec(self),
    {
        match self {
            Signal::Pc0 => "PC0",
            Signal::Pc1 => "PC1",
            Signal::Pc2 => "PC2",
            Signal::Pc3 => "PC3",
            Signal::Pc4 => "PC4",
            Signal::Pc5 => "PC5",
            Signal::Pc6 => "PC6",
            Signal::Pc7 => "PC7",
            Signal::Pa1 => "PA1",
            Signal::Pa2 => "PA2",
            Signal::Pd0 => "PD0",
            Signal::Pd1 => "PD1",
            Signal::Pd2 => "PD2",
            Signal::Pd6 => "PD6",
            Signal::Pd7 => "PD7",
            Signal::Power3v3 => "+3V3",
            Signal::Ground => "GND",
            Signal::NotConnected => "NC",
        }
    }
}

/// One pin of the board connector.
#[derive(Clone, Copy, Debug, PartialEq, Eq)]
pub struct BoardPin {
    pub number: u8,
    pub label: &'static str,
    pub kind: PinKind,
    pub signal: Signal,
    pub package_pad: Option<&'static str>,
    pub rj_pin: Option<&'static str>,
    pub functions: &'static [&'static str],
}

/// A board's connector pinout.
#[derive(Clone, Copy, Debug, PartialEq, Eq)]
pub struct Pinout {
    pub board_name: &'static str,
    pub revision: &'static str,
    pub connector_name: &'static str,
    pub auxiliary_connector_name: &'static str,
    pub pins: &'static [BoardPin],
    pub blink_pin: u8,
}

/// Index of the first pin of `pins` numbered `number`.
pub open spec fn is_first_numbered(pins: Seq<BoardPin>, number: u8, i: int) -> bool {
    &&& 0 <= i < pins.len()
    &&& pins[i].number == number
    &&& forall|j: int| 0 <= j < i ==> pins[j].number != number
}

/// Whether some pin of `pins` is numbered `number`.
pub open spec fn has_pin(pins: Seq<BoardPin>, number: u8) -> bool {
    exists|i: int| 0 <= i < pins.len() && pins[i].number == number
}

impl Pinout {
    /// The first pin numbered `number`, if any.
    pub fn pin(self, number: u8) -> (r: Option<&'static BoardPin>)
        ensures
            r is Some <==> has_pin(self.pins@, number),
            r matches Some(p) ==> exists|i: int|
                is_first_numbered(self.pins@, number, i) && self.pins@[i] == *p,
    {
        let mut index: usize = 0;
        while index < self.pins.len()
            invariant
                index <= self.pins@.len(),
                forall|j: int| 0 <= j < index ==> self.pins@[j].number != number,
            decreases self.pins@.len() - index,
        {
            if self.pins[index].number == number {
                assert(is_first_numbered(self.pins@, number, index as int));
                return Some(&self.pins[index]);
            }
            index += 1;
        }
        None
    }

    /// The pin driving the blink LED.
    pub fn blink_pin(self) -> (p: &'static BoardPin)
        requires
            has_pin(self.pins@, self.blink_pin),
        ensures
            exists|i: int| is_first_numbered(self.pins@, self.blink_pin, i) && self.pins@[i] == *p,
    {
        match self.pin(self.blink_pin) {
            Some(p) => p,
            None => {
                assert(false);
                &self.pins[0]
            },
        }
    }
}

/// Pin `i` of the One Dollar Computer 1.004 R1 connector: its number, label, kind, signal,
/// package pad, RJ45 pin and functions.
pub open spec fn one_dollar_board_pin_spec(p: BoardPin, i: int) -> bool {
    if i == 0 {
        &&& p.number == 0
        &&& p.label@ == "0"@
        &&& p.kind == PinKind::Digital
        &&& p.signal == Signal::Pc0
        &&& (p.package_pad matches Some(s) && s@ == "MCU-7"@)
        &&& (p.rj_pin matches Some(s) && s@ == "RJ-3"@)
        &&& p.functions@.map_values(|f: &'static str| f@) =~= seq!["GPIO"@, "T2CH3"@, "NSS"@, "T1CH3"@, "UTX_"@]
    } else if i == 1 {
        &&& p.number == 1
        &&& p.label@ == "1"@
        &&& p.kind == PinKind::Digital
        &&& p.signal == Signal::Pc1
        &&& (p.package_pad matches Some(s) && s@ == "MCU-8"@)
        &&& (p.rj_pin matches Some(s) && s@ == "RJ-3"@)
        &&& p.functions@.map_values(|f: &'static str| f@) =~= seq!["GPIO"@, "SDA"@, "NSS"@, "T2CH4_"@, "T2CH1ETR_"@, "T1BKIN_"@, "URX_"@]
    } else if i == 2 {
        &&& p.number == 2
        &&& p.label@ == "2"@
        &&& p.kind == PinKind::Digital
        &&& p.signal == Signal::Pc2
        &&& (p.package_pad matches Some(s) && s@ == "MCU-9"@)
        &&& (p.rj_pin matches Some(s) && s@ == "RJ-2"@)
        &&& p.functions@.map_values(|f: &'static str| f@) =~= seq!["GPIO"@, "SCL"@, "URTS"@, "T1ETR"@, "T2CH2_"@, "AETR_"@]
    } else if i == 3 {
        &&& p.number == 3
        &&& p.label@ == "3"@
        &&& p.kind == PinKind::Digital
        &&& p.signal == Signal::Pc3
        &&& (p.package_pad matches Some(s) && s@ == "MCU-10"@)
        &&& (p.rj_pin matches Some(s) && s@ == "RJ-2"@)
        &&& p.functions@.map_values(|f: &'static str| f@) =~= seq!["GPIO"@, "T1CH3"@, "T1CH1N_"@, "UCTS_"@]
    } else if i == 4 {
        &&& p.number == 4
        &&& p.label@ == "4"@
        &&& p.kind == PinKind::Digital
        &&& p.signal == Signal::Pc4
        &&& (p.package_pad matches Some(s) && s@ == "MCU-11"@)
        &&& (p.rj_pin matches Some(s) && s@ == "RJ-6"@)
        &&& p.functions@.map_values(|f: &'static str| f@) =~= seq!["GPIO"@, "A2"@, "T1CH4"@, "MCO"@, "T1CH1CH2N_"@]
    } else if i == 5 {
        &&& p.number == 5
        &&& p.label@ == "5"@
        &&& p.kind == PinKind::Digital
        &&& p.signal == Signal::Pc5
        &&& (p.package_pad matches Some(s) && s@ == "MCU-12"@)
        &&& (p.rj_pin matches Some(s) && s@ == "RJ-5"@)
        &&& p.functions@.map_values(|f: &'static str| f@) =~= seq!["GPIO"@, "SCK"@, "T1ETR"@, "T2CH1ETR_"@, "SCL_"@, "T1CH3_"@]
    } else if i == 6 {
        &&& p.number == 6
        &&& p.label@ == "6"@
        &&& p.kind == PinKind::Digital
        &&& p.signal == Signal::Pc6
        &&& (p.package_pad matches Some(s) && s@ == "MCU-13"@)
        &&& (p.rj_pin matches Some(s) && s@ == "RJ-2"@)
        &&& p.functions@.map_values(|f: &'static str| f@) =~= seq!["GPIO"@, "MOSI"@, "T1CH1CH3N_"@, "UCTS_"@, "SDA_"@]
    } else if i == 7 {
        &&& p.number == 7
        &&& p.label@ == "7"@
        &&& p.kind == PinKind::Digital
        &&& p.signal == Signal::Pc7
        &&& (p.package_pad matches Some(s) && s@ == "MCU-14"@)
        &&& (p.rj_pin matches Some(s) && s@ == "RJ-1"@)
        &&& p.functions@.map_values(|f: &'static str| f@) =~= seq!["GPIO"@, "MISO"@, "T1CH2_"@, "T2CH2_"@, "URTS_"@]
    } else if i == 8 {
        &&& p.number == 8
        &&& p.label@ == "8"@
        &&& p.kind == PinKind::Digital
        &&& p.signal == Signal::Pa1
        &&& (p.package_pad matches Some(s) && s@ == "MCU-2"@)
        &&& p.rj_pin is None
        &&& p.functions@.map_values(|f: &'static str| f@) =~= seq!["GPIO"@, "A1"@, "OSCI"@, "T1CH2"@, "OPN0"@]
    } else if i == 9 {
        &&& p.number == 9
        &&& p.label@ == "9"@
        &&& p.kind == PinKind::Digital
        &&& p.signal == Signal::Pa2
        &&& (p.package_pad matches Some(s) && s@ == "MCU-3"@)
        &&& p.rj_pin is None
        &&& p.functions@.map_values(|f: &'static str| f@) =~= seq!["GPIO"@, "A0"@, "OSCO"@, "T1CH2N"@, "OPP0"@, "AETR2_"@]
    } else if i == 10 {
        &&& p.number == 10
        &&& p.label@ == "10"@
        &&& p.kind == PinKind::Power
        &&& p.signal == Signal::Power3v3
        &&& p.package_pad is None
        &&& (p.rj_pin matches Some(s) && s@ == "RJ-8"@)
        &&& p.functions@.map_values(|f: &'static str| f@) =~= seq!["POWER"@]
    } else if i == 11 {
        &&& p.number == 11
        &&& p.label@ == "11"@
        &&& p.kind == PinKind::Ground
        &&& p.signal == Signal::Ground
        &&& (p.package_pad matches Some(s) && s@ == "MCU-0"@)
        &&& (p.rj_pin matches Some(s) && s@ == "RJ-7"@)
        &&& p.functions@.map_values(|f: &'static str| f@) =~= seq!["GROUND"@]
    } else if i == 12 {
        &&& p.number == 12
        &&& p.label@ == "12"@
        &&& p.kind == PinKind::Digital
        &&& p.signal == Signal::Pd1
        &&& (p.package_pad matches Some(s) && s@ == "MCU-15"@)
        &&& p.rj_pin is None
        &&& p.functions@.map_values(|f: &'static str| f@) =~= seq!["GPIO"@, "SWIO"@, "AETR2"@, "T1CH3N"@, "SCL_"@, "URX_"@]
    } else if i == 13 {
        &&& p.number == 13
        &&& p.label@ == "13"@
        &&& p.kind == PinKind::Digital
        &&& p.signal == Signal::Pd7
        &&& (p.package_pad matches Some(s) && s@ == "MCU-1"@)
        &&& p.rj_pin is None
        &&& p.functions@.map_values(|f: &'static str| f@) =~= seq!["GPIO"@, "NRST"@, "T2CH4"@, "OPP1"@, "UCK"@]
    } else if i == 14 {
        &&& p.number == 14
        &&& p.label@ == "14"@
        &&& p.kind == PinKind::Digital
        &&& p.signal == Signal::Pd0
        &&& (p.package_pad matches Some(s) && s@ == "MCU-5"@)
        &&& p.rj_pin is None
        &&& p.functions@.map_values(|f: &'static str| f@) =~= seq!["GPIO"@, "T1CH1N"@, "OPN1"@, "SDA_"@, "UTX_"@]
    } else if i == 15 {
        &&& p.number == 15
        &&& p.label@ == "15"@
        &&& p.kind == PinKind::Digital
        &&& p.signal == Signal::Pd2
        &&& (p.package_pad matches Some(s) && s@ == "MCU-16"@)
        &&& p.rj_pin is None
        &&& p.functions@.map_values(|f: &'static str| f@) =~= seq!["GPIO"@, "A3"@, "T1CH1"@, "T2CH3"@, "T1CH2N"@]
    } else if i == 16 {
        &&& p.number == 16
        &&& p.label@ == "16"@
        &&& p.kind == PinKind::NotConnected
        &&& p.signal == Signal::NotConnected
        &&& p.package_pad is None
        &&& p.rj_pin is None
        &&& p.functions@.map_values(|f: &'static str| f@) =~= seq!["NC"@]
    } else if i == 17 {
        &&& p.number == 17
        &&& p.label@ == "17"@
        &&& p.kind == PinKind::NotConnected
        &&& p.signal == Signal::NotConnected
        &&& p.package_pad is None
        &&& p.rj_pin is None
        &&& p.functions@.map_values(|f: &'static str| f@) =~= seq!["NC"@]
    } else if i == 18 {
        &&& p.number == 18
        &&& p.label@ == "18"@
        &&& p.kind == PinKind::NotConnected
        &&& p.signal == Signal::NotConnected
        &&& p.package_pad is None
        &&& p.rj_pin is None
        &&& p.functions@.map_values(|f: &'static str| f@) =~= seq!["NC"@]
    } else if i == 19 {
        &&& p.number == 19
        &&& p.label@ == "19"@
        &&& p.kind == PinKind::Digital
        &&& p.signal == Signal::Pd6
        &&& (p.package_pad matches Some(s) && s@ == "MCU-20"@)
        &&& p.rj_pin is None
        &&& p.functions@.map_values(|f: &'static str| f@) =~= seq!["GPIO"@, "A6"@, "URX"@, "T2CH4_"@, "UTX_"@]
    } else {
        false
    }
}

/// The One Dollar Computer 1.004 R1 pinout: board pins 0 ..= 19 on the ODB Port, with the blink
/// LED on pin 19 (PD6).
pub fn one_dollar_board_pinout() -> (p: Pinout)
    ensures
        p.board_name@ == "One Dollar Computer"@,
        p.revision@ == "1.004 R1"@,
        p.connector_name@ == "ODB Port"@,
        p.auxiliary_connector_name@ == "RJ45"@,
        p.blink_pin == 19,
        p.pins@.len() == 20,
        forall|i: int| 0 <= i < 20 ==> one_dollar_board_pin_spec(#[trigger] p.pins@[i], i),
{
    let p = Pinout {
        board_name: "One Dollar Computer",
        revision: "1.004 R1",
        connector_name: "ODB Port",
        auxiliary_connector_name: "RJ45",
        pins: &[
            BoardPin {
                number: 0,
                label: "0",
                kind: PinKind::Digital,
                signal: Signal::Pc0,
                package_pad: Some("MCU-7"),
                rj_pin: Some("RJ-3"),
                functions: &["GPIO", "T2CH3", "NSS", "T1CH3", "UTX_"],
            },
            BoardPin {
                number: 1,
                label: "1",
                kind: PinKind::Digital,
                signal: Signal::Pc1,
                package_pad: Some("MCU-8"),
                rj_pin: Some("RJ-3"),
                functions: &["GPIO", "SDA", "NSS", "T2CH4_", "T2CH1ETR_", "T1BKIN_", "URX_"],
            },
            BoardPin {
                number: 2,
                label: "2",
                kind: PinKind::Digital,
                signal: Signal::Pc2,
                package_pad: Some("MCU-9"),
                rj_pin: Some("RJ-2"),
                functions: &["GPIO", "SCL", "URTS", "T1ETR", "T2CH2_", "AETR_"],
            },
            BoardPin {
                number: 3,
                label: "3",
                kind: PinKind::Digital,
                signal: Signal::Pc3,
                package_pad: Some("MCU-10"),
                rj_pin: Some("RJ-2"),
                functions: &["GPIO", "T1CH3", "T1CH1N_", "UCTS_"],
            },
            BoardPin {
                number: 4,
                label: "4",
                kind: PinKind::Digital,
                signal: Signal::Pc4,
                package_pad: Some("MCU-11"),
                rj_pin: Some("RJ-6"),
                functions: &["GPIO", "A2", "T1CH4", "MCO", "T1CH1CH2N_"],
            },
            BoardPin {
                number: 5,
                label: "5",
                kind: PinKind::Digital,
                signal: Signal::Pc5,
                package_pad: Some("MCU-12"),
                rj_pin: Some("RJ-5"),
                functions: &["GPIO", "SCK", "T1ETR", "T2CH1ETR_", "SCL_", "T1CH3_"],
            },
            BoardPin {
                number: 6,
                label: "6",
                kind: PinKind::Digital,
                signal: Signal::Pc6,
                package_pad: Some("MCU-13"),
                rj_pin: Some("RJ-2"),
                functions: &["GPIO", "MOSI", "T1CH1CH3N_", "UCTS_", "SDA_"],
            },
            BoardPin {
                number: 7,
                label: "7",
                kind: PinKind::Digital,
                signal: Signal::Pc7,
                package_pad: Some("MCU-14"),
                rj_pin: Some("RJ-1"),
                functions: &["GPIO", "MISO", "T1CH2_", "T2CH2_", "URTS_"],
            },
            BoardPin {
                number: 8,
                label: "8",
                kind: PinKind::Digital,
                signal: Signal::Pa1,
                package_pad: Some("MCU-2"),
                rj_pin: None,
                functions: &["GPIO", "A1", "OSCI", "T1CH2", "OPN0"],
            },
            BoardPin {
                number: 9,
                label: "9",
                kind: PinKind::Digital,
                signal: Signal::Pa2,
                package_pad: Some("MCU-3"),
                rj_pin: None,
                functions: &["GPIO", "A0", "OSCO", "T1CH2N", "OPP0", "AETR2_"],
            },
            BoardPin {
                number: 10,
                label: "10",
                kind: PinKind::Power,
                signal: Signal::Power3v3,
                package_pad: None,
                rj_pin: Some("RJ-8"),
                functions: &["POWER"],
            },
            BoardPin {
                number: 11,
                label: "11",
                kind: PinKind::Ground,
                signal: Signal::Ground,
                package_pad: Some("MCU-0"),
                rj_pin: Some("RJ-7"),
                functions: &["GROUND"],
            },
            BoardPin {
                number: 12,
                label: "12",
                kind: PinKind::Digital,
                signal: Signal::Pd1,
                package_pad: Some("MCU-15"),
                rj_pin: None,
                functions: &["GPIO", "SWIO", "AETR2", "T1CH3N", "SCL_", "URX_"],
            },
            BoardPin {
                number: 13,
                label: "13",
                kind: PinKind::Digital,
                signal: Signal::Pd7,
                package_pad: Some("MCU-1"),
                rj_pin: None,
                functions: &["GPIO", "NRST", "T2CH4", "OPP1", "UCK"],
            },
            BoardPin {
                number: 14,
                label: "14",
                kind: PinKind::Digital,
                signal: Signal::Pd0,
                package_pad: Some("MCU-5"),
                rj_pin: None,
                functions: &["GPIO", "T1CH1N", "OPN1", "SDA_", "UTX_"],
            },
            BoardPin {
                number: 15,
                label: "15",
                kind: PinKind::Digital,
                signal: Signal::Pd2,
                package_pad: Some("MCU-16"),
                rj_pin: None,
                functions: &["GPIO", "A3", "T1CH1", "T2CH3", "T1CH2N"],
            },
            BoardPin {
                number: 16,
                label: "16",
                kind: PinKind::NotConnected,
                signal: Signal::NotConnected,
                package_pad: None,
                rj_pin: None,
                functions: &["NC"],
            },
            BoardPin {
                number: 17,
                label: "17",
                kind: PinKind::NotConnected,
                signal: Signal::NotConnected,
                package_pad: None,
                rj_pin: None,
                functions: &["NC"],
            },
            BoardPin {
                number: 18,
                label: "18",
                kind: PinKind::NotConnected,
                signal: Signal::NotConnected,
                package_pad: None,
                rj_pin: None,
                functions: &["NC"],
            },
            BoardPin {
                number: 19,
                label: "19",
                kind: PinKind::Digital,
                signal: Signal::Pd6,
                package_pad: Some("MCU-20"),
                rj_pin: None,
                functions: &["GPIO", "A6", "URX", "T2CH4_", "UTX_"],
            },
        ],
        blink_pin: 19,
    };
    assert(one_dollar_board_pin_spec(p.pins@[0], 0));
    assert(one_dollar_board_pin_spec(p.pins@[1], 1));
    assert(one_dollar_board_pin_spec(p.pins@[2], 2));
    assert(one_dollar_board_pin_spec(p.pins@[3], 3));
    assert(one_dollar_board_pin_spec(p.pins@[4], 4));
    assert(one_dollar_board_pin_spec(p.pins@[5], 5));
    assert(one_dollar_board_pin_spec(p.pins@[6], 6));
    assert(one_dollar_board_pin_spec(p.pins@[7], 7));
    assert(one_dollar_board_pin_spec(p.pins@[8], 8));
    assert(one_dollar_board_pin_spec(p.pins@[9], 9));
    assert(one_dollar_board_pin_spec(p.pins@[10], 10));
    assert(one_dollar_board_pin_spec(p.pins@[11], 11));
    assert(one_dollar_board_pin_spec(p.pins@[12], 12));
    assert(one_dollar_board_pin_spec(p.pins@[13], 13));
    assert(one_dollar_board_pin_spec(p.pins@[14], 14));
    assert(one_dollar_board_pin_spec(p.pins@[15], 15));
    assert(one_dollar_board_pin_spec(p.pins@[16], 16));
    assert(one_dollar_board_pin_spec(p.pins@[17], 17));
    assert(one_dollar_board_pin_spec(p.pins@[18], 18));
    assert(one_dollar_board_pin_spec(p.pins@[19], 19));
    p
}

} // verus!
