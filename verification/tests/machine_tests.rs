use claudioos::board_bus::RAM_BASE;
use claudioos::{
    BoardBus, Bus, BusFault, DecodeError, Event, EventKind, Machine, RamBus, Register, RunLimit,
    StopReason, GPIO_OUT,
};

const LUI_X1_GPIO: u32 = 0x4001_10b7;
const ADDI_X2_ONE: u32 = 0x0010_0113;
const SW_X2_GPIO_OUT: u32 = 0x0020_a623;
const SW_ZERO_GPIO_OUT: u32 = 0x0000_a623;
const EBREAK: u32 = 0x0010_0073;

#[test]
fn runs_blink_like_gpio_program() {
    let mut bus = RamBus::<8>::new();
    bus.load_word(0, LUI_X1_GPIO).unwrap();
    bus.load_word(1, ADDI_X2_ONE).unwrap();
    bus.load_word(2, SW_X2_GPIO_OUT).unwrap();
    bus.load_word(3, SW_ZERO_GPIO_OUT).unwrap();
    bus.load_word(4, EBREAK).unwrap();

    let mut machine = Machine::<_, 8>::new(bus);
    let reason = machine.run(RunLimit { max_cycles: 16 });

    assert_eq!(reason, StopReason::Ebreak);
    assert_eq!(machine.bus().gpio_out(), 0);

    let events: [Event; 2] = {
        let mut iter = machine.events().into_iter();
        [iter.next().unwrap(), iter.next().unwrap()]
    };

    assert_eq!(events[0].value, 1);
    assert_eq!(events[1].value, 0);
}

fn reg(i: u8) -> Register {
    Register::new(i).unwrap()
}

fn ram_machine(words: &[u32]) -> Machine<RamBus<16>, 4> {
    let mut bus = RamBus::<16>::new();
    for (i, w) in words.iter().copied().enumerate() {
        bus.load_word(i, w).unwrap();
    }
    Machine::new(bus)
}

#[test]
fn counts_cycles_and_records_gpio_events() {
    let mut machine = ram_machine(&[
        LUI_X1_GPIO,
        ADDI_X2_ONE,
        SW_X2_GPIO_OUT,
        SW_ZERO_GPIO_OUT,
        EBREAK,
    ]);
    assert_eq!(machine.run(RunLimit { max_cycles: 100 }), StopReason::Ebreak);
    assert_eq!(machine.cycles(), 5);
    assert_eq!(machine.pc(), 16);
    assert_eq!(machine.register(reg(1)), 0x4001_1000);
    assert_eq!(machine.register(reg(2)), 1);
    assert_eq!(
        machine.events(),
        vec![
            Event { cycle: 3, kind: EventKind::GpioWrite, address: GPIO_OUT, value: 1 },
            Event { cycle: 4, kind: EventKind::GpioWrite, address: GPIO_OUT, value: 0 },
        ]
    );
}

#[test]
fn stops_at_the_cycle_budget() {
    // jal x0, 0: an infinite loop
    let mut machine = ram_machine(&[0x0000_006f]);
    assert_eq!(machine.run(RunLimit { max_cycles: 10 }), StopReason::MaxCycles);
    assert_eq!(machine.cycles(), 10);
    assert_eq!(machine.pc(), 0);
}

#[test]
fn keeps_only_the_first_trace_events() {
    // sw x0, 12(x1) three times with x1 = GPIO base, trace of 2
    let mut bus = RamBus::<8>::new();
    for (i, w) in [LUI_X1_GPIO, SW_ZERO_GPIO_OUT, SW_ZERO_GPIO_OUT, SW_ZERO_GPIO_OUT, EBREAK]
        .iter()
        .copied()
        .enumerate()
    {
        bus.load_word(i, w).unwrap();
    }
    let mut machine = Machine::<_, 2>::new(bus);
    assert_eq!(machine.run(RunLimit { max_cycles: 16 }), StopReason::Ebreak);
    let events = machine.events();
    assert_eq!(events.len(), 2);
    assert_eq!(events[0].cycle, 2);
    assert_eq!(events[1].cycle, 3);
}

#[test]
fn x0_stays_zero() {
    // addi x0, x0, 5 ; ebreak
    let mut machine = ram_machine(&[0x0050_0013, EBREAK]);
    machine.set_register(reg(0), 7);
    assert_eq!(machine.register(reg(0)), 0);
    assert_eq!(machine.run(RunLimit { max_cycles: 4 }), StopReason::Ebreak);
    assert_eq!(machine.register(reg(0)), 0);
    machine.set_register(reg(3), 9);
    assert_eq!(machine.register(reg(3)), 9);
}

#[test]
fn executes_alu_and_branches() {
    let mut machine = ram_machine(&[
        0xff50_0093, // addi x1, x0, -11
        0x0030_0113, // addi x2, x0, 3
        0x4020_81b3, // sub x3, x1, x2  -> -14
        0x0020_a233, // slt x4, x1, x2  -> 1
        0x0020_b2b3, // sltu x5, x1, x2 -> 0
        0x0011_5313, // srli x6, x2, 1  -> 1
        0x0020_8463, // beq x1, x2, +8 (not taken)
        0x0000_0073, // ecall
    ]);
    assert_eq!(machine.run(RunLimit { max_cycles: 100 }), StopReason::Ecall);
    assert_eq!(machine.register(reg(1)), (-11i32) as u32);
    assert_eq!(machine.register(reg(3)), (-14i32) as u32);
    assert_eq!(machine.register(reg(4)), 1);
    assert_eq!(machine.register(reg(5)), 0);
    assert_eq!(machine.register(reg(6)), 1);
    assert_eq!(machine.pc(), 28);
}

#[test]
fn executes_compressed_instructions() {
    // c.li x8, 5 (0x4415) ; c.addi x8, -1 (0x147d) ; c.mv x9, x8 (0x84a2) ; c.ebreak (0x9002)
    let words = [0x147d_4415u32, 0x9002_84a2];
    let mut machine = ram_machine(&words);
    assert_eq!(machine.run(RunLimit { max_cycles: 10 }), StopReason::Ebreak);
    assert_eq!(machine.register(reg(8)), 4);
    assert_eq!(machine.register(reg(9)), 4);
    assert_eq!(machine.cycles(), 4);
    assert_eq!(machine.pc(), 6);
}

#[test]
fn reports_faults() {
    // an undefined opcode
    let mut machine = ram_machine(&[0x0000_0007]);
    assert_eq!(
        machine.step(),
        StopReason::DecodeFault(DecodeError::UnknownOpcode(0x07))
    );
    // fetch outside the RAM
    let mut machine = ram_machine(&[0x0400_006f]); // jal x0, 64
    assert_eq!(machine.step(), StopReason::Running);
    assert_eq!(machine.step(), StopReason::BusFault(BusFault::OutOfRange { address: 64 }));
    assert_eq!(machine.cycles(), 1);
}

#[test]
fn csr_swap_and_mret() {
    // csrrw x0, mepc, x1 with x1 = 8 ; mret ; (8:) ebreak
    let mut machine = ram_machine(&[0x3410_9073, 0x3020_0073, EBREAK]);
    machine.set_register(reg(1), 8);
    assert_eq!(machine.step(), StopReason::Running);
    assert_eq!(machine.step(), StopReason::Running);
    assert_eq!(machine.pc(), 8);
    assert_eq!(machine.step(), StopReason::Ebreak);
}

#[test]
fn board_bus_machine_runs_from_flash() {
    // lui x1, 0x20000 ; sw x1, 0(x1) ; lw x2, 0(x1) ; ebreak
    let program: [u32; 4] = [0x2000_00b7, 0x0010_a023, 0x0000_a103, EBREAK];
    let mut image = Vec::new();
    for w in program {
        image.extend_from_slice(&w.to_le_bytes());
    }
    let mut bus = BoardBus::<64, 64>::new();
    bus.load_flash(&image).unwrap();
    let mut machine = Machine::<_, 4>::new(bus);
    assert_eq!(machine.run(RunLimit { max_cycles: 10 }), StopReason::Ebreak);
    assert_eq!(machine.register(reg(2)), RAM_BASE);
    assert_eq!(machine.bus_mut().read32(RAM_BASE).unwrap(), RAM_BASE);
}

#[test]
fn srai_and_sra_keep_the_sign() {
    // srai x8, x8, 1
    let mut machine = ram_machine(&[0x4014_5413]);
    machine.set_register(reg(8), 0x8000_0000);
    assert_eq!(machine.step(), StopReason::Running);
    assert_eq!(machine.register(reg(8)), 0xc000_0000);
    assert_eq!(machine.pc(), 4);
    // srli x8, x8, 1 on the same value shifts in a zero
    let mut machine = ram_machine(&[0x0014_5413]);
    machine.set_register(reg(8), 0x8000_0000);
    assert_eq!(machine.step(), StopReason::Running);
    assert_eq!(machine.register(reg(8)), 0x4000_0000);
    // sra x8, x8, x9
    let mut machine = ram_machine(&[0x4094_5433]);
    machine.set_register(reg(8), 0x8000_0000);
    machine.set_register(reg(9), 4);
    assert_eq!(machine.step(), StopReason::Running);
    assert_eq!(machine.register(reg(8)), 0xf800_0000);
    assert_eq!(machine.pc(), 4);
}

#[test]
fn executes_c_xor_and_c_addi4spn() {
    // c.xor x8, x9
    let mut machine = ram_machine(&[0x0000_8c25]);
    machine.set_register(reg(8), 12);
    machine.set_register(reg(9), 10);
    assert_eq!(machine.step(), StopReason::Running);
    assert_eq!(machine.register(reg(8)), 6);
    assert_eq!(machine.pc(), 2);
    // c.addi4spn x8, sp, 4
    let mut machine = ram_machine(&[0x0000_0040]);
    machine.set_register(Register::stack_pointer(), 0x100);
    assert_eq!(machine.step(), StopReason::Running);
    assert_eq!(machine.register(reg(8)), 0x104);
    assert_eq!(machine.pc(), 2);
    // the all-zero halfword is not an instruction
    assert_eq!(machine.step(), StopReason::DecodeFault(DecodeError::UnknownOpcode(0)));
    assert_eq!(machine.pc(), 2);
}

#[test]
fn compressed_fields_refuse_registers_outside_rv32e() {
    // c.li x17, 5
    let mut machine = ram_machine(&[0x0000_4895]);
    assert_eq!(
        machine.step(),
        StopReason::DecodeFault(DecodeError::Register(claudioos::RegisterError::NotRv32e(17)))
    );
    assert_eq!(machine.pc(), 0);
    // c.slli x8, 32 is reserved on RV32
    let mut machine = ram_machine(&[0x0000_1402]);
    assert_eq!(machine.step(), StopReason::DecodeFault(DecodeError::UnknownOpcode(0x02)));
    assert_eq!(machine.pc(), 0);
}

#[test]
fn c_swsp_to_gpio_is_traced() {
    // c.swsp x9, 0(sp) with sp at the GPIO output register
    let mut machine = ram_machine(&[0x0000_c026]);
    machine.set_register(Register::stack_pointer(), GPIO_OUT);
    machine.set_register(reg(9), 1);
    assert_eq!(machine.step(), StopReason::Running);
    assert_eq!(machine.bus().gpio_out(), 1);
    let events = machine.events();
    assert_eq!(events.len(), 1);
    assert_eq!(
        events[0],
        Event { cycle: machine.cycles(), kind: EventKind::GpioWrite, address: GPIO_OUT, value: 1 }
    );
}

#[test]
fn stack_store_then_load_round_trips() {
    // c.swsp x9, 4(sp) ; c.lwsp x10, 4(sp)
    let mut machine = ram_machine(&[0x4512_c226]);
    machine.set_register(Register::stack_pointer(), 0x20);
    machine.set_register(reg(9), 0xabcd_1234);
    assert_eq!(machine.step(), StopReason::Running);
    assert_eq!(machine.step(), StopReason::Running);
    assert_eq!(machine.register(reg(10)), 0xabcd_1234);
    assert_eq!(machine.pc(), 4);
    // a store to plain RAM leaves the trace empty
    assert!(machine.events().is_empty());
}

#[test]
fn reserved_compressed_shifts_fault() {
    // c.srli x8, 32 and c.srai x8, 32
    for raw in [0x0000_9001u32, 0x0000_9401] {
        let mut machine = ram_machine(&[raw]);
        machine.set_register(reg(8), 0x8000_0000);
        assert_eq!(machine.step(), StopReason::DecodeFault(DecodeError::UnknownOpcode(0x01)));
        assert_eq!(machine.pc(), 0);
        assert_eq!(machine.register(reg(8)), 0x8000_0000);
    }
}
