use vstd::prelude::*;
use crate::board_bus::{BoardBus, BoardBusState, board_reset_state};
use crate::bus::{Bus, BusFault};
use crate::machine::{
    Event, EventKind, Machine, MachineState, RunLimit, StopReason, initial_state, run_spec,
    step_spec, lemma_step_counts_cycle,
};
use crate::ram_bus::RamBus;

verus! {

/// `lui x1, 0x40011`: the GPIO block's base address into `x1`.
pub const LUI_X1_GPIO: u32 = 0x4001_10b7;

/// `addi x2, x0, 1`.
pub const ADDI_X2_ONE: u32 = 0x0010_0113;

/// `sw x2, 12(x1)`: drive the LED on.
pub const SW_X2_GPIO_OUT: u32 = 0x0020_a623;

/// `sw x0, 12(x1)`: drive the LED off.
pub const SW_ZERO_GPIO_OUT: u32 = 0x0000_a623;

/// `ebreak`.
pub const EBREAK: u32 = 0x0010_0073;

/// Cycle budget of one run of the built-in blink program.
pub const BLINK_MAX_CYCLES: u64 = 16;

/// Flash bytes of the board bus that raw board images run on.
pub const IMAGE_FLASH_BYTES: usize = 65536;

/// RAM bytes of the board bus that raw board images run on.
pub const IMAGE_RAM_BYTES: usize = 4096;

/// The board bus that raw board images run on.
pub type ImageBus = BoardBus<IMAGE_FLASH_BYTES, IMAGE_RAM_BYTES>;

/// Set/reset register of GPIO port D, which drives the board LED (PD6).
pub const GPIOD_BSHR: u32 = 0x4001_1410;

/// Set/reset register of GPIO port C.
pub const GPIOC_BSHR: u32 = 0x4001_1010;

/// The built-in blink program: LED on, LED off, stop.
pub open spec fn blink_program_spec() -> Seq<u32> {
    seq![LUI_X1_GPIO, ADDI_X2_ONE, SW_X2_GPIO_OUT, SW_ZERO_GPIO_OUT, EBREAK]
}

/// The RAM bus holding the blink program: eight words, the program first.
pub open spec fn blink_bus_spec() -> (Seq<u32>, u32) {
    (blink_program_spec() + seq![0u32, 0u32, 0u32], 0)
}

/// The run of the blink program: 16 cycles at most, 8 events kept.
pub open spec fn blink_run_spec() -> (MachineState<(Seq<u32>, u32)>, StopReason) {
    run_spec::<RamBus<8>>(initial_state(blink_bus_spec()), BLINK_MAX_CYCLES, 8)
}

/// The LED states of a trace: on for a nonzero GPIO write.
pub open spec fn gpio_led_states(events: Seq<Event>) -> Seq<bool> {
    events.map_values(|e: Event| e.value != 0)
}

/// `s` repeated `n` times.
pub open spec fn repeated<A>(s: Seq<A>, n: nat) -> Seq<A>
    decreases n,
{
    if n == 0 {
        Seq::empty()
    } else {
        repeated(s, (n - 1) as nat) + s
    }
}

/// The words of the built-in blink program.
pub fn blink_program() -> (p: Vec<u32>)
    ensures
        p@ == blink_program_spec(),
{
    let p = vec![LUI_X1_GPIO, ADDI_X2_ONE, SW_X2_GPIO_OUT, SW_ZERO_GPIO_OUT, EBREAK];
    assert(p@ =~= blink_program_spec());
    p
}

/// A RAM bus with the blink program loaded at address 0.
pub fn load_blink_program() -> (bus: RamBus<8>)
    ensures
        bus@ == blink_bus_spec(),
        RamBus::<8>::valid(bus@),
{
    let mut bus = RamBus::<8>::new();
    let program = blink_program();
    let mut index: usize = 0;
    while index < program.len()
        invariant
            program@ == blink_program_spec(),
            index <= 5,
            RamBus::<8>::valid(bus@),
            bus@.1 == 0,
            forall|j: int| 0 <= j < index ==> bus@.0[j] == program@[j],
            forall|j: int| index <= j < 8 ==> bus@.0[j] == 0,
        decreases program.len() - index,
    {
        let loaded = bus.load_word(index, program[index]);
        assert(loaded is Ok);
        index += 1;
    }
    assert(bus@.0 =~= blink_bus_spec().0);
    bus
}

/// Runs the built-in blink program to its end.
pub fn run_blink_program() -> (r: (Machine<RamBus<8>, 8>, StopReason))
    ensures
        r.0.valid(),
        (r.0@, r.1) == blink_run_spec(),
{
    let bus = load_blink_program();
    let mut machine = Machine::<RamBus<8>, 8>::new(bus);
    let reason = machine.run(RunLimit { max_cycles: BLINK_MAX_CYCLES });
    (machine, reason)
}

/// The LED states of `repetitions` runs of the blink program, one per GPIO write; empty as
/// soon as a run does not end at its `ebreak`.
pub fn blink_states(repetitions: usize) -> (states: Vec<bool>)
    ensures
        blink_run_spec().1 == StopReason::Ebreak ==> states@ == repeated(
            gpio_led_states(blink_run_spec().0.events),
            repetitions as nat,
        ),
        blink_run_spec().1 != StopReason::Ebreak ==> states@.len() == 0,
{
    let mut states: Vec<bool> = Vec::new();
    let mut done: usize = 0;
    while done < repetitions
        invariant
            done <= repetitions,
            blink_run_spec().1 != StopReason::Ebreak ==> done == 0,
            states@ == repeated(gpio_led_states(blink_run_spec().0.events), done as nat),
        decreases repetitions - done,
    {
        let (machine, reason) = run_blink_program();
        match reason {
            StopReason::Ebreak => {},
            _ => return states,
        }
        let events = machine.events();
        let ghost before = states@;
        let mut i: usize = 0;
        while i < events.len()
            invariant
                i <= events@.len(),
                events@ == blink_run_spec().0.events,
                states@ == before + gpio_led_states(events@.subrange(0, i as int)),
            decreases events.len() - i,
        {
            if events[i].kind == EventKind::GpioWrite {
                states.push(events[i].value != 0);
            }
            i += 1;
            assert(gpio_led_states(events@.subrange(0, i as int)) =~= gpio_led_states(
                events@.subrange(0, (i - 1) as int),
            ).push(events@[i - 1].value != 0));
            assert(states@ =~= before + gpio_led_states(events@.subrange(0, i as int)));
        }
        assert(events@.subrange(0, i as int) =~= events@);
        done += 1;
    }
    states
}


/// The board bus with a raw image at the start of flash.
pub open spec fn image_bus_spec(image: Seq<u8>) -> BoardBusState {
    let reset = board_reset_state(IMAGE_FLASH_BYTES as nat, IMAGE_RAM_BYTES as nat);
    BoardBusState {
        flash: image + reset.flash.subrange(image.len() as int, IMAGE_FLASH_BYTES as int),
        ..reset
    }
}

/// The run of a raw image: from reset, at most `max_cycles` cycles, `trace` events kept.
pub open spec fn image_run_spec(image: Seq<u8>, max_cycles: u64, trace: nat) -> (
    MachineState<BoardBusState>,
    StopReason,
) {
    run_spec::<ImageBus>(
        initial_state(image_bus_spec(image)),
        max_cycles,
        trace,
    )
}

/// How a run of a raw board image ended.
#[derive(Clone, Debug, PartialEq, Eq)]
pub struct ImageRun {
    pub reason: StopReason,
    pub pc: u32,
    pub cycles: u64,
    /// The first events of the run, oldest first.
    pub events: Vec<Event>,
}

/// Loads a raw board image into flash and runs it from address 0 for at most `max_cycles`
/// cycles, keeping the first `TRACE` events. An image larger than the flash is refused.
pub fn run_image<const TRACE: usize>(image: &[u8], max_cycles: u64) -> (r: Result<
    ImageRun,
    BusFault,
>)
    ensures
        image@.len() > IMAGE_FLASH_BYTES ==> r == Err::<ImageRun, BusFault>(
            BusFault::OutOfRange { address: (image@.len() % 0x1_0000_0000) as u32 },
        ),
        image@.len() <= IMAGE_FLASH_BYTES ==> (r matches Ok(run) && ({
            let (m, reason) = image_run_spec(image@, max_cycles, TRACE as nat);
            &&& run.reason == reason
            &&& run.pc == m.pc
            &&& run.cycles == m.cycles
            &&& run.events@ == m.events
        })),
{
    let mut bus = ImageBus::new();
    match bus.load_flash(image) {
        Ok(()) => {},
        Err(fault) => return Err(fault),
    }
    assert(bus@ == image_bus_spec(image@));
    let mut machine = Machine::<ImageBus, TRACE>::new(bus);
    let reason = machine.run(RunLimit { max_cycles });
    Ok(ImageRun { reason, pc: machine.pc(), cycles: machine.cycles(), events: machine.events() })
}

/// The board LED is on PD6 and active-low: it is lit exactly when PD6 is driven low.
pub open spec fn led_lit_spec(bus: BoardBusState) -> bool {
    bus.gpio_d.out & 0x40 == 0
}

/// `run_spec` on the image bus, with the LED state read after every step that recorded a write
/// to port D's set/reset register; the states come oldest first.
pub open spec fn led_run_spec(m: MachineState<BoardBusState>, max_cycles: u64, trace: nat) -> (
    MachineState<BoardBusState>,
    StopReason,
    Seq<bool>,
)
    decreases max_cycles - m.cycles,
{
    if m.cycles >= max_cycles {
        (m, StopReason::MaxCycles, Seq::empty())
    } else {
        let (m1, r) = step_spec::<ImageBus>(m, trace);
        let here = if m1.events.len() > m.events.len() && m1.events.last().address
            == GPIOD_BSHR {
            seq![led_lit_spec(m1.bus)]
        } else {
            Seq::empty()
        };
        if r != StopReason::Running {
            (m1, r, here)
        } else {
            proof {
                lemma_step_counts_cycle::<ImageBus>(m, trace);
            }
            let (m2, r2, rest) = led_run_spec(m1, max_cycles, trace);
            (m2, r2, here + rest)
        }
    }
}

/// Collecting the LED states does not change the run.
pub proof fn lemma_led_run_is_run(m: MachineState<BoardBusState>, max_cycles: u64, trace: nat)
    ensures
        led_run_spec(m, max_cycles, trace).0 == run_spec::<ImageBus>(m, max_cycles, trace).0,
        led_run_spec(m, max_cycles, trace).1 == run_spec::<ImageBus>(m, max_cycles, trace).1,
    decreases max_cycles - m.cycles,
{
    if m.cycles < max_cycles {
        let (m1, r) = step_spec::<ImageBus>(m, trace);
        lemma_step_counts_cycle::<ImageBus>(m, trace);
        if r == StopReason::Running {
            lemma_led_run_is_run(m1, max_cycles, trace);
        }
    }
}

/// Why no LED trace came out of an image.
#[derive(Clone, Copy, Debug, PartialEq, Eq)]
pub enum LedTraceError {
    /// The image did not fit in flash.
    Load(BusFault),
    /// The run wrote no LED state; how it ended.
    NoLedEvents { reason: StopReason, pc: u32, cycles: u64 },
}

/// Cycle budget for collecting the LED trace of an image.
pub const LED_TRACE_CYCLES: u64 = 80_000;

/// Number of events kept while collecting the LED trace of an image.
pub const LED_TRACE_EVENTS: usize = 64;

/// Runs an image for `LED_TRACE_CYCLES` cycles and returns the state of the board LED (lit
/// when PD6 is driven low) after each write to port D's set/reset register that the trace
/// kept.
pub fn image_led_states(image: &[u8]) -> (r: Result<Vec<bool>, LedTraceError>)
    ensures
        image@.len() > IMAGE_FLASH_BYTES ==> r == Err::<Vec<bool>, LedTraceError>(
            LedTraceError::Load(
                BusFault::OutOfRange { address: (image@.len() % 0x1_0000_0000) as u32 },
            ),
        ),
        image@.len() <= IMAGE_FLASH_BYTES ==> ({
            let (m, reason) = image_run_spec(image@, LED_TRACE_CYCLES, LED_TRACE_EVENTS as nat);
            let states = led_run_spec(
                initial_state(image_bus_spec(image@)),
                LED_TRACE_CYCLES,
                LED_TRACE_EVENTS as nat,
            ).2;
            &&& states.len() == 0 ==> r == Err::<Vec<bool>, LedTraceError>(
                LedTraceError::NoLedEvents { reason, pc: m.pc, cycles: m.cycles },
            )
            &&& states.len() > 0 ==> (r matches Ok(v) && v@ == states)
        }),
{
    let mut bus = ImageBus::new();
    match bus.load_flash(image) {
        Ok(()) => {},
        Err(fault) => return Err(LedTraceError::Load(fault)),
    }
    assert(bus@ == image_bus_spec(image@));
    let mut machine = Machine::<ImageBus, LED_TRACE_EVENTS>::new(bus);
    let ghost start = machine@;
    proof {
        lemma_led_run_is_run(start, LED_TRACE_CYCLES, LED_TRACE_EVENTS as nat);
    }
    let mut states: Vec<bool> = Vec::new();
    let mut reason = StopReason::MaxCycles;
    let mut done = false;
    while !done && machine.cycles() < LED_TRACE_CYCLES
        invariant
            machine.valid(),
            !done ==> reason == StopReason::MaxCycles,
            !done ==> ({
                let (mf, rf, sf) = led_run_spec(start, LED_TRACE_CYCLES, LED_TRACE_EVENTS as nat);
                let (mn, rn, sn) = led_run_spec(
                    machine@,
                    LED_TRACE_CYCLES,
                    LED_TRACE_EVENTS as nat,
                );
                &&& mf == mn
                &&& rf == rn
                &&& sf == states@ + sn
            }),
            done ==> (machine@, reason, states@) == led_run_spec(
                start,
                LED_TRACE_CYCLES,
                LED_TRACE_EVENTS as nat,
            ),
        decreases LED_TRACE_CYCLES - machine@.cycles + (if done {
            0int
        } else {
            1int
        }),
    {
        let ghost before = machine@;
        let ghost old_states = states@;
        let count = machine.event_count();
        let step_reason = machine.step();
        proof {
            lemma_step_counts_cycle::<ImageBus>(before, LED_TRACE_EVENTS as nat);
            crate::machine::lemma_step_stop_cycles::<ImageBus>(before, LED_TRACE_EVENTS as nat);
        }
        if machine.event_count() > count {
            match machine.last_event() {
                Some(event) => {
                    if event.address == GPIOD_BSHR {
                        states.push(machine.bus().gpio_d().out & 0x40 == 0);
                    }
                },
                None => {},
            }
        }
        assert(states@ =~= old_states + (if machine@.events.len() > before.events.len()
            && machine@.events.last().address == GPIOD_BSHR {
            seq![led_lit_spec(machine@.bus)]
        } else {
            Seq::<bool>::empty()
        }));
        if let StopReason::Running = step_reason {
        } else {
            reason = step_reason;
            done = true;
        }
    }
    if !done {
        assert(led_run_spec(machine@, LED_TRACE_CYCLES, LED_TRACE_EVENTS as nat).2 =~= Seq::<
            bool,
        >::empty());
        assert(states@ =~= states@ + Seq::<bool>::empty());
    }
    assert((machine@, reason, states@) == led_run_spec(
        start,
        LED_TRACE_CYCLES,
        LED_TRACE_EVENTS as nat,
    ));
    assert(start == initial_state(image_bus_spec(image@)));
    if states.len() == 0 {
        return Err(
            LedTraceError::NoLedEvents { reason, pc: machine.pc(), cycles: machine.cycles() },
        );
    }
    Ok(states)
}

/// The port a traced GPIO write went to.
pub fn event_port_name(address: u32) -> (name: &'static str)
    ensures
        name@ == (if address == GPIOC_BSHR {
            "GPIOC"@
        } else if address == GPIOD_BSHR {
            "GPIOD"@
        } else {
            "GPIO"@
        }),
{
    if address == GPIOC_BSHR {
        "GPIOC"
    } else if address == GPIOD_BSHR {
        "GPIOD"
    } else {
        "GPIO"
    }
}

/// What a traced GPIO write did: set bits (low half), else reset bits (high half), else a
/// plain write.
pub fn event_action(value: u32) -> (action: &'static str)
    ensures
        action@ == (if value % 0x1_0000 != 0 {
            "set"@
        } else if value / 0x1_0000 != 0 {
            "reset"@
        } else {
            "write"@
        }),
{
    if value % 0x1_0000 != 0 {
        "set"
    } else if value / 0x1_0000 != 0 {
        "reset"
    } else {
        "write"
    }
}

/// How the blink trace shows a GPIO write: the LED state and its mark, "off" and "." for a
/// zero value, "on" and "*" otherwise.
pub fn blink_event_marks(value: u32) -> (marks: (&'static str, &'static str))
    ensures
        value == 0 ==> marks.0@ == "off"@ && marks.1@ == "."@,
        value != 0 ==> marks.0@ == "on"@ && marks.1@ == "*"@,
{
    if value == 0 {
        ("off", ".")
    } else {
        ("on", "*")
    }
}

} // verus!
