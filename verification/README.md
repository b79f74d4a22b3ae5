# claudioos

An emulator for the RV32EC One Dollar Computer, written in Verus: every function of the
library carries a contract and is proved against it.

## Layout

- `src/register.rs`, `src/fields.rs`, `src/instruction.rs`: RV32E registers, bit fields and
  sign extension, and the 32-bit instruction decoder (`decode` is exactly `decode_spec`).
- `src/compressed.rs`: field and immediate extraction for the compressed (C) encodings.
- `src/alu.rs`: ALU operations and branch conditions as arithmetic on words.
- `src/bus.rs`: the `Bus` trait: each implementation gives its state a view and specifies every
  access over it. `src/ram_bus.rs` and `src/board_bus.rs` are the two buses (a small word RAM
  with a GPIO latch, and the board's flash, RAM, GPIO ports, RCC, SysTick, serial capture and
  DMA).
- `src/machine.rs`: the hart. `step` is specified by `step_spec` (fetch, compressed or 32-bit
  execution), `run` by `run_spec`; the laws at the end of the file are proved over these.
- `src/board.rs`, `src/pinout.rs`, `src/project.rs`: the board target, its connector pinout and
  the project scope.
- `src/session.rs`, `src/text.rs`, `src/display.rs`, `src/image.rs`: what the command-line tool
  computes: the built-in blink run, running a raw board image, LED traces, pinout text, pixel
  compositing and the board picture.
- `app/`: the command-line tool and its window (`minifb`).
- `tests/`: tests of the library.
