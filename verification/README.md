# chip8

A CHIP-8 virtual machine verified with Verus.

- `src/semantics.rs`: the machine as a mathematical model (`Chip8State`) and
  the effect of each instruction (`next_state`), of a fetch-execute cycle
  (`cycle`) and of the timers (`timers_ticked`). An instruction's result is
  `None` exactly where the machine cannot carry it out.
- `src/emulator.rs`, `src/dispatch.rs`, `src/instructions.rs`: the executable
  emulator; every public function is proved against the model.
- `src/frame.rs`: one frame of a host loop and the keyboard layout.
- `src/laws.rs`: properties that span instructions (call/return, drawing a
  sprite twice, storing and loading registers, opposite skips, ...).
- `src/random.rs`: the random byte of Cxkk, from the `rand` crate.
- `app/`: the SDL2 front end with sound (rodio) and command line (clap).

A machine starts with the font at address 0, the program at 0x200 and pc at
0; the front end sets pc to 0x200 before running.
