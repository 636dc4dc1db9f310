# chip8

The core of a CHIP-8 interpreter, written in Verus and verified.

- `src/instructions.rs`: opcodes, their decoding, and the semantics of every
  instruction over the machine state (`semantics`), with `execute` proved
  against it. Work that belongs to the screen, the timers or the key pad is
  handed back as an `Action`.
- `src/cpu.rs`: the registers, program counter and index register, and the
  machine state (`Machine`) that the contracts speak of.
- `src/ram.rs`: the 4 KiB heap, with wrap-round when overflow is allowed, and
  the call stack.
- `src/input.rs`: the key pad and the hand-over of a key press to a waiting
  program.
- `src/timer.rs`: the countdown of the delay and sound timers.
- `src/window.rs`: window geometry and the painting of a frame.
- `src/config.rs`: the settings and the CHIP-8 preset.

`app/` holds what is not verified: reading `config.toml`, the timer threads
and the sound, the window and its event loop.
