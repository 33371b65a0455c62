# ate_chip

A CHIP-8 interpreter whose core carries machine-checked proofs of its contracts.

- `src/machine.rs` — the model: the interpreter state (`EmuState`), what each
  instruction does (`exec_spec`), when an instruction can run (`oper_ok`) and
  one timed update step (`tick_spec`).
- `src/emulator.rs` — `ACEmulator` and its display buffer `ACRenderer`, proved
  against the model.
- `src/frame.rs`, `src/ansi.rs` — the frame's text form, coloured through
  `owo_colors`, and its 24-bit RGB form.
- `src/keyboard.rs` — the keypad and the keyboard layout.
- `src/screen.rs` — a stand-alone screen with per-pixel flips.
- `src/laws.rs` — properties across instructions and histories (redrawing
  erases a sprite, a call, balanced calls and returns, and a return come back
  where they started, storing and loading registers round-trips, the tone
  follows the last timer period, a key is held iff its last event was a press, ...).
- `app/main.rs` — the SDL program around the library.
