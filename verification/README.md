# psoxide

A PlayStation emulator core, written and verified in Verus. Every executable
function carries a contract that says what it returns and what it changes; the
contracts speak of plain mathematical states, and the laws of the machine are
proved from them.

- `src/` is the verified library.
  - `cpu/` is the processor: `state` and `semantics` say what each instruction
    does, `interpreter` does it, and `laws` states what holds of all programs
    (register 0 is always zero, loads and jumps are delayed, returning from an
    exception undoes its entry, and more).
  - `bus/` is main memory, the hardware registers, the DMA channels, and the
    start of a game from disc.
  - `gpu/` is the graphics processor: commands, video memory and the rasterizer.
  - `cdrom/` is the disc controller, with the cue sheet reader.
  - `timers`, `scheduler`, `sio` and `spu` are the other devices.
  - `basic/` has plain models of the timers and of the sound processor.
  - `text`, `word` and `arith` are shared helpers.
- `tests/` runs the library on concrete values.
- `app/` is the command line program around it.

Time is counted in processor cycles. Where a count can only overflow after
centuries of console time, the functions ask for the room they need instead of
checking for it.

Fast boot, which starts the game on the disc in place of the BIOS shell, is
switched on by `PSOXIDE_FAST_BOOT=1`.
