# gba_emu

A Game Boy Advance emulator core whose logic is verified with Verus: the
ARM7TDMI CPU (ARM and THUMB instruction sets, banked registers, exceptions), the
memory bus (memory map, mirrors, DMA, timers, keypad, flash save chip) and the
scanline renderer (text and affine backgrounds, bitmap modes, sprites, windows,
colour effects, scanline timing and interrupts). Every function in `src/` has a
contract that Verus proves; `app/` is the SDL front end that opens the window,
reads the ROM and BIOS images, forwards keys and shows frames.

## Layout

```
src/
├── bits.rs          — bit-level vocabulary and small bit-vector facts
├── cpu.rs           — register file; cpu/ holds flags, shifter, ALU, multiply,
│                      PSR transfer, branches, loads/stores, exceptions, the ARM
│                      decoder and the STM/LDM stack law
├── thumb.rs         — the THUMB instruction set; thumb_stack.rs the PUSH/POP law
├── memory_bus.rs    — memory map, little-endian accesses, DMA, timer registers;
│                      memory_bus/dma_copy.rs what a 32-bit DMA copy leaves
├── timer.rs         — hardware timers
├── flash.rs         — flash save chip command protocol
├── ppu.rs           — renderer state; ppu/ holds backgrounds, modes, sprites,
│                      window and compositor, blending, scanline and timing
├── system.rs        — one machine cycle: renderer tick, CPU fetch/execute and
│                      timer stepping
└── lcd.rs           — the LCD pixel-bleed blur applied to finished frames
tests/               — tests on concrete values
app/main.rs          — SDL window, input and the frame loop
```

## Running

Place `roms/pokemon.gba` and `bios.bin` next to the binary's working directory
and run the `app` crate.
