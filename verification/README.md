# ppu

The picture processing unit of a SNES emulator, and the pieces of the
emulator core around it, written in Verus with their behaviour stated in
`requires` / `ensures` contracts and proved.

## Layout

- `src/` — the verified library.
  - `ppu.rs`, `registers.rs`, `vram.rs`, `cgram.rs`, `oam.rs`,
    `write_twice.rs`, `word.rs`, `color.rs`, `constants.rs`: the PPU's
    registers and memories, the CPU-side register window, and the beam
    timing (scanlines, V-Blank, frame parity).
  - `rendering/`: the scanline renderer (backgrounds in modes 0 and 1,
    sprites, colour math, brightness) over the PPU state.
  - `dma.rs`, `timing.rs`, `bus.rs`: the decisions of the emulator core:
    DMA/HDMA scheduling, auto-joypad reads, IRQ/NMI conditions, APU clock
    ratio, and the bus window of the PPU registers.
  - `tile_ppu.rs`, `tile.rs`, `tile_loader.rs`, `utils.rs`, `sprite.rs`:
    the tile viewer (an image split into 8x8 tiles, loaded into a byte
    VRAM and drawn with a grey palette).
  - `gui.rs`, `rom.rs`: controller buttons, input mapping and overlay
    routing of the front end, and the ROM information it shows.
  - `bitfield.rs`: reading named bit fields out of a value by a pattern
    of letters, with renames.
  - `product_order.rs`: combining per-component comparisons into a
    product-order verdict.
  - The public `lemma_*` proof functions state the library's laws.
- `tests/` — tests run against the compiled library.
- `app/` — the demo program: SDL2 and minifb windows, image decoding, and
  the main loop that drives the library.
