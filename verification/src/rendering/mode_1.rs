use vstd::prelude::*;

use crate::constants::SCREEN_HEIGHT;
use crate::ppu::PPU;
use crate::rendering::bg1::{
    bg1_fetch_in_range, bg1_line_pixel, bg1_opaque, decode_4bpp, decode_4bpp_spec, line_with_bg1,
};
use crate::rendering::renderer::{brightness_rgb, row_masked, Renderer};

verus! {

/// Mode 1 background rendering (4bpp tiles, palettes of 16 colours).
pub trait Mode1Render: Sized {
    /// What rendering scanline `y` of `ppu` in mode 1 asks of the renderer.
    spec fn mode1_ready(&self, ppu: &PPU, y: usize) -> bool;

    /// How the renderer `after` relates to `before` once scanline `y` of
    /// `ppu` is rendered in mode 1.
    spec fn mode1_rendered(&self, before: &Self, ppu: &PPU, y: usize) -> bool;

    /// Renders BG1 of scanline `y` in mode 1.
    fn render_scanline_mode1(&mut self, ppu: &PPU, y: usize)
        requires
            old(self).mode1_ready(ppu, y),
        ensures
            final(self).mode1_rendered(old(self), ppu, y),
    ;

    /// Colour index (0-15) of pixel (x, y) of the 4bpp tile whose rows start
    /// at word `tile_word_base`.
    fn decode_4bpp_tile_pixel_from(vram: &[u16], tile_word_base: usize, x: usize, y: usize) -> (r: u8)
        requires
            x < 8,
            tile_word_base + 8 + y < vram@.len(),
        ensures
            r == decode_4bpp_spec(vram@, tile_word_base as int, x as int, y as int),
            r < 16,
    ;
}

impl Mode1Render for Renderer {
    open spec fn mode1_ready(&self, ppu: &PPU, y: usize) -> bool {
        &&& self.wf()
        &&& ppu.wf()
        &&& y < SCREEN_HEIGHT
        &&& bg1_fetch_in_range(ppu, y as int, 16)
    }

    /// Opaque BG1 pixels go straight to the framebuffer at the current
    /// brightness, and onto the main/sub screens where TM/TS enable BG1.
    open spec fn mode1_rendered(&self, before: &Self, ppu: &PPU, y: usize) -> bool {
        &&& self.wf()
        &&& row_masked(
            self.framebuffer@,
            before.framebuffer@,
            y as int,
            |x: int| bg1_opaque(ppu, x, y as int, 16),
            |x: int|
                brightness_rgb(
                    bg1_line_pixel(ppu, x, y as int, 16).color,
                    before.current_brightness as int,
                ),
        )
        &&& self.main_line@ == line_with_bg1(before.main_line@, ppu, y as int, 16, ppu.regs.tm % 2 == 1)
        &&& self.sub_line@ == line_with_bg1(before.sub_line@, ppu, y as int, 16, ppu.regs.ts % 2 == 1)
        &&& self.presented@ == before.presented@
        &&& self.current_brightness == before.current_brightness
        &&& self.brightness_delay == before.brightness_delay
    }

    fn render_scanline_mode1(&mut self, ppu: &PPU, y: usize) {
        self.render_bg1_line(ppu, y, 16);
    }

    fn decode_4bpp_tile_pixel_from(vram: &[u16], tile_word_base: usize, x: usize, y: usize) -> (r: u8) {
        decode_4bpp(vram, tile_word_base, x, y)
    }
}

} // verus!
