use vstd::prelude::*;

use crate::constants::SCREEN_HEIGHT;
use crate::ppu::PPU;
use crate::rendering::bg1::{
    bg1_fetch_in_range, bg1_line_pixel, bg1_opaque, decode_2bpp, decode_2bpp_spec, line_with_bg1,
};
use crate::rendering::renderer::{brightness_rgb, row_masked, Renderer};

verus! {

impl Renderer {
    /// Renders BG1 of scanline `y` in mode 0 (2bpp tiles, palettes of 4
    /// colours): opaque pixels go straight to the framebuffer at the current
    /// brightness, and onto the main/sub screens where TM/TS enable BG1.
    pub fn render_scanline_mode0(&mut self, ppu: &PPU, y: usize)
        requires
            old(self).wf(),
            ppu.wf(),
            y < SCREEN_HEIGHT,
            bg1_fetch_in_range(ppu, y as int, 8),
        ensures
            final(self).wf(),
            row_masked(
                final(self).framebuffer@,
                old(self).framebuffer@,
                y as int,
                |x: int| bg1_opaque(ppu, x, y as int, 8),
                |x: int|
                    brightness_rgb(
                        bg1_line_pixel(ppu, x, y as int, 8).color,
                        old(self).current_brightness as int,
                    ),
            ),
            final(self).main_line@ == line_with_bg1(
                old(self).main_line@,
                ppu,
                y as int,
                8,
                ppu.regs.tm % 2 == 1,
            ),
            final(self).sub_line@ == line_with_bg1(
                old(self).sub_line@,
                ppu,
                y as int,
                8,
                ppu.regs.ts % 2 == 1,
            ),
            final(self).presented@ == old(self).presented@,
            final(self).current_brightness == old(self).current_brightness,
            final(self).brightness_delay == old(self).brightness_delay,
    {
        self.render_bg1_line(ppu, y, 8);
    }

    /// Colour index (0-3) of pixel (x, y) of the 2bpp tile whose rows start at
    /// word `tile_word_base`.
    pub fn decode_2bpp_tile_pixel_from(vram: &[u16], tile_word_base: usize, x: usize, y: usize) -> (r: u8)
        requires
            x < 8,
            tile_word_base + y < vram@.len(),
        ensures
            r == decode_2bpp_spec(vram@, tile_word_base as int, x as int, y as int),
            r < 4,
    {
        decode_2bpp(vram, tile_word_base, x, y)
    }
}

} // verus!
