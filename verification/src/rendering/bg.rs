use vstd::prelude::*;

use crate::constants::{SCREEN_HEIGHT, SCREEN_WIDTH};
use crate::ppu::PPU;
use crate::rendering::bg1::{
    decode_2bpp, decode_2bpp_spec, decode_4bpp, decode_4bpp_spec, entry_palette, entry_priority,
    entry_tile,
};
use crate::rendering::renderer::{deposit_spec, BgParams, LinePixel, Renderer};

verus! {

/// Tilemap width (or height) in pixels: 512 for a 64-tile map, 256 otherwise.
pub open spec fn map_size(wide: bool) -> int {
    if wide {
        512
    } else {
        256
    }
}

/// Scrolled tilemap column of screen pixel x: scrolling wraps inside the map.
pub open spec fn bg_px(p: &BgParams, x: int) -> int {
    (x + p.scroll_x) % map_size(p.w64)
}

/// Scrolled tilemap row of scanline y.
pub open spec fn bg_py(p: &BgParams, y: int) -> int {
    (y + p.scroll_y) % map_size(p.h64)
}

/// Tilemap word holding the entry of pixel (x, y): maps larger than 32x32
/// tiles are made of 0x400-word 32x32 screens, laid out left to right then
/// top to bottom.
pub open spec fn bg_map_addr(p: &BgParams, x: int, y: int) -> int {
    let tile_col = bg_px(p, x) / 8;
    let tile_row = bg_py(p, y) / 8;
    let screens_wide = if p.w64 {
        2int
    } else {
        1int
    };
    let screen = (tile_row / 32) * screens_wide + tile_col / 32;
    p.tilemap_base + screen * 0x400 + (tile_row % 32) * 32 + tile_col % 32
}

/// Words per tile: 8 for 2bpp, 16 otherwise.
pub open spec fn bg_tile_words(p: &BgParams) -> int {
    if p.bpp == 2 {
        8
    } else {
        16
    }
}

/// Tilemap entry of pixel (x, y).
pub open spec fn bg_entry(ppu: &PPU, p: &BgParams, x: int, y: int) -> u16 {
    ppu.vram.memory@[bg_map_addr(p, x, y)]
}

/// First word of the tile of pixel (x, y).
pub open spec fn bg_tile_base(ppu: &PPU, p: &BgParams, x: int, y: int) -> int {
    p.tiledata_base + entry_tile(bg_entry(ppu, p, x, y)) * bg_tile_words(p)
}

/// Column inside the tile of pixel x, after the entry's horizontal flip.
pub open spec fn bg_fx(ppu: &PPU, p: &BgParams, x: int, y: int) -> int {
    let fine_x = bg_px(p, x) % 8;
    if (bg_entry(ppu, p, x, y) as int / 0x4000) % 2 == 1 {
        7 - fine_x
    } else {
        fine_x
    }
}

/// Row inside the tile of pixel (x, y), after the entry's vertical flip.
pub open spec fn bg_fy(ppu: &PPU, p: &BgParams, x: int, y: int) -> int {
    let fine_y = bg_py(p, y) % 8;
    if bg_entry(ppu, p, x, y) >= 0x8000 {
        7 - fine_y
    } else {
        fine_y
    }
}

/// Colour index of pixel (x, y).
pub open spec fn bg_color_index(ppu: &PPU, p: &BgParams, x: int, y: int) -> u8 {
    if p.bpp == 2 {
        decode_2bpp_spec(ppu.vram.memory@, bg_tile_base(ppu, p, x, y), bg_fx(ppu, p, x, y), bg_fy(ppu, p, x, y))
    } else {
        decode_4bpp_spec(ppu.vram.memory@, bg_tile_base(ppu, p, x, y), bg_fx(ppu, p, x, y), bg_fy(ppu, p, x, y))
    }
}

/// CGRAM entry of pixel (x, y): the layer's palette base, plus the palette
/// (in blocks of 4 colours for 2bpp, 16 otherwise), plus the colour index.
pub open spec fn bg_palette_entry(ppu: &PPU, p: &BgParams, x: int, y: int) -> int {
    let shift_size = if p.bpp == 2 {
        4int
    } else {
        16int
    };
    p.palette_base + entry_palette(bg_entry(ppu, p, x, y)) * shift_size + bg_color_index(ppu, p, x, y)
}

/// Line pixel the layer contributes at (x, y).
pub open spec fn bg_line_pixel(ppu: &PPU, p: &BgParams, x: int, y: int) -> LinePixel {
    LinePixel {
        color: ppu.cgram.memory@[bg_palette_entry(ppu, p, x, y)],
        z: if entry_priority(bg_entry(ppu, p, x, y)) {
            p.z_high
        } else {
            p.z_low
        },
        layer: p.layer,
        obj_math: false,
    }
}

/// A screen line after the layer's opaque pixels of scanline y are deposited
/// on it, when the layer is enabled on that screen, except in the columns of
/// the layer's window when the window applies to that screen (`win`).
pub open spec fn line_with_bg(
    line: Seq<LinePixel>,
    ppu: &PPU,
    p: &BgParams,
    y: int,
    enabled: bool,
    win: bool,
) -> Seq<LinePixel> {
    Seq::new(
        line.len(),
        |x: int|
            if enabled && !(win && p.window@[x]) && bg_color_index(ppu, p, x, y) != 0 {
                deposit_spec(line[x], bg_line_pixel(ppu, p, x, y))
            } else {
                line[x]
            },
    )
}

/// Which tile pixel a layer shows at (x, y): the tile the entry names (bits
/// 0-9), whose data starts `tile * 8` words (2bpp) or `tile * 16` words after
/// the tile data base; inside it the column is `7 - fine_x` when the
/// horizontal flip bit (14) is set and `fine_x` otherwise, and the row is
/// `7 - fine_y` when the vertical flip bit (15) is set and `fine_y`
/// otherwise, where `fine_x`/`fine_y` are the scrolled position inside the
/// 8x8 cell. So a flipped tile shows its columns (rows) mirrored.
pub proof fn lemma_bg_horizontal_flip(ppu: &PPU, p: &BgParams, x: int, y: int)
    ensures
        ({
            let entry = bg_entry(ppu, p, x, y);
            let width: int = if p.w64 {
                512
            } else {
                256
            };
            let fine_x = ((x + p.scroll_x) % width) % 8;
            let col = if entry & 0x4000 != 0 {
                7 - fine_x
            } else {
                fine_x
            };
            let height: int = if p.h64 {
                512
            } else {
                256
            };
            let fine_y = ((y + p.scroll_y) % height) % 8;
            let row = if entry & 0x8000 != 0 {
                7 - fine_y
            } else {
                fine_y
            };
            let words: int = if p.bpp == 2 {
                8
            } else {
                16
            };
            let base = p.tiledata_base + (entry & 0x03FF) * words;
            bg_color_index(ppu, p, x, y) == if p.bpp == 2 {
                decode_2bpp_spec(ppu.vram.memory@, base, col, row)
            } else {
                decode_4bpp_spec(ppu.vram.memory@, base, col, row)
            }
        }),
{
    crate::bits::lemma_tilemap_entry(bg_entry(ppu, p, x, y));
}

/// What rendering a layer does to column `x` of a screen line: where the
/// layer is enabled on that screen, the column is not masked by the layer's
/// window there, and the layer's colour index `c` at (x, y) is not 0, the
/// line takes (by depth) a pixel coloured from CGRAM entry `palette_base +
/// palette * 4 + c` (2bpp) or `palette_base + palette * 16 + c` (4bpp), with
/// the palette from entry bits 10-12, at depth `z_high` when the entry's
/// priority bit (13) is set and `z_low` otherwise; elsewhere the column
/// keeps what it had.
pub proof fn lemma_bg_pixel_colour(
    line: Seq<LinePixel>,
    ppu: &PPU,
    p: &BgParams,
    y: int,
    enabled: bool,
    win: bool,
    x: int,
)
    requires
        0 <= x < line.len(),
    ensures
        ({
            let entry = bg_entry(ppu, p, x, y);
            let c = bg_color_index(ppu, p, x, y);
            let palette = ((entry >> 10) & 0x07) as int;
            let colours: int = if p.bpp == 2 {
                4
            } else {
                16
            };
            line_with_bg(line, ppu, p, y, enabled, win)[x] == if enabled && !(win && p.window@[x])
                && c != 0 {
                deposit_spec(
                    line[x],
                    LinePixel {
                        color: ppu.cgram.memory@[p.palette_base + palette * colours + c],
                        z: if entry & 0x2000 != 0 {
                            p.z_high
                        } else {
                            p.z_low
                        },
                        layer: p.layer,
                        obj_math: false,
                    },
                )
            } else {
                line[x]
            }
        }),
{
    crate::bits::lemma_tilemap_entry(bg_entry(ppu, p, x, y));
}

/// Every fetch of scanline `y` stays inside VRAM, and every opaque pixel's
/// CGRAM entry fits a byte.
pub open spec fn bg_fetch_in_range(ppu: &PPU, p: &BgParams, y: int) -> bool {
    &&& p.scroll_x + SCREEN_WIDTH <= usize::MAX
    &&& y + p.scroll_y <= usize::MAX
    &&& forall|x: int|
        0 <= x < SCREEN_WIDTH ==> {
            &&& #[trigger] bg_map_addr(p, x, y) < 0x8000
            &&& bg_tile_base(ppu, p, x, y) + bg_tile_words(p) / 2 + bg_fy(ppu, p, x, y) < 0x8000
            &&& bg_color_index(ppu, p, x, y) != 0 ==> bg_palette_entry(ppu, p, x, y) < 256
        }
}

/// Fetches pixel (x, y) of a layer: colour index, CGRAM entry (when opaque)
/// and priority.
fn bg_pixel(ppu: &PPU, p: &BgParams, x: usize, y: usize) -> (r: (u8, u8, bool))
    requires
        ppu.wf(),
        x < SCREEN_WIDTH,
        y < SCREEN_HEIGHT,
        p.scroll_x + SCREEN_WIDTH <= usize::MAX,
        y + p.scroll_y <= usize::MAX,
        bg_map_addr(p, x as int, y as int) < 0x8000,
        bg_tile_base(ppu, p, x as int, y as int) + bg_tile_words(p) / 2 + bg_fy(ppu, p, x as int, y as int) < 0x8000,
        bg_color_index(ppu, p, x as int, y as int) != 0 ==> bg_palette_entry(ppu, p, x as int, y as int) < 256,
    ensures
        r.0 == bg_color_index(ppu, p, x as int, y as int),
        r.0 != 0 ==> r.1 == bg_palette_entry(ppu, p, x as int, y as int),
        r.2 == entry_priority(bg_entry(ppu, p, x as int, y as int)),
{
    let map_w: usize = if p.w64 {
        512
    } else {
        256
    };
    let map_h: usize = if p.h64 {
        512
    } else {
        256
    };
    let screens_wide: usize = if p.w64 {
        2
    } else {
        1
    };

    let (tile_words, pal_shift) = if p.bpp == 2 {
        (8usize, 2u8)
    } else {
        (16, 4)
    };

    let sx = x + p.scroll_x;
    let sy = y + p.scroll_y;
    proof {
        crate::bits::lemma_coord_bits(sx);
        crate::bits::lemma_coord_bits(sy);
    }
    let px = sx & (map_w - 1);
    let py = sy & (map_h - 1);

    proof {
        crate::bits::lemma_coord_bits(px);
        crate::bits::lemma_coord_bits(py);
    }
    let tile_col = px >> 3;
    let tile_row = py >> 3;
    let fine_x = px & 7;
    let fine_y = py & 7;
    proof {
        crate::bits::lemma_coord_bits(tile_row);
        crate::bits::lemma_coord_bits(tile_col);
    }

    // Pick the 0x400-word sub-screen for maps larger than 32x32.
    let screen = (tile_row >> 5) * screens_wide + (tile_col >> 5);
    let map_word_addr = p.tilemap_base as usize + screen * 0x400 + (tile_row & 0x1F) * 32 + (
    tile_col & 0x1F);

    let entry = ppu.vram.memory[map_word_addr];
    let tile_index = entry & 0x03FF;  // bits 9:0
    let palette_num = ((entry >> 10) & 0x07) as u8;  // bits 12:10
    let priority = (entry & 0x2000) != 0;  // bit 13
    let flip_x = (entry & 0x4000) != 0;  // bit 14
    let flip_y = (entry & 0x8000) != 0;  // bit 15
    proof {
        crate::bits::lemma_tilemap_entry(entry);
    }

    let fx = if flip_x {
        7 - fine_x
    } else {
        fine_x
    };
    let fy = if flip_y {
        7 - fine_y
    } else {
        fine_y
    };

    let tile_word_base = p.tiledata_base as usize + tile_index as usize * tile_words;
    let color_index = if p.bpp == 2 {
        decode_2bpp(ppu.vram.memory.as_slice(), tile_word_base, fx, fy)
    } else {
        decode_4bpp(ppu.vram.memory.as_slice(), tile_word_base, fx, fy)
    };

    // Transparent pixel: no CGRAM entry is needed
    if color_index == 0 {
        return (0, 0, priority);
    }
    assert(palette_num << pal_shift == palette_num * (if pal_shift == 2 {
        4u8
    } else {
        16u8
    })) by (bit_vector)
        requires
            palette_num < 8,
            pal_shift == 2 || pal_shift == 4,
    ;
    let palette_entry = p.palette_base + (palette_num << pal_shift) + color_index;
    (color_index, palette_entry, priority)
}

impl Renderer {
    /// Render one BG layer for one scanline into the main and/or sub screen.
    ///
    /// Each opaque pixel is deposited on the main screen when the layer is
    /// enabled there (TM), and on the sub screen when enabled there (TS);
    /// inside the layer's window it is left off the main screen when TMW
    /// enables the window there, and off the sub screen when TSW does.
    pub fn render_bg_scanline(&mut self, ppu: &PPU, y: usize, p: &BgParams)
        requires
            old(self).wf(),
            ppu.wf(),
            y < SCREEN_HEIGHT,
            bg_fetch_in_range(ppu, p, y as int),
        ensures
            final(self).wf(),
            final(self).main_line@ == line_with_bg(old(self).main_line@, ppu, p, y as int, p.to_main, p.win_main),
            final(self).sub_line@ == line_with_bg(old(self).sub_line@, ppu, p, y as int, p.to_sub, p.win_sub),
            final(self).framebuffer@ == old(self).framebuffer@,
            final(self).presented@ == old(self).presented@,
            final(self).current_brightness == old(self).current_brightness,
            final(self).brightness_delay == old(self).brightness_delay,
    {
        let ghost main0 = self.main_line@;
        let ghost sub0 = self.sub_line@;
        let mut x: usize = 0;
        while x < SCREEN_WIDTH
            invariant
                x <= SCREEN_WIDTH,
                y < SCREEN_HEIGHT,
                self.wf(),
                ppu.wf(),
                bg_fetch_in_range(ppu, p, y as int),
                self.framebuffer@ == old(self).framebuffer@,
                self.current_brightness == old(self).current_brightness,
                self.brightness_delay == old(self).brightness_delay,
                self.presented@ == old(self).presented@,
                main0 == old(self).main_line@,
                sub0 == old(self).sub_line@,
                main0.len() == SCREEN_WIDTH,
                sub0.len() == SCREEN_WIDTH,
                forall|k: int|
                    0 <= k < SCREEN_WIDTH ==> #[trigger] self.main_line@[k] == if k < x {
                        line_with_bg(main0, ppu, p, y as int, p.to_main, p.win_main)[k]
                    } else {
                        main0[k]
                    },
                forall|k: int|
                    0 <= k < SCREEN_WIDTH ==> #[trigger] self.sub_line@[k] == if k < x {
                        line_with_bg(sub0, ppu, p, y as int, p.to_sub, p.win_sub)[k]
                    } else {
                        sub0[k]
                    },
            decreases SCREEN_WIDTH - x,
        {
            assert(bg_map_addr(p, x as int, y as int) < 0x8000);
            let (color_index, palette_entry, priority) = bg_pixel(ppu, p, x, y);

            // Transparent pixel -> do nothing
            if color_index != 0 {
                let color = ppu.cgram.read(palette_entry);
                let z = if priority {
                    p.z_high
                } else {
                    p.z_low
                };

                let pixel = LinePixel { color, z, layer: p.layer, obj_math: false };

                // Window removes the layer per-screen where TMW/TSW enable it
                let masked = p.window[x];
                if p.to_main && !(p.win_main && masked) {
                    Self::deposit(&mut self.main_line, x, pixel);
                }
                if p.to_sub && !(p.win_sub && masked) {
                    Self::deposit(&mut self.sub_line, x, pixel);
                }
            }
            x += 1;
        }
        assert(self.main_line@ =~= line_with_bg(main0, ppu, p, y as int, p.to_main, p.win_main));
        assert(self.sub_line@ =~= line_with_bg(sub0, ppu, p, y as int, p.to_sub, p.win_sub));
    }
}

} // verus!
