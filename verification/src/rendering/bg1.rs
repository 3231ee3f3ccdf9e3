use vstd::prelude::*;

use crate::constants::{SCREEN_HEIGHT, SCREEN_WIDTH};
use crate::ppu::PPU;
use crate::registers::{tilemap_addr_spec, PPURegisters};
use crate::rendering::renderer::{
    brightness_rgb, deposit_spec, lemma_row_masked_step, row_masked, row_prefix_masked,
    LinePixel, Layer, Renderer, Z_BG1_HIGH, Z_BG1_LOW,
};
use crate::word::{hi, hi_spec, lo, lo_spec};

verus! {

/// Bit `x` (0 = leftmost, bit 7) of one bitplane byte.
pub open spec fn tile_bit(plane: u8, x: int) -> u8 {
    (plane >> ((7 - x) as u8)) & 1
}

/// Colour index of pixel (x, y) of a 2bpp tile whose rows start at word
/// `base`: plane 0 in the low byte, plane 1 in the high byte of each row word.
pub open spec fn decode_2bpp_spec(vram: Seq<u16>, base: int, x: int, y: int) -> u8 {
    let w = vram[base + y];
    tile_bit(lo_spec(w), x) | (tile_bit(hi_spec(w), x) << 1u8)
}

/// Colour index of pixel (x, y) of a 4bpp tile whose rows start at word
/// `base`: planes 0/1 in words 0-7, planes 2/3 in words 8-15.
pub open spec fn decode_4bpp_spec(vram: Seq<u16>, base: int, x: int, y: int) -> u8 {
    let w01 = vram[base + y];
    let w23 = vram[base + 8 + y];
    tile_bit(lo_spec(w01), x) | (tile_bit(hi_spec(w01), x) << 1u8) | (tile_bit(lo_spec(w23), x)
        << 2u8) | (tile_bit(hi_spec(w23), x) << 3u8)
}

/// The scrolled tilemap position of BG1 pixel (x, y): scrolling wraps inside
/// the 256x256 tilemap.
pub open spec fn bg1_px(regs: PPURegisters, x: int) -> int {
    (x + regs.bg1hofs) % 256
}

/// The scrolled tilemap row of BG1 scanline y.
pub open spec fn bg1_py(regs: PPURegisters, y: int) -> int {
    (y + regs.bg1vofs) % 256
}

/// The tilemap word that holds the entry of BG1 pixel (x, y).
pub open spec fn bg1_map_addr(regs: PPURegisters, x: int, y: int) -> int {
    tilemap_addr_spec(regs.bgsc[0]) + (bg1_py(regs, y) / 8) * 32 + bg1_px(regs, x) / 8
}

/// Tile number of a tilemap entry (bits 9-0).
pub open spec fn entry_tile(entry: u16) -> int {
    entry as int % 0x400
}

/// Palette number of a tilemap entry (bits 12-10).
pub open spec fn entry_palette(entry: u16) -> int {
    (entry as int / 0x400) % 8
}

/// Priority bit of a tilemap entry (bit 13).
pub open spec fn entry_priority(entry: u16) -> bool {
    (entry as int / 0x2000) % 2 == 1
}

/// Column inside the tile of BG1 pixel x, after the entry's horizontal flip (bit 14).
pub open spec fn bg1_fx(regs: PPURegisters, entry: u16, x: int) -> int {
    let fine_x = bg1_px(regs, x) % 8;
    if (entry as int / 0x4000) % 2 == 1 {
        7 - fine_x
    } else {
        fine_x
    }
}

/// Row inside the tile of BG1 scanline y, after the entry's vertical flip (bit 15).
pub open spec fn bg1_fy(regs: PPURegisters, entry: u16, y: int) -> int {
    let fine_y = bg1_py(regs, y) % 8;
    if entry >= 0x8000 {
        7 - fine_y
    } else {
        fine_y
    }
}

/// The tilemap entry of BG1 pixel (x, y).
pub open spec fn bg1_entry(ppu: &PPU, x: int, y: int) -> u16 {
    ppu.vram.memory@[bg1_map_addr(ppu.regs, x, y)]
}

/// First word of the BG1 tile of pixel (x, y), with `tile_words` words per
/// tile (8 for 2bpp, 16 for 4bpp).
pub open spec fn bg1_tile_base(ppu: &PPU, x: int, y: int, tile_words: int) -> int {
    (ppu.regs.bg12nba % 16) * 0x1000 + entry_tile(bg1_entry(ppu, x, y)) * tile_words
}

/// Every BG1 fetch of scanline `y` stays inside VRAM: the tilemap entry and
/// the tile row the pixel uses (and, for 4bpp, the second plane pair).
pub open spec fn bg1_fetch_in_range(ppu: &PPU, y: int, tile_words: int) -> bool {
    forall|x: int|
        0 <= x < 256 ==> {
            &&& #[trigger] bg1_map_addr(ppu.regs, x, y) < 0x8000
            &&& bg1_tile_base(ppu, x, y, tile_words) + tile_words / 2 + bg1_fy(
                ppu.regs,
                bg1_entry(ppu, x, y),
                y,
            ) < 0x8000
        }
}

/// Colour index of BG1 pixel (x, y) in 2bpp (`tile_words` 8) or 4bpp (16).
pub open spec fn bg1_color_index(ppu: &PPU, x: int, y: int, tile_words: int) -> u8 {
    let entry = bg1_entry(ppu, x, y);
    let base = bg1_tile_base(ppu, x, y, tile_words);
    if tile_words == 8 {
        decode_2bpp_spec(ppu.vram.memory@, base, bg1_fx(ppu.regs, entry, x), bg1_fy(ppu.regs, entry, y))
    } else {
        decode_4bpp_spec(ppu.vram.memory@, base, bg1_fx(ppu.regs, entry, x), bg1_fy(ppu.regs, entry, y))
    }
}

/// Which tile pixel BG1 shows at (x, y): the tile the entry names (bits
/// 0-9), at `tile * tile_words` words after the BG1 tile data base; inside
/// it the column is `7 - fine_x` when the horizontal flip bit (14) is set
/// and `fine_x` otherwise, and the row is `7 - fine_y` when the vertical
/// flip bit (15) is set and `fine_y` otherwise, where `fine_x`/`fine_y` are
/// the scrolled position inside the 8x8 cell.
pub proof fn lemma_bg1_flips(ppu: &PPU, x: int, y: int, tile_words: int)
    ensures
        ({
            let entry = bg1_entry(ppu, x, y);
            let fine_x = ((x + ppu.regs.bg1hofs) % 256) % 8;
            let fine_y = ((y + ppu.regs.bg1vofs) % 256) % 8;
            let col = if entry & 0x4000 != 0 {
                7 - fine_x
            } else {
                fine_x
            };
            let row = if entry & 0x8000 != 0 {
                7 - fine_y
            } else {
                fine_y
            };
            let base = (ppu.regs.bg12nba % 16) * 0x1000 + (entry & 0x03FF) * tile_words;
            bg1_color_index(ppu, x, y, tile_words) == if tile_words == 8 {
                decode_2bpp_spec(ppu.vram.memory@, base, col, row)
            } else {
                decode_4bpp_spec(ppu.vram.memory@, base, col, row)
            }
        }),
{
    crate::bits::lemma_tilemap_entry(bg1_entry(ppu, x, y));
}

/// CGRAM entry of BG1 pixel (x, y): in 2bpp palettes of 4 colours, in 4bpp
/// palettes of 16.
pub open spec fn bg1_palette_entry(ppu: &PPU, x: int, y: int, tile_words: int) -> int {
    let pal = entry_palette(bg1_entry(ppu, x, y));
    let ci = bg1_color_index(ppu, x, y, tile_words) as int;
    if tile_words == 8 {
        pal * 4 + ci
    } else {
        pal * 16 + ci
    }
}

/// The line pixel BG1 contributes at (x, y).
pub open spec fn bg1_line_pixel(ppu: &PPU, x: int, y: int, tile_words: int) -> LinePixel {
    LinePixel {
        color: ppu.cgram.memory@[bg1_palette_entry(ppu, x, y, tile_words)],
        z: if entry_priority(bg1_entry(ppu, x, y)) {
            Z_BG1_HIGH
        } else {
            Z_BG1_LOW
        },
        layer: Layer::Bg1,
        obj_math: false,
    }
}

/// Whether BG1 pixel (x, y) is opaque (colour index other than 0).
pub open spec fn bg1_opaque(ppu: &PPU, x: int, y: int, tile_words: int) -> bool {
    bg1_color_index(ppu, x, y, tile_words) != 0
}

/// A screen line after BG1's opaque pixels of scanline y are deposited on
/// it, when BG1 is enabled on that screen.
pub open spec fn line_with_bg1(
    line: Seq<LinePixel>,
    ppu: &PPU,
    y: int,
    tile_words: int,
    enabled: bool,
) -> Seq<LinePixel> {
    Seq::new(
        line.len(),
        |x: int|
            if enabled && bg1_opaque(ppu, x, y, tile_words) {
                deposit_spec(line[x], bg1_line_pixel(ppu, x, y, tile_words))
            } else {
                line[x]
            },
    )
}

/// Colour index of a pixel of a 2bpp tile.
pub fn decode_2bpp(vram: &[u16], tile_word_base: usize, x: usize, y: usize) -> (r: u8)
    requires
        x < 8,
        tile_word_base + y < vram@.len(),
    ensures
        r == decode_2bpp_spec(vram@, tile_word_base as int, x as int, y as int),
        r < 4,
{
    let n = vram.len();
    // Planes 0+1: words 0-7
    let w = vram[tile_word_base + y];
    let p0 = lo(w);
    let p1 = hi(w);

    let bit = (7 - x) as u8;
    let r = ((p0 >> bit) & 1) | (((p1 >> bit) & 1) << 1);
    assert(r < 4) by (bit_vector)
        requires
            r == ((p0 >> bit) & 1) | (((p1 >> bit) & 1) << 1),
    ;
    r
}

/// Colour index of a pixel of a 4bpp tile.
pub fn decode_4bpp(vram: &[u16], tile_word_base: usize, x: usize, y: usize) -> (r: u8)
    requires
        x < 8,
        tile_word_base + 8 + y < vram@.len(),
    ensures
        r == decode_4bpp_spec(vram@, tile_word_base as int, x as int, y as int),
        r < 16,
{
    let n = vram.len();
    // Planes 0+1: words 0-7
    let w01 = vram[tile_word_base + y];
    let p0 = lo(w01);  // lo byte = plane 0
    let p1 = hi(w01);  // hi byte = plane 1

    // Planes 2+3: words 8-15
    let w23 = vram[tile_word_base + 8 + y];
    let p2 = lo(w23);  // lo byte = plane 2
    let p3 = hi(w23);  // hi byte = plane 3

    let bit = (7 - x) as u8;
    let r = ((p0 >> bit) & 1) | (((p1 >> bit) & 1) << 1) | (((p2 >> bit) & 1) << 2) | (((p3 >> bit)
        & 1) << 3);
    assert(r < 16) by (bit_vector)
        requires
            r == ((p0 >> bit) & 1) | (((p1 >> bit) & 1) << 1) | (((p2 >> bit) & 1) << 2) | (((p3
                >> bit) & 1) << 3),
    ;
    r
}

/// Fetches BG1 pixel (x, y): its colour index, CGRAM entry and priority.
fn bg1_pixel(ppu: &PPU, x: usize, y: usize, tile_words: usize) -> (r: (u8, u8, bool))
    requires
        ppu.wf(),
        x < SCREEN_WIDTH,
        y < SCREEN_HEIGHT,
        tile_words == 8 || tile_words == 16,
        bg1_map_addr(ppu.regs, x as int, y as int) < 0x8000,
        bg1_tile_base(ppu, x as int, y as int, tile_words as int) + tile_words / 2 + bg1_fy(
            ppu.regs,
            bg1_entry(ppu, x as int, y as int),
            y as int,
        ) < 0x8000,
    ensures
        r.0 == bg1_color_index(ppu, x as int, y as int, tile_words as int),
        r.1 == bg1_palette_entry(ppu, x as int, y as int, tile_words as int),
        r.2 == entry_priority(bg1_entry(ppu, x as int, y as int)),
{
    // VRAM word addresses
    let tilemap_base = ppu.regs.bg1_tilemap_addr();  // tilemap
    let tiledata_base = ppu.regs.bg1_tiledata_addr();  // CHR data

    // BG1 scroll registers
    let scroll_x = ppu.regs.bg1hofs as usize;
    let scroll_y = ppu.regs.bg1vofs as usize;

    // Screen pixel -> tile coordinates
    let sx = x + scroll_x;
    let sy = y + scroll_y;
    proof {
        crate::bits::lemma_coord_bits(sx);
        crate::bits::lemma_coord_bits(sy);
    }
    let px = sx & 0xFF;
    let py = sy & 0xFF;
    proof {
        crate::bits::lemma_coord_bits(px);
        crate::bits::lemma_coord_bits(py);
    }
    let tile_col = px >> 3;
    let tile_row = py >> 3;
    let fine_x = px & 7;
    let fine_y = py & 7;

    // Read tilemap entry (word address)
    let map_word_addr = tilemap_base as usize + tile_row * 32 + tile_col;
    let entry = ppu.vram.memory[map_word_addr];

    let tile_index = entry & 0x03FF;  // bits 9:0
    let palette_num = (entry >> 10) & 0x07;  // bits 12:10
    let priority = (entry & 0x2000) != 0;  // bit 13
    let flip_x = (entry & 0x4000) != 0;  // bit 14
    let flip_y = (entry & 0x8000) != 0;  // bit 15
    proof {
        crate::bits::lemma_tilemap_entry(entry);
    }

    // Apply flip
    let fx = if flip_x {
        7 - fine_x
    } else {
        fine_x
    };
    let fy = if flip_y {
        7 - fine_y
    } else {
        fine_y
    };

    // Decode the pixel from CHR data
    let tile_word_base = tiledata_base as usize + tile_index as usize * tile_words;
    let color_index = if tile_words == 8 {
        decode_2bpp(ppu.vram.memory.as_slice(), tile_word_base, fx, fy)
    } else {
        decode_4bpp(ppu.vram.memory.as_slice(), tile_word_base, fx, fy)
    };

    let pal = palette_num as u8;
    assert(pal < 8 && color_index < 16 ==> (pal << 2) == pal * 4 && (pal << 4) | color_index == pal
        * 16 + color_index) by (bit_vector);
    let palette_entry = if tile_words == 8 {
        (pal << 2) + color_index
    } else {
        (pal << 4) | color_index
    };
    (color_index, palette_entry, priority)
}

/// Whether the fetches of BG1 pixel (x, y) stay inside VRAM: the tilemap
/// entry, and the tile row the pixel uses (with its second plane pair).
fn bg1_fetch_ok(ppu: &PPU, x: usize, y: usize, tile_words: usize) -> (r: bool)
    requires
        ppu.wf(),
        x < SCREEN_WIDTH,
        y < SCREEN_HEIGHT,
        tile_words == 8 || tile_words == 16,
    ensures
        r == (bg1_map_addr(ppu.regs, x as int, y as int) < 0x8000 && bg1_tile_base(
            ppu,
            x as int,
            y as int,
            tile_words as int,
        ) + tile_words / 2 + bg1_fy(ppu.regs, bg1_entry(ppu, x as int, y as int), y as int)
            < 0x8000),
{
    let tilemap_base = ppu.regs.bg1_tilemap_addr();
    let tiledata_base = ppu.regs.bg1_tiledata_addr();
    let sx = x + ppu.regs.bg1hofs as usize;
    let sy = y + ppu.regs.bg1vofs as usize;
    proof {
        crate::bits::lemma_coord_bits(sx);
        crate::bits::lemma_coord_bits(sy);
    }
    let px = sx & 0xFF;
    let py = sy & 0xFF;
    proof {
        crate::bits::lemma_coord_bits(px);
        crate::bits::lemma_coord_bits(py);
    }
    let map_word_addr = tilemap_base as usize + (py >> 3) * 32 + (px >> 3);
    if map_word_addr >= 0x8000 {
        return false;
    }
    let entry = ppu.vram.memory[map_word_addr];
    proof {
        crate::bits::lemma_tilemap_entry(entry);
    }
    let fine_y = py & 7;
    let fy = if (entry & 0x8000) != 0 {
        7 - fine_y
    } else {
        fine_y
    };
    let last = tiledata_base as usize + (entry & 0x03FF) as usize * tile_words + tile_words / 2 + fy;
    last < 0x8000
}

/// Whether every BG1 fetch of scanline `y` stays inside VRAM, as
/// [`bg1_fetch_in_range`] says.
pub fn bg1_line_in_range(ppu: &PPU, y: usize, tile_words: usize) -> (r: bool)
    requires
        ppu.wf(),
        y < SCREEN_HEIGHT,
        tile_words == 8 || tile_words == 16,
    ensures
        r == bg1_fetch_in_range(ppu, y as int, tile_words as int),
{
    let mut x: usize = 0;
    while x < SCREEN_WIDTH
        invariant
            ppu.wf(),
            y < SCREEN_HEIGHT,
            tile_words == 8 || tile_words == 16,
            x <= SCREEN_WIDTH,
            forall|q: int|
                0 <= q < x ==> {
                    &&& #[trigger] bg1_map_addr(ppu.regs, q, y as int) < 0x8000
                    &&& bg1_tile_base(ppu, q, y as int, tile_words as int) + tile_words / 2 + bg1_fy(
                        ppu.regs,
                        bg1_entry(ppu, q, y as int),
                        y as int,
                    ) < 0x8000
                },
        decreases SCREEN_WIDTH - x,
    {
        if !bg1_fetch_ok(ppu, x, y, tile_words) {
            proof {
                assert(!(bg1_map_addr(ppu.regs, x as int, y as int) < 0x8000 && bg1_tile_base(
                    ppu,
                    x as int,
                    y as int,
                    tile_words as int,
                ) + tile_words / 2 + bg1_fy(ppu.regs, bg1_entry(ppu, x as int, y as int), y as int)
                    < 0x8000));
            }
            return false;
        }
        x = x + 1;
    }
    true
}

impl Renderer {
    /// Draws BG1 of scanline `y` straight into the framebuffer (opaque pixels
    /// only, at the current brightness), and deposits the same pixels on the
    /// main and sub screens where TM/TS enable BG1.
    pub fn render_bg1_line(&mut self, ppu: &PPU, y: usize, tile_words: usize)
        requires
            old(self).wf(),
            ppu.wf(),
            y < SCREEN_HEIGHT,
            tile_words == 8 || tile_words == 16,
            bg1_fetch_in_range(ppu, y as int, tile_words as int),
        ensures
            final(self).wf(),
            row_masked(
                final(self).framebuffer@,
                old(self).framebuffer@,
                y as int,
                |x: int| bg1_opaque(ppu, x, y as int, tile_words as int),
                |x: int|
                    brightness_rgb(
                        bg1_line_pixel(ppu, x, y as int, tile_words as int).color,
                        old(self).current_brightness as int,
                    ),
            ),
            final(self).main_line@ == line_with_bg1(
                old(self).main_line@,
                ppu,
                y as int,
                tile_words as int,
                ppu.regs.tm % 2 == 1,
            ),
            final(self).sub_line@ == line_with_bg1(
                old(self).sub_line@,
                ppu,
                y as int,
                tile_words as int,
                ppu.regs.ts % 2 == 1,
            ),
            final(self).presented@ == old(self).presented@,
            final(self).current_brightness == old(self).current_brightness,
            final(self).brightness_delay == old(self).brightness_delay,
    {
        let to_main = ppu.regs.tm & 0x01 != 0;
        let to_sub = ppu.regs.ts & 0x01 != 0;
        let tm = ppu.regs.tm;
        let ts = ppu.regs.ts;
        proof {
            crate::bits::lemma_byte_masks(tm);
            crate::bits::lemma_byte_masks(ts);
        }
        let brightness = self.current_brightness as u16;
        let ghost fb0 = self.framebuffer@;
        let ghost main0 = self.main_line@;
        let ghost sub0 = self.sub_line@;
        let ghost drawn = |x: int| bg1_opaque(ppu, x, y as int, tile_words as int);
        let ghost px = |x: int|
            brightness_rgb(
                bg1_line_pixel(ppu, x, y as int, tile_words as int).color,
                self.current_brightness as int,
            );
        let mut x: usize = 0;
        while x < SCREEN_WIDTH
            invariant
                x <= SCREEN_WIDTH,
                y < SCREEN_HEIGHT,
                self.wf(),
                ppu.wf(),
                tile_words == 8 || tile_words == 16,
                bg1_fetch_in_range(ppu, y as int, tile_words as int),
                brightness == self.current_brightness,
                self.current_brightness == old(self).current_brightness,
                self.brightness_delay == old(self).brightness_delay,
                self.presented@ == old(self).presented@,
                fb0 == old(self).framebuffer@,
                main0 == old(self).main_line@,
                sub0 == old(self).sub_line@,
                main0.len() == SCREEN_WIDTH,
                sub0.len() == SCREEN_WIDTH,
                to_main == (ppu.regs.tm % 2 == 1),
                to_sub == (ppu.regs.ts % 2 == 1),
                drawn == (|x: int| bg1_opaque(ppu, x, y as int, tile_words as int)),
                px == (|x: int|
                    brightness_rgb(
                        bg1_line_pixel(ppu, x, y as int, tile_words as int).color,
                        old(self).current_brightness as int,
                    )),
                row_prefix_masked(self.framebuffer@, fb0, y as int, x as int, drawn, px),
                forall|k: int|
                    0 <= k < SCREEN_WIDTH ==> #[trigger] self.main_line@[k] == if k < x {
                        line_with_bg1(main0, ppu, y as int, tile_words as int, to_main)[k]
                    } else {
                        main0[k]
                    },
                forall|k: int|
                    0 <= k < SCREEN_WIDTH ==> #[trigger] self.sub_line@[k] == if k < x {
                        line_with_bg1(sub0, ppu, y as int, tile_words as int, to_sub)[k]
                    } else {
                        sub0[k]
                    },
            decreases SCREEN_WIDTH - x,
        {
            assert(bg1_map_addr(ppu.regs, x as int, y as int) < 0x8000);
            let (color_index, palette_entry, priority) = bg1_pixel(ppu, x, y, tile_words);
            let ghost before = self.framebuffer@;

            // Transparent pixels leave everything as it is.
            if color_index != 0 {
                let color = ppu.cgram.read(palette_entry);
                let z = if priority {
                    Z_BG1_HIGH
                } else {
                    Z_BG1_LOW
                };
                let (r, g, b) = Self::apply_brightness(color, brightness);
                self.set_pixel(x, y, r, g, b);
                let pixel = LinePixel { color, z, layer: Layer::Bg1, obj_math: false };
                if to_main {
                    Self::deposit(&mut self.main_line, x, pixel);
                }
                if to_sub {
                    Self::deposit(&mut self.sub_line, x, pixel);
                }
            }
            proof {
                lemma_row_masked_step(before, self.framebuffer@, fb0, y as int, x as int, drawn, px);
            }
            x += 1;
        }
        assert(self.main_line@ =~= line_with_bg1(main0, ppu, y as int, tile_words as int, to_main));
        assert(self.sub_line@ =~= line_with_bg1(sub0, ppu, y as int, tile_words as int, to_sub));
    }
}

} // verus!
