use vstd::prelude::*;

use crate::constants::{SCREEN_HEIGHT, SCREEN_WIDTH};
use crate::oam::{
    eval_spec, on_scanline, sprite_row, sprite_size_spec, sprite_spec, sprites_in_range, Sprite,
    MAX_SPRITES_PER_LINE, OAM, OAM_SIZE,
};
use crate::ppu::PPU;
use crate::rendering::bg1::{decode_4bpp, decode_4bpp_spec};
use crate::rendering::renderer::{
    deposit_spec, Layer, LinePixel, Renderer, Z_OBJ0, Z_OBJ1, Z_OBJ2, Z_OBJ3,
};

verus! {

/// VRAM is 32768 words; sprite CHR addresses wrap within it.
pub const VRAM_WORD_MASK: usize = 0x7FFF;

/// Depth of a sprite pixel by sprite priority.
pub open spec fn obj_z(priority: u8) -> u8 {
    if priority == 0 {
        Z_OBJ0
    } else if priority == 1 {
        Z_OBJ1
    } else if priority == 2 {
        Z_OBJ2
    } else {
        Z_OBJ3
    }
}

/// Row inside sprite `s` drawn on scanline `y`, after vertical flip.
pub open spec fn sprite_sy(s: Sprite, y: int, objsel: u8) -> int {
    let h = sprite_size_spec(objsel, s.large).1;
    if s.flip_y {
        h - 1 - sprite_row(y, s)
    } else {
        sprite_row(y, s)
    }
}

/// Column inside sprite `s` for its column `col`, after horizontal flip.
pub open spec fn sprite_sx(s: Sprite, col: int, objsel: u8) -> int {
    let w = sprite_size_spec(objsel, s.large).0;
    if s.flip_x {
        w - 1 - col
    } else {
        col
    }
}

/// First word of the 8x8 tile holding pixel (sx, sy) of sprite `s`:
/// multi-tile sprites step the low nibble of the tile number per tile column
/// and the high nibble per tile row, each wrapping on its own; the word
/// address wraps inside VRAM.
pub open spec fn sprite_tile_base(s: Sprite, sx: int, sy: int) -> int {
    let base = s.tile as int;
    let tx = (base % 16 + sx / 8) % 16;
    let ty = ((base - base % 16) + (sy / 8) * 16) % 256;
    (s.chr_base + (ty + tx) * 16) % 0x8000
}

/// Colour index of column `col` of sprite `s` on scanline `y`.
pub open spec fn sprite_color_index(ppu: &PPU, s: Sprite, y: int, col: int, objsel: u8) -> u8 {
    let sx = sprite_sx(s, col, objsel);
    let sy = sprite_sy(s, y, objsel);
    decode_4bpp_spec(ppu.vram.memory@, sprite_tile_base(s, sx, sy), sx % 8, sy % 8)
}

/// Line pixel of column `col` of sprite `s` on scanline `y`: sprites use the
/// CGRAM entries from 128 on, and only palettes 4-7 take part in colour math.
pub open spec fn sprite_line_pixel(ppu: &PPU, s: Sprite, y: int, col: int, objsel: u8) -> LinePixel {
    LinePixel {
        color: ppu.cgram.memory@[128 + s.palette * 16 + sprite_color_index(ppu, s, y, col, objsel)],
        z: obj_z(s.priority),
        layer: Layer::Obj,
        obj_math: s.palette >= 4,
    }
}

/// A screen line after sprite `s` is drawn on it for scanline `y`: each
/// opaque sprite pixel that falls on the screen is deposited.
pub open spec fn line_with_sprite(line: Seq<LinePixel>, ppu: &PPU, s: Sprite, y: int, objsel: u8) -> Seq<LinePixel> {
    Seq::new(
        line.len(),
        |x: int|
            {
                let col = x - s.x;
                if 0 <= col < sprite_size_spec(objsel, s.large).0 && sprite_color_index(
                    ppu,
                    s,
                    y,
                    col,
                    objsel,
                ) != 0 {
                    deposit_spec(line[x], sprite_line_pixel(ppu, s, y, col, objsel))
                } else {
                    line[x]
                }
            },
    )
}

/// What drawing a sprite does to column `x` of a screen line: where the
/// sprite covers the column and its pixel there has a colour index `c`
/// other than 0, the line takes (by depth) a sprite pixel coloured from the
/// sprite half of CGRAM, entry `128 + 16 * palette + c`, at the depth of the
/// sprite's priority (3, 6, 9 or 12), in colour math only for palettes 4-7;
/// everywhere else the column keeps what it had.
pub proof fn lemma_sprite_pixel_colour(line: Seq<LinePixel>, ppu: &PPU, s: Sprite, y: int, objsel: u8, x: int)
    requires
        0 <= x < line.len(),
    ensures
        ({
            let col = x - s.x;
            let c = sprite_color_index(ppu, s, y, col, objsel);
            let z: u8 = if s.priority == 0 {
                3
            } else if s.priority == 1 {
                6
            } else if s.priority == 2 {
                9
            } else {
                12
            };
            line_with_sprite(line, ppu, s, y, objsel)[x] == if 0 <= col < sprite_size_spec(
                objsel,
                s.large,
            ).0 && c != 0 {
                deposit_spec(
                    line[x],
                    LinePixel {
                        color: ppu.cgram.memory@[128 + 16 * s.palette + c],
                        z,
                        layer: Layer::Obj,
                        obj_math: s.palette >= 4,
                    },
                )
            } else {
                line[x]
            }
        }),
{
}

/// Which pixel of which tile a sprite shows at its column `col` on scanline
/// `y`: the row inside the sprite is `(y - Y) mod 256`; both are mirrored
/// inside the sprite's size when it is flipped that way; the tile is the
/// one `column / 8` to the right and `row / 8` down from the sprite's tile
/// number, the low nibble (column) and high nibble (row) each wrapping on
/// its own; tiles are 16 words apart from the sprite's CHR base, wrapping
/// inside VRAM; and the colour index is that tile's 4bpp pixel at
/// (`column % 8`, `row % 8`).
pub proof fn lemma_sprite_pixel_source(ppu: &PPU, s: Sprite, y: int, col: int, objsel: u8)
    ensures
        ({
            let w = sprite_size_spec(objsel, s.large).0 as int;
            let h = sprite_size_spec(objsel, s.large).1 as int;
            let row = (y - s.y as int) % 256;
            let sx = if s.flip_x {
                w - 1 - col
            } else {
                col
            };
            let sy = if s.flip_y {
                h - 1 - row
            } else {
                row
            };
            let tx = (s.tile as int % 16 + sx / 8) % 16;
            let ty = (s.tile as int / 16 + sy / 8) % 16;
            let base = (s.chr_base as int + (ty * 16 + tx) * 16) % 0x8000;
            sprite_color_index(ppu, s, y, col, objsel) == decode_4bpp_spec(
                ppu.vram.memory@,
                base,
                sx % 8,
                sy % 8,
            )
        }),
{
    let h = sprite_size_spec(objsel, s.large).1 as int;
    let row = (y - s.y as int) % 256;
    let sy = if s.flip_y {
        h - 1 - row
    } else {
        row
    };
    let t = s.tile as int;
    let q = t / 16;
    let r = sy / 8;
    assert(t - t % 16 == q * 16);
    assert((q * 16 + r * 16) % 256 == ((q + r) % 16) * 16) by (nonlinear_arith);
}

/// A screen line after the sprites of `list` are drawn on it, from the last
/// to the first, so that earlier sprites win ties.
pub open spec fn line_with_sprites(
    line: Seq<LinePixel>,
    ppu: &PPU,
    list: Seq<(u8, Sprite)>,
    y: int,
    objsel: u8,
) -> Seq<LinePixel>
    decreases list.len(),
{
    if list.len() == 0 {
        line
    } else {
        line_with_sprites(
            line_with_sprite(line, ppu, list.last().1, y, objsel),
            ppu,
            list.drop_last(),
            y,
            objsel,
        )
    }
}

/// Every sprite that `sprites_in_range` lists covers the scanline.
proof fn lemma_in_range_on_scanline(data: Seq<u8>, y: int, objsel: u8, n: int)
    requires
        n <= 128,
    ensures
        forall|k: int|
            0 <= k < sprites_in_range(data, y, objsel, n).len() ==> {
                let i = #[trigger] sprites_in_range(data, y, objsel, n)[k];
                &&& i < 128
                &&& on_scanline(sprite_spec(data, i as int, objsel), y, objsel)
            },
    decreases n,
{
    if n > 0 {
        lemma_in_range_on_scanline(data, y, objsel, n - 1);
        let prev = sprites_in_range(data, y, objsel, n - 1);
        let cur = sprites_in_range(data, y, objsel, n);
        assert forall|k: int| 0 <= k < cur.len() implies {
            let i = #[trigger] cur[k];
            &&& i < 128
            &&& on_scanline(sprite_spec(data, i as int, objsel), y, objsel)
        } by {
            if k < prev.len() {
                assert(cur[k] == prev[k]);
            }
        }
    }
}

/// A decoded sprite's CHR base is a multiple of 0x1000.
proof fn lemma_chr_base_aligned(data: Seq<u8>, index: int, objsel: u8)
    ensures
        sprite_spec(data, index, objsel).chr_base % 0x1000 == 0,
{
}

/// What [`Renderer::draw_sprite`] needs of a sprite: the ranges that decoding
/// gives, and that it covers the scanline.
pub open spec fn drawable(s: Sprite, y: int, objsel: u8) -> bool {
    &&& s.palette < 8
    &&& s.chr_base % 16 == 0
    &&& -256 <= s.x <= 255
    &&& on_scanline(s, y, objsel)
}

/// Every sprite the evaluation keeps is drawable.
proof fn lemma_eval_drawable(data: Seq<u8>, y: int, objsel: u8)
    requires
        data.len() == OAM_SIZE,
    ensures
        forall|k: int|
            0 <= k < eval_spec(data, y, objsel).len() ==> drawable(
                #[trigger] eval_spec(data, y, objsel)[k].1,
                y,
                objsel,
            ),
{
    lemma_in_range_on_scanline(data, y, objsel, 128);
    let all = sprites_in_range(data, y, objsel, 128);
    assert forall|k: int| 0 <= k < eval_spec(data, y, objsel).len() implies drawable(
        #[trigger] eval_spec(data, y, objsel)[k].1,
        y,
        objsel,
    ) by {
        let i = all[k];
        assert(i < 128);
        crate::oam::lemma_sprite_ranges(data, i as int, objsel);
        lemma_chr_base_aligned(data, i as int, objsel);
    }
}

/// Colour index of column `col` of sprite `s` on scanline `y`, and (when
/// opaque) its colour.
fn sprite_pixel(ppu: &PPU, s: Sprite, y: usize, col: usize, sy: usize, w: usize, objsel: u8) -> (r: (
    u8,
    u16,
))
    requires
        ppu.wf(),
        y < SCREEN_HEIGHT,
        drawable(s, y as int, objsel),
        w == sprite_size_spec(objsel, s.large).0,
        col < w,
        sy == sprite_sy(s, y as int, objsel),
        sy < 64,
    ensures
        r.0 == sprite_color_index(ppu, s, y as int, col as int, objsel),
        r.0 != 0 ==> r.1 == sprite_line_pixel(ppu, s, y as int, col as int, objsel).color,
{
    // Column within the sprite, with H flip.
    let sx = if s.flip_x {
        w - 1 - col
    } else {
        col
    };

    // Locate the tile inside the sprite and the pixel inside the tile.
    let tile_col = sx / 8;
    let tile_row = sy / 8;
    let fine_x = sx % 8;
    let fine_y = sy % 8;

    // Multi-tile sprites wrap the low nibble (X) and high nibble
    // (Y) of the tile number independently.
    let base = s.tile as usize;
    let low_nibble = base & 0x0F;
    let high_nibble = base & 0xF0;
    let tile_rows = tile_row * 0x10;
    let tx = low_nibble.wrapping_add(tile_col) & 0x0F;
    let ty = high_nibble.wrapping_add(tile_rows) & 0xF0;
    let tile_num = ty | tx;
    proof {
        let b = base;
        let tc = tile_col;
        let tr = tile_row;
        assert(low_nibble < 16 && high_nibble < 256) by (bit_vector)
            requires
                low_nibble == b & 0x0F,
                high_nibble == b & 0xF0,
                b < 256,
        ;
        let txs = (low_nibble + tc) as usize;
        let tys = (high_nibble + tile_rows) as usize;
        assert(low_nibble.wrapping_add(tc) == txs);
        assert(high_nibble.wrapping_add(tile_rows) == tys);
        assert(tx == (b % 16 + tc) % 16 && ty == ((b - b % 16) + tr * 16) % 256 && (ty
            | tx) == ty + tx && ty + tx < 256) by (bit_vector)
            requires
                b < 256,
                tc < 8,
                tr < 8,
                low_nibble == b & 0x0F,
                high_nibble == b & 0xF0,
                tile_rows == tr * 0x10,
                txs == (low_nibble + tc) as usize,
                tys == (high_nibble + tile_rows) as usize,
                tx == txs & 0x0F,
                ty == tys & 0xF0,
        ;
    }

    let sum = s.chr_base as usize + tile_num * 16;
    assert((sum & 0x7FFF) == sum % 0x8000 && (sum % 16 == 0 ==> sum % 0x8000 <= 0x7FF0))
        by (bit_vector);
    let tile_word_base = sum & VRAM_WORD_MASK;

    let color_index = decode_4bpp(
        ppu.vram.memory.as_slice(),
        tile_word_base,
        fine_x,
        fine_y,
    );


    if color_index == 0 {
        return (0, 0);
    }
    let palette_entry = 128 + s.palette * 16 + color_index;
    let color = ppu.cgram.read(palette_entry);
    (color_index, color)
}

impl Renderer {
    /// Draws sprite `s` of scanline `y` onto the main screen (when `to_main`)
    /// and the sub screen (when `to_sub`).
    pub fn draw_sprite(&mut self, ppu: &PPU, s: Sprite, y: usize, objsel: u8, to_main: bool, to_sub: bool)
        requires
            old(self).wf(),
            ppu.wf(),
            y < SCREEN_HEIGHT,
            drawable(s, y as int, objsel),
        ensures
            final(self).wf(),
            final(self).main_line@ == if to_main {
                line_with_sprite(old(self).main_line@, ppu, s, y as int, objsel)
            } else {
                old(self).main_line@
            },
            final(self).sub_line@ == if to_sub {
                line_with_sprite(old(self).sub_line@, ppu, s, y as int, objsel)
            } else {
                old(self).sub_line@
            },
            final(self).framebuffer@ == old(self).framebuffer@,
            final(self).presented@ == old(self).presented@,
            final(self).current_brightness == old(self).current_brightness,
            final(self).brightness_delay == old(self).brightness_delay,
    {
        let (w8, h8) = OAM::sprite_size(objsel, s.large);
        let w = w8 as usize;
        let h = h8 as usize;

        // Row within the sprite for this scanline (0..h), with V flip.
        let row = (y as u8).wrapping_sub(s.y);
        assert(row == sprite_row(y as int, s));
        let mut sy = row as usize;
        if s.flip_y {
            sy = h - 1 - sy;
        }

        let z = match s.priority {
            0 => Z_OBJ0,
            1 => Z_OBJ1,
            2 => Z_OBJ2,
            _ => Z_OBJ3,
        };
        let obj_math = s.palette >= 4;

        let ghost main0 = self.main_line@;
        let ghost sub0 = self.sub_line@;
        let mut col: usize = 0;
        while col < w
            invariant
                col <= w,
                w == sprite_size_spec(objsel, s.large).0,
                w <= 64,
                sy == sprite_sy(s, y as int, objsel),
                sy < 64,
                z == obj_z(s.priority),
                obj_math == (s.palette >= 4),
                y < SCREEN_HEIGHT,
                drawable(s, y as int, objsel),
                self.wf(),
                ppu.wf(),
                self.framebuffer@ == old(self).framebuffer@,
                self.presented@ == old(self).presented@,
                self.current_brightness == old(self).current_brightness,
                self.brightness_delay == old(self).brightness_delay,
                main0 == old(self).main_line@,
                sub0 == old(self).sub_line@,
                main0.len() == SCREEN_WIDTH,
                sub0.len() == SCREEN_WIDTH,
                forall|x: int|
                    0 <= x < SCREEN_WIDTH ==> #[trigger] self.main_line@[x] == if to_main && x
                        - s.x < col {
                        line_with_sprite(main0, ppu, s, y as int, objsel)[x]
                    } else {
                        main0[x]
                    },
                forall|x: int|
                    0 <= x < SCREEN_WIDTH ==> #[trigger] self.sub_line@[x] == if to_sub && x - s.x
                        < col {
                        line_with_sprite(sub0, ppu, s, y as int, objsel)[x]
                    } else {
                        sub0[x]
                    },
            decreases w - col,
        {
            let screen_x = s.x + col as i16;
            if 0 <= screen_x && screen_x < SCREEN_WIDTH as i16 {
                let (color_index, color) = sprite_pixel(ppu, s, y, col, sy, w, objsel);
                if color_index != 0 {
                    let x = screen_x as usize;
                    if to_main {
                        self.deposit_main(x, color, z, Layer::Obj, obj_math);
                    }
                    if to_sub {
                        self.deposit_sub(x, color, z, Layer::Obj, obj_math);
                    }
                }
            }
            col += 1;
        }
        assert(to_main ==> self.main_line@ =~= line_with_sprite(main0, ppu, s, y as int, objsel));
        assert(!to_main ==> self.main_line@ =~= main0);
        assert(to_sub ==> self.sub_line@ =~= line_with_sprite(sub0, ppu, s, y as int, objsel));
        assert(!to_sub ==> self.sub_line@ =~= sub0);
    }

    /// Render all visible sprites on scanline `y`: the sprites that the
    /// evaluation keeps are drawn from the last to the first onto the main
    /// screen when TM enables OBJ (bit 4) and onto the sub screen when TS does.
    pub fn render_sprites(&mut self, ppu: &PPU, y: usize)
        requires
            old(self).wf(),
            ppu.wf(),
            y < SCREEN_HEIGHT,
        ensures
            final(self).wf(),
            final(self).main_line@ == if (ppu.regs.tm / 16) % 2 == 1 {
                line_with_sprites(
                    old(self).main_line@,
                    ppu,
                    eval_spec(ppu.oam.data@, y as int, ppu.regs.objsel),
                    y as int,
                    ppu.regs.objsel,
                )
            } else {
                old(self).main_line@
            },
            final(self).sub_line@ == if (ppu.regs.ts / 16) % 2 == 1 {
                line_with_sprites(
                    old(self).sub_line@,
                    ppu,
                    eval_spec(ppu.oam.data@, y as int, ppu.regs.objsel),
                    y as int,
                    ppu.regs.objsel,
                )
            } else {
                old(self).sub_line@
            },
            final(self).framebuffer@ == old(self).framebuffer@,
            final(self).presented@ == old(self).presented@,
            final(self).current_brightness == old(self).current_brightness,
            final(self).brightness_delay == old(self).brightness_delay,
    {
        broadcast use vstd::array::group_array_axioms;
        let objsel = ppu.regs.objsel;
        let tm = ppu.regs.tm;
        let ts = ppu.regs.ts;
        let to_main = tm & 0x10 != 0;
        let to_sub = ts & 0x10 != 0;
        proof {
            crate::bits::lemma_byte_masks(tm);
            crate::bits::lemma_byte_masks(ts);
        }

        let (sprites, _range_over) = ppu.oam.eval_sprites_for_scanline(y, objsel);
        let ghost list = sprites@;
        proof {
            lemma_eval_drawable(ppu.oam.data@, y as int, objsel);
        }
        let ghost target_main = line_with_sprites(self.main_line@, ppu, list, y as int, objsel);
        let ghost target_sub = line_with_sprites(self.sub_line@, ppu, list, y as int, objsel);

        assert(list.take(list.len() as int) =~= list);
        // Draw from the last evaluated sprite to the first
        let mut k = sprites.len();
        while k > 0
            invariant
                k <= sprites@.len(),
                list == sprites@,
                list == eval_spec(ppu.oam.data@, y as int, objsel),
                forall|j: int| 0 <= j < list.len() ==> drawable(#[trigger] list[j].1, y as int, objsel),
                y < SCREEN_HEIGHT,
                self.wf(),
                ppu.wf(),
                objsel == ppu.regs.objsel,
                self.framebuffer@ == old(self).framebuffer@,
                self.presented@ == old(self).presented@,
                self.current_brightness == old(self).current_brightness,
                self.brightness_delay == old(self).brightness_delay,
                target_main == line_with_sprites(old(self).main_line@, ppu, list, y as int, objsel),
                target_sub == line_with_sprites(old(self).sub_line@, ppu, list, y as int, objsel),
                to_main ==> line_with_sprites(self.main_line@, ppu, list.take(k as int), y as int, objsel)
                    == target_main,
                !to_main ==> self.main_line@ == old(self).main_line@,
                to_sub ==> line_with_sprites(self.sub_line@, ppu, list.take(k as int), y as int, objsel)
                    == target_sub,
                !to_sub ==> self.sub_line@ == old(self).sub_line@,
            decreases k,
        {
            k -= 1;
            let (_idx, sprite) = sprites[k];
            let ghost before_main = self.main_line@;
            let ghost before_sub = self.sub_line@;
            self.draw_sprite(ppu, sprite, y, objsel, to_main, to_sub);
            proof {
                let t = list.take(k as int + 1);
                assert(t.last() == list[k as int]);
                assert(t.drop_last() =~= list.take(k as int));
            }
        }
        assert(list.take(0) =~= Seq::<(u8, Sprite)>::empty());
    }
}

} // verus!
