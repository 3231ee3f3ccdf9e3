use vstd::prelude::*;

use crate::color::argb_spec;
use crate::sprite::Sprite;
use crate::tile::get_tile_indices_from_vram;
use crate::tile_ppu::{
    pixel_at, vram_read_spec, BLACK, HEIGHT, OAM_MAX_SPRITES, PPU, TILE_SIZE, WIDTH,
};

verus! {

/// Whether `s` is in use and covers scanline `y`.
pub open spec fn sprite_on_line(s: Sprite, y: int) -> bool {
    &&& s.filed
    &&& s.y <= y < s.y + 8
}

/// Palette index that sprite `s` shows in column `px` (0..8) of scanline
/// `y`, mirrored as its attribute bits say (bit 6 horizontally, bit 7
/// vertically).
pub open spec fn sprite_index_spec(vram: Seq<u8>, s: Sprite, y: int, px: int) -> u8 {
    let line = y - s.y;
    let line = if s.attr & 0x80 != 0 { 7 - line } else { line };
    let col = if s.attr & 0x40 != 0 { 7 - px } else { px };
    vram_read_spec(vram, s.tile * 64 + line * 8 + col)
}

/// Scanline `row` after the first `upto` columns of sprite `s` are drawn on
/// it: a column whose palette index is not 0 and that lands on screen gets
/// that CGRAM colour; index 0 is transparent.
pub open spec fn draw_columns_spec(
    row: Seq<u32>,
    vram: Seq<u8>,
    cgram: Seq<u16>,
    s: Sprite,
    y: int,
    upto: int,
) -> Seq<u32> {
    Seq::new(
        row.len(),
        |x: int|
            {
                let px = x - s.x;
                if 0 <= px < upto && sprite_index_spec(vram, s, y, px) != 0 {
                    argb_spec(cgram[sprite_index_spec(vram, s, y, px) as int])
                } else {
                    row[x]
                }
            },
    )
}

/// Scanline `row` after sprite `s` is drawn on it; a sprite that is not in
/// use or does not cover `y` leaves it as it was.
pub open spec fn draw_sprite_spec(row: Seq<u32>, vram: Seq<u8>, cgram: Seq<u16>, s: Sprite, y: int) -> Seq<u32> {
    if sprite_on_line(s, y) {
        draw_columns_spec(row, vram, cgram, s, y, 8)
    } else {
        row
    }
}

/// Scanline `y` after it is cleared to black and the first `n` sprite table
/// entries are drawn on it in table order, later entries over earlier ones.
pub open spec fn scanline_spec(vram: Seq<u8>, cgram: Seq<u16>, oam: Seq<Sprite>, y: int, n: nat) -> Seq<u32>
    decreases n,
{
    if n == 0 {
        Seq::new(256, |x: int| BLACK)
    } else {
        draw_sprite_spec(scanline_spec(vram, cgram, oam, y, (n - 1) as nat), vram, cgram, oam[n - 1], y)
    }
}

proof fn lemma_scanline_len(vram: Seq<u8>, cgram: Seq<u16>, oam: Seq<Sprite>, y: int, n: nat)
    ensures
        scanline_spec(vram, cgram, oam, y, n).len() == 256,
    decreases n,
{
    if n > 0 {
        lemma_scanline_len(vram, cgram, oam, y, (n - 1) as nat);
    }
}

/// Renders scanline `y` of the framebuffer: the row is cleared to opaque
/// black, then every sprite table entry in use is drawn on it in table
/// order. Rows other than `y` are untouched; a `y` past the bottom of the
/// framebuffer changes nothing.
pub fn render_scanline(ppu: &mut PPU, y: usize)
    requires
        old(ppu).wf(),
    ensures
        final(ppu).wf(),
        final(ppu).vram == old(ppu).vram,
        final(ppu).cgram == old(ppu).cgram,
        final(ppu).oam == old(ppu).oam,
        final(ppu).cgaddr == old(ppu).cgaddr,
        final(ppu).latch == old(ppu).latch,
        y >= HEIGHT ==> final(ppu).framebuffer@ == old(ppu).framebuffer@,
        y < HEIGHT ==> forall|px: int, py: int|
            0 <= px < 256 && 0 <= py < 256 ==> #[trigger] pixel_at(final(ppu).framebuffer@, px, py) == if py
                == y {
                scanline_spec(old(ppu).vram@, old(ppu).cgram@, old(ppu).oam@, y as int, 128)[px]
            } else {
                pixel_at(old(ppu).framebuffer@, px, py)
            },
{
    if y >= HEIGHT {
        return;
    }
    let ghost fb0 = ppu.framebuffer@;
    clear_scanline(ppu, y);
    for i in 0..OAM_MAX_SPRITES
        invariant
            y < HEIGHT,
            ppu.wf(),
            ppu.vram == old(ppu).vram,
            ppu.cgram == old(ppu).cgram,
            ppu.oam == old(ppu).oam,
            ppu.cgaddr == old(ppu).cgaddr,
            ppu.latch == old(ppu).latch,
            fb0 == old(ppu).framebuffer@,
            forall|px: int, py: int|
                0 <= px < 256 && 0 <= py < 256 ==> #[trigger] pixel_at(ppu.framebuffer@, px, py) == if py
                    == y {
                    scanline_spec(ppu.vram@, ppu.cgram@, ppu.oam@, y as int, i as nat)[px]
                } else {
                    pixel_at(fb0, px, py)
                },
    {
        proof {
            lemma_scanline_len(ppu.vram@, ppu.cgram@, ppu.oam@, y as int, i as nat);
        }
        if let Some(sprite) = ppu.get_oam_sprite(i) {
            if sprite.filed {
                render_sprite_line(ppu, &sprite, y);
            }
        }
        proof {
            assert(scanline_spec(ppu.vram@, ppu.cgram@, ppu.oam@, y as int, (i + 1) as nat)
                == draw_sprite_spec(
                scanline_spec(ppu.vram@, ppu.cgram@, ppu.oam@, y as int, i as nat),
                ppu.vram@,
                ppu.cgram@,
                ppu.oam@[i as int],
                y as int,
            ));
        }
    }
}

/// Clears scanline `y` of the framebuffer to opaque black; other rows are
/// untouched.
pub fn clear_scanline(ppu: &mut PPU, y: usize)
    requires
        old(ppu).wf(),
        y < HEIGHT,
    ensures
        final(ppu).wf(),
        final(ppu).vram == old(ppu).vram,
        final(ppu).cgram == old(ppu).cgram,
        final(ppu).oam == old(ppu).oam,
        final(ppu).cgaddr == old(ppu).cgaddr,
        final(ppu).latch == old(ppu).latch,
        forall|px: int, py: int|
            0 <= px < 256 && 0 <= py < 256 ==> #[trigger] pixel_at(final(ppu).framebuffer@, px, py) == if py
                == y {
                BLACK
            } else {
                pixel_at(old(ppu).framebuffer@, px, py)
            },
{
    let ghost fb0 = ppu.framebuffer@;
    for x in 0..WIDTH
        invariant
            y < HEIGHT,
            ppu.wf(),
            ppu.vram == old(ppu).vram,
            ppu.cgram == old(ppu).cgram,
            ppu.oam == old(ppu).oam,
            ppu.cgaddr == old(ppu).cgaddr,
            ppu.latch == old(ppu).latch,
            fb0 == old(ppu).framebuffer@,
            forall|px: int, py: int|
                0 <= px < 256 && 0 <= py < 256 ==> #[trigger] pixel_at(ppu.framebuffer@, px, py) == if py
                    == y && px < x {
                    BLACK
                } else {
                    pixel_at(fb0, px, py)
                },
    {
        let ghost before = ppu.framebuffer@;
        ppu.framebuffer.set(y * WIDTH + x, BLACK);
        proof {
            assert forall|qx: int, qy: int|
                0 <= qx < 256 && 0 <= qy < 256 && (qx != x || qy != y) implies #[trigger] pixel_at(
                ppu.framebuffer@,
                qx,
                qy,
            ) == pixel_at(before, qx, qy) by {
                assert(qy * 256 + qx != y * 256 + x);
            }
            assert(pixel_at(ppu.framebuffer@, x as int, y as int) == BLACK);
        }
    }
}

/// Draws sprite `sprite` on scanline `y` if it covers that line: its tile
/// row for `y` (mirrored as its attributes say) goes to the framebuffer
/// through [`draw_sprite_line`].
fn render_sprite_line(ppu: &mut PPU, sprite: &Sprite, y: usize)
    requires
        old(ppu).wf(),
        y < HEIGHT,
        sprite.filed,
    ensures
        final(ppu).wf(),
        final(ppu).vram == old(ppu).vram,
        final(ppu).cgram == old(ppu).cgram,
        final(ppu).oam == old(ppu).oam,
        final(ppu).cgaddr == old(ppu).cgaddr,
        final(ppu).latch == old(ppu).latch,
        forall|px: int, py: int|
            0 <= px < 256 && 0 <= py < 256 ==> #[trigger] pixel_at(final(ppu).framebuffer@, px, py) == if py
                == y {
                draw_sprite_spec(
                    Seq::new(256, |x: int| pixel_at(old(ppu).framebuffer@, x, y as int)),
                    old(ppu).vram@,
                    old(ppu).cgram@,
                    *sprite,
                    y as int,
                )[px]
            } else {
                pixel_at(old(ppu).framebuffer@, px, py)
            },
{
    let sy = sprite.y as isize;
    let sx = sprite.x as isize;
    let yi = y as isize;
    if yi < sy || yi >= sy + TILE_SIZE as isize {
        return;
    }
    let tile_idx = sprite.tile as usize;
    let indices = get_tile_indices_from_vram(ppu, tile_idx);

    let hflip = (sprite.attr & 0x40) != 0;
    let vflip = (sprite.attr & 0x80) != 0;

    let mut line_in_tile = (yi - sy) as usize;
    if vflip {
        line_in_tile = TILE_SIZE - 1 - line_in_tile;
    }
    draw_sprite_line(ppu, &indices, sx, y, line_in_tile, hflip, Ghost(*sprite));
}

/// Draws one tile row of a sprite on scanline `y`: column `px` of the row
/// (taken from the mirrored side when `hflip`) lands at `sx + px`; palette
/// index 0 is transparent and columns off screen are dropped.
fn draw_sprite_line(
    ppu: &mut PPU,
    indices: &Vec<u8>,
    sx: isize,
    y: usize,
    line_in_tile: usize,
    hflip: bool,
    Ghost(sprite): Ghost<Sprite>,
)
    requires
        old(ppu).wf(),
        y < HEIGHT,
        line_in_tile < 8,
        indices@.len() == 64,
        sprite_on_line(sprite, y as int),
        sx == sprite.x,
        hflip == (sprite.attr & 0x40 != 0),
        line_in_tile == (if sprite.attr & 0x80 != 0 { 7 - (y - sprite.y) } else { y - sprite.y }),
        forall|j: int| 0 <= j < 64 ==> #[trigger] indices@[j] == vram_read_spec(old(ppu).vram@, sprite.tile * 64 + j),
    ensures
        final(ppu).wf(),
        final(ppu).vram == old(ppu).vram,
        final(ppu).cgram == old(ppu).cgram,
        final(ppu).oam == old(ppu).oam,
        final(ppu).cgaddr == old(ppu).cgaddr,
        final(ppu).latch == old(ppu).latch,
        forall|px: int, py: int|
            0 <= px < 256 && 0 <= py < 256 ==> #[trigger] pixel_at(final(ppu).framebuffer@, px, py) == if py
                == y {
                draw_columns_spec(
                    Seq::new(256, |x: int| pixel_at(old(ppu).framebuffer@, x, y as int)),
                    old(ppu).vram@,
                    old(ppu).cgram@,
                    sprite,
                    y as int,
                    8,
                )[px]
            } else {
                pixel_at(old(ppu).framebuffer@, px, py)
            },
{
    let ghost fb0 = ppu.framebuffer@;
    let ghost row0 = Seq::new(256, |x: int| pixel_at(fb0, x, y as int));
    for px in 0..TILE_SIZE
        invariant
            y < HEIGHT,
            line_in_tile < 8,
            indices@.len() == 64,
            sprite_on_line(sprite, y as int),
            sx == sprite.x,
            hflip == (sprite.attr & 0x40 != 0),
            line_in_tile == (if sprite.attr & 0x80 != 0 { 7 - (y - sprite.y) } else { y - sprite.y }),
            forall|j: int| 0 <= j < 64 ==> #[trigger] indices@[j] == vram_read_spec(old(ppu).vram@, sprite.tile * 64 + j),
            ppu.wf(),
            ppu.vram == old(ppu).vram,
            ppu.cgram == old(ppu).cgram,
            ppu.oam == old(ppu).oam,
            ppu.cgaddr == old(ppu).cgaddr,
            ppu.latch == old(ppu).latch,
            fb0 == old(ppu).framebuffer@,
            row0 == Seq::new(256, |x: int| pixel_at(fb0, x, y as int)),
            forall|qx: int, qy: int|
                0 <= qx < 256 && 0 <= qy < 256 ==> #[trigger] pixel_at(ppu.framebuffer@, qx, qy) == if qy
                    == y {
                    draw_columns_spec(row0, ppu.vram@, ppu.cgram@, sprite, y as int, px as int)[qx]
                } else {
                    pixel_at(fb0, qx, qy)
                },
    {
        let tile_x = if hflip { TILE_SIZE - 1 - px } else { px };
        let palette_index = indices[line_in_tile * TILE_SIZE + tile_x];
        proof {
            assert(palette_index == sprite_index_spec(ppu.vram@, sprite, y as int, px as int));
        }
        if palette_index != 0 {
            let color = ppu.read_cgram(palette_index);
            let screen_x = sx + px as isize;
            if screen_x >= 0 && (screen_x as usize) < WIDTH {
                let sxu = screen_x as usize;
                let ghost before = ppu.framebuffer@;
                ppu.framebuffer.set(y * WIDTH + sxu, color);
                proof {
                    assert forall|qx: int, qy: int|
                        0 <= qx < 256 && 0 <= qy < 256 && (qx != sxu || qy != y) implies #[trigger] pixel_at(
                        ppu.framebuffer@,
                        qx,
                        qy,
                    ) == pixel_at(before, qx, qy) by {
                        assert(qy * 256 + qx != y * 256 + sxu);
                    }
                    assert(pixel_at(ppu.framebuffer@, sxu as int, y as int) == color);
                }
            }
        }
        proof {
            assert forall|qx: int, qy: int|
                0 <= qx < 256 && 0 <= qy < 256 implies #[trigger] pixel_at(ppu.framebuffer@, qx, qy) == if qy
                    == y {
                    draw_columns_spec(row0, ppu.vram@, ppu.cgram@, sprite, y as int, px + 1)[qx]
                } else {
                    pixel_at(fb0, qx, qy)
                } by {
                if qy == y {
                    if qx - sprite.x != px {
                        assert(draw_columns_spec(row0, ppu.vram@, ppu.cgram@, sprite, y as int, px + 1)[qx]
                            == draw_columns_spec(row0, ppu.vram@, ppu.cgram@, sprite, y as int, px as int)[qx]);
                    }
                }
            }
        }
    }
}

} // verus!
