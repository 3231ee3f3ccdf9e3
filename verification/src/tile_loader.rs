use vstd::prelude::*;

use crate::tile_ppu::{loaded_vram, PPU, TILE_SIZE};

verus! {

/// Tiles needed to cover `size` pixels: `size / 8` rounded up.
pub open spec fn tiles_across(size: int) -> int {
    (size + 7) / 8
}

/// Pixels that tile number `t` covers along a side of `size` pixels: 8,
/// or what is left at the last, partial tile.
pub open spec fn cell_extent(size: int, t: int) -> int {
    if size - t * 8 < 8 {
        size - t * 8
    } else {
        8
    }
}

/// The first `n` rows, each `cw` pixels from column `x0` on, of an image of
/// row length `width`, starting at row `y0`; rows in order, each row left
/// to right.
pub open spec fn tile_rows(pixels: Seq<[u8; 4]>, width: int, x0: int, cw: int, y0: int, n: nat) -> Seq<[u8; 4]>
    decreases n,
{
    if n == 0 {
        Seq::empty()
    } else {
        let y = y0 + n - 1;
        tile_rows(pixels, width, x0, cw, y0, (n - 1) as nat) + pixels.subrange(y * width + x0, y * width + x0 + cw)
    }
}

/// The pixels of the tile at tile column `tx`, tile row `ty` of a
/// `width` x `height` image: its rows top to bottom, each left to right,
/// cut short where the image ends.
pub open spec fn image_tile(pixels: Seq<[u8; 4]>, width: int, height: int, tx: int, ty: int) -> Seq<[u8; 4]> {
    tile_rows(pixels, width, tx * 8, cell_extent(width, tx), ty * 8, cell_extent(height, ty) as nat)
}

/// The tile at tile column `tx`, tile row `ty` of a row-major tile list with
/// `tiles_x` tiles per row.
pub open spec fn tile_at(tiles: Seq<Vec<[u8; 4]>>, tiles_x: int, tx: int, ty: int) -> Seq<[u8; 4]> {
    tiles[ty * tiles_x + tx]@
}

proof fn lemma_pixel_in_image(x: int, y: int, width: int, height: int)
    by (nonlinear_arith)
    requires
        0 <= x < width,
        0 <= y < height,
    ensures
        0 <= y * width + x < width * height,
        y * width + x + 1 <= (y + 1) * width,
{
}

proof fn lemma_tile_order(a: int, b: int, tx: int, ty: int, n: int)
    by (nonlinear_arith)
    requires
        0 <= a < n,
        0 <= b,
        0 <= tx,
        b < ty || (b == ty && a < tx),
    ensures
        0 <= b * n + a < ty * n + tx,
{
}

proof fn lemma_next_row(ty: int, n: int)
    by (nonlinear_arith)
    ensures
        ty * n + n == (ty + 1) * n,
{
}

proof fn lemma_tile_rows_len(pixels: Seq<[u8; 4]>, width: int, x0: int, cw: int, y0: int, n: nat)
    requires
        0 <= x0,
        0 <= cw,
        0 <= y0,
        x0 + cw <= width,
        (y0 + n) * width <= pixels.len(),
    ensures
        tile_rows(pixels, width, x0, cw, y0, n).len() == n * cw,
    decreases n,
{
    if n > 0 {
        let y = y0 + n - 1;
        assert((y0 + (n - 1)) * width <= (y0 + n) * width) by (nonlinear_arith)
            requires
                width >= 0,
        ;
        assert(y * width + x0 + cw <= (y + 1) * width) by (nonlinear_arith)
            requires
                x0 + cw <= width,
        ;
        assert((y + 1) * width == (y0 + n) * width);
        assert(0 <= y * width + x0) by (nonlinear_arith)
            requires
                y >= 0,
                width >= 0,
                x0 >= 0,
        ;
        lemma_tile_rows_len(pixels, width, x0, cw, y0, (n - 1) as nat);
        assert(n * cw == (n - 1) * cw + cw) by (nonlinear_arith);
    } else {
        assert(n * cw == 0) by (nonlinear_arith)
            requires
                n == 0,
        ;
    }
}

/// Every tile of an image holds at most 64 pixels: as many as the part of
/// its 8x8 cell inside the image, which is at least one pixel, and all 64
/// when the image reaches past the cell on both sides.
pub proof fn lemma_image_tile_size(pixels: Seq<[u8; 4]>, width: int, height: int, tx: int, ty: int)
    requires
        width >= 0,
        height >= 0,
        pixels.len() == width * height,
        0 <= tx < tiles_across(width),
        0 <= ty < tiles_across(height),
    ensures
        image_tile(pixels, width, height, tx, ty).len() == cell_extent(width, tx) * cell_extent(
            height,
            ty,
        ),
        1 <= cell_extent(width, tx) <= 8,
        1 <= cell_extent(height, ty) <= 8,
        1 <= image_tile(pixels, width, height, tx, ty).len() <= 64,
        (tx + 1) * 8 <= width && (ty + 1) * 8 <= height ==> image_tile(pixels, width, height, tx, ty).len()
            == 64,
{
    let cw = cell_extent(width, tx);
    let ch = cell_extent(height, ty);
    assert((ty * 8 + ch) * width <= height * width) by (nonlinear_arith)
        requires
            ty * 8 + ch <= height,
            width >= 0,
    ;
    assert(height * width == width * height) by (nonlinear_arith);
    lemma_tile_rows_len(pixels, width, tx * 8, cw, ty * 8, ch as nat);
    assert(ch * cw <= 64 && ch * cw >= 1) by (nonlinear_arith)
        requires
            1 <= cw <= 8,
            1 <= ch <= 8,
    ;
    assert(ch * cw == cw * ch) by (nonlinear_arith);
}

/// Cuts a `width` x `height` image, given as its pixels row by row, into
/// 8x8 tiles: tile rows top to bottom, each left to right. A tile at the
/// right or bottom edge keeps only the pixels inside the image, so it may
/// hold fewer than 64.
pub fn split_image_into_tiles(width: usize, height: usize, pixels: &Vec<[u8; 4]>) -> (tiles: Vec<Vec<[u8; 4]>>)
    requires
        pixels@.len() == width * height,
        width * height <= usize::MAX,
        width + 8 <= usize::MAX,
        height + 8 <= usize::MAX,
    ensures
        tiles@.len() == tiles_across(width as int) * tiles_across(height as int),
        forall|tx: int, ty: int|
            0 <= tx < tiles_across(width as int) && 0 <= ty < tiles_across(height as int) ==> #[trigger] tile_at(
                tiles@,
                tiles_across(width as int),
                tx,
                ty,
            ) == image_tile(pixels@, width as int, height as int, tx, ty),
{
    let tiles_x = (width + TILE_SIZE - 1) / TILE_SIZE;
    let tiles_y = (height + TILE_SIZE - 1) / TILE_SIZE;
    let mut tiles: Vec<Vec<[u8; 4]>> = Vec::new();
    proof {
        assert(0 * (tiles_x as int) == 0);
    }
    for ty in 0..tiles_y
        invariant
            tiles_x == tiles_across(width as int),
            tiles_y == tiles_across(height as int),
            pixels@.len() == width * height,
            width * height <= usize::MAX,
            width + 8 <= usize::MAX,
            height + 8 <= usize::MAX,
            tiles@.len() == ty * tiles_x,
            forall|a: int, b: int|
                0 <= a < tiles_x && 0 <= b < ty ==> #[trigger] tile_at(tiles@, tiles_x as int, a, b) == image_tile(
                    pixels@,
                    width as int,
                    height as int,
                    a,
                    b,
                ),
    {
        for tx in 0..tiles_x
            invariant
                tiles_x == tiles_across(width as int),
                tiles_y == tiles_across(height as int),
                ty < tiles_y,
                pixels@.len() == width * height,
                width * height <= usize::MAX,
                width + 8 <= usize::MAX,
                height + 8 <= usize::MAX,
                tiles@.len() == ty * tiles_x + tx,
                forall|a: int, b: int|
                    0 <= a < tiles_x && 0 <= b <= ty && (b < ty || a < tx) ==> #[trigger] tile_at(
                        tiles@,
                        tiles_x as int,
                        a,
                        b,
                    ) == image_tile(pixels@, width as int, height as int, a, b),
        {
            let mut tile: Vec<[u8; 4]> = Vec::new();
            let x0 = tx * TILE_SIZE;
            let y0 = ty * TILE_SIZE;
            let x_end = if (tx + 1) * TILE_SIZE < width { (tx + 1) * TILE_SIZE } else { width };
            let y_end = if (ty + 1) * TILE_SIZE < height { (ty + 1) * TILE_SIZE } else { height };
            let ghost cw = cell_extent(width as int, tx as int);
            assert(x_end == x0 + cw);
            assert(cw >= 1);
            assert(y_end == y0 + cell_extent(height as int, ty as int));
            for y in y0..y_end
                invariant
                    x0 == tx * 8,
                    x_end == x0 + cw,
                    1 <= cw <= 8,
                    x_end <= width,
                    y_end <= height,
                    pixels@.len() == width * height,
                    width * height <= usize::MAX,
                    tile@ == tile_rows(pixels@, width as int, x0 as int, cw, y0 as int, (y - y0) as nat),
            {
                let ghost before = tile@;
                proof {
                    lemma_pixel_in_image(x0 as int, y as int, width as int, height as int);
                    assert(tile@ =~= before + pixels@.subrange(y * width + x0, y * width + x0));
                }
                for x in x0..x_end
                    invariant
                        x0 <= x_end <= width,
                        y0 <= y < y_end <= height,
                        pixels@.len() == width * height,
                        width * height <= usize::MAX,
                        tile@ == before + pixels@.subrange(y * width + x0, y * width + x),
                {
                    proof {
                        lemma_pixel_in_image(x as int, y as int, width as int, height as int);
                    }
                    tile.push(pixels[y * width + x]);
                    proof {
                        assert(tile@ =~= before + pixels@.subrange(y * width + x0, y * width + x + 1));
                    }
                }
            }
            assert(tile@ == image_tile(pixels@, width as int, height as int, tx as int, ty as int));
            let ghost old_tiles = tiles@;
            let ghost new_tile = tile@;
            tiles.push(tile);
            proof {
                assert forall|a: int, b: int|
                    0 <= a < tiles_x && 0 <= b <= ty && (b < ty || a < tx + 1) implies #[trigger] tile_at(
                    tiles@,
                    tiles_x as int,
                    a,
                    b,
                ) == image_tile(pixels@, width as int, height as int, a, b) by {
                    if b < ty || a < tx {
                        lemma_tile_order(a, b, tx as int, ty as int, tiles_x as int);
                        assert(tiles@[b * tiles_x + a] == old_tiles[b * tiles_x + a]);
                        assert(tile_at(old_tiles, tiles_x as int, a, b) == image_tile(
                            pixels@,
                            width as int,
                            height as int,
                            a,
                            b,
                        ));
                    } else {
                        assert(tiles@[ty * tiles_x + tx]@ == new_tile);
                    }
                }
            }
        }
        proof {
            lemma_next_row(ty as int, tiles_x as int);
        }
    }
    proof {
        assert(tiles_y * tiles_x == tiles_across(width as int) * tiles_across(height as int)) by (nonlinear_arith)
            requires
                tiles_x == tiles_across(width as int),
                tiles_y == tiles_across(height as int),
        ;
    }
    tiles
}

/// Loads tiles into VRAM, tile `t` from byte `t * 64` on: each pixel's red
/// channel divided by 4 becomes its palette index. A tile of fewer than 64
/// pixels is passed over and its bytes stay as they were; bytes past the
/// end of VRAM are dropped.
pub fn load_tiles_into_vram(ppu: &mut PPU, tiles: &Vec<Vec<[u8; 4]>>)
    requires
        old(ppu).wf(),
        tiles@.len() * 64 <= usize::MAX,
    ensures
        final(ppu).wf(),
        final(ppu).vram@ == loaded_vram(old(ppu).vram@, tiles@, 2, true),
        final(ppu).framebuffer == old(ppu).framebuffer,
        final(ppu).cgram == old(ppu).cgram,
        final(ppu).oam == old(ppu).oam,
        final(ppu).cgaddr == old(ppu).cgaddr,
        final(ppu).latch == old(ppu).latch,
{
    ppu.load_tiles(tiles, 2, true);
}

} // verus!
