use vstd::prelude::*;

use crate::color::{argb_spec, bgr555_to_argb};
use crate::sprite::{empty_sprite, Sprite};

verus! {

/// Side of a square tile, in pixels.
pub const TILE_SIZE: usize = 8;

/// Pixels in one tile.
pub const TILE_PIXELS: usize = 64;

/// Framebuffer width, in pixels (32 tiles).
pub const WIDTH: usize = 256;

/// Framebuffer height, in pixels (32 tiles).
pub const HEIGHT: usize = 256;

/// Framebuffer size, in pixels.
pub const FRAME_PIXELS: usize = 65536;

/// Bytes of VRAM; each byte holds one pixel's palette index.
pub const VRAM_SIZE: usize = 65536;

/// Entries in the sprite table.
pub const OAM_MAX_SPRITES: usize = 128;

/// Colour entries in CGRAM.
pub const CGRAM_SIZE: usize = 256;

/// Opaque black, what a cleared framebuffer pixel holds.
pub const BLACK: u32 = 0xFF00_0000;

/// A tile-based picture unit: a 256x256 ARGB framebuffer, VRAM with one
/// palette index per byte, a 256-colour CGRAM written through a two-write
/// data port, and a 128-entry sprite table.
pub struct PPU {
    pub framebuffer: Vec<u32>,
    pub vram: Vec<u8>,
    pub cgram: Vec<u16>,
    pub oam: Vec<Sprite>,
    /// CGRAM entry that the next completed data-port write goes to.
    pub cgaddr: u8,
    /// Low byte of a colour whose high byte has not been written yet.
    pub latch: Option<u8>,
}

/// What reading VRAM byte `addr` gives: the byte, or 0 past the end.
pub open spec fn vram_read_spec(vram: Seq<u8>, addr: int) -> u8 {
    if 0 <= addr < vram.len() {
        vram[addr]
    } else {
        0
    }
}

/// The grey ARGB pixel that a tile shows for palette index `value`.
pub open spec fn grey_spec(value: u8) -> u32 {
    let c: u32 = (value as int * 16) as u32;
    0xFF00_0000u32 | (c << 16u32) | (c << 8u32) | c
}

/// The colour that CGRAM entry `i` holds at power-on: a grey ramp, entry `i`
/// with `i` in every channel (bits above each 5-bit channel spilling into
/// the next), entry 0 black.
pub open spec fn ramp_color(i: u16) -> u16 {
    (i | (i << 5u16) | (i << 10u16)) & 0x7FFF
}

/// The 15-bit colour that a data-port write pair stores.
pub open spec fn cgram_word_spec(lo: u8, hi: u8) -> u16 {
    ((hi as int * 256 + lo as int) % 0x8000) as u16
}

/// Framebuffer pixel at column `px`, row `py`.
pub open spec fn pixel_at(fb: Seq<u32>, px: int, py: int) -> u32 {
    fb[py * 256 + px]
}

/// Whether pixel (`px`, `py`) lies in the 8x8 cell at tile column `tx`,
/// tile row `ty`.
pub open spec fn in_cell(px: int, py: int, tx: int, ty: int) -> bool {
    &&& tx * 8 <= px < tx * 8 + 8
    &&& ty * 8 <= py < ty * 8 + 8
}

/// The grey pixel that tile `tile` shows at (`x`, `y`) inside the tile.
pub open spec fn tile_grey_spec(vram: Seq<u8>, tile: int, x: int, y: int) -> u32 {
    grey_spec(vram_read_spec(vram, tile * 64 + y * 8 + x))
}

/// Byte that a loaded tile puts at VRAM address `a`: the red channel of its
/// pixel shifted right by `shift`, or `None` where no loaded tile covers `a`
/// (past the last tile, or in a tile shorter than 64 pixels when
/// `skip_short`).
pub open spec fn loaded_byte(tiles: Seq<Vec<[u8; 4]>>, a: int, shift: u8, skip_short: bool) -> Option<u8> {
    let t = a / 64;
    let j = a % 64;
    if 0 <= t < tiles.len() && (!skip_short || tiles[t]@.len() >= 64) {
        Some(tiles[t]@[j][0] >> shift)
    } else {
        None
    }
}

/// VRAM after loading `tiles` into `old`.
pub open spec fn loaded_vram(old: Seq<u8>, tiles: Seq<Vec<[u8; 4]>>, shift: u8, skip_short: bool) -> Seq<u8> {
    Seq::new(
        old.len(),
        |a: int|
            match loaded_byte(tiles, a, shift, skip_short) {
                Some(v) => v,
                None => old[a],
            },
    )
}

proof fn lemma_tile_addr(t: int, j: int)
    requires
        0 <= j < 64,
    ensures
        (t * 64 + j) / 64 == t,
        (t * 64 + j) % 64 == j,
{
    vstd::arithmetic::div_mod::lemma_fundamental_div_mod_converse(t * 64 + j, 64, t, j);
}

/// The CGRAM data port after a write of `value`, as (entry address,
/// pending low byte, colours): the first write of a pair is held; the
/// second stores the 15-bit colour at the entry and moves to the next
/// entry, wrapping after 255.
pub open spec fn cgram_port_spec(cgaddr: u8, latch: Option<u8>, cgram: Seq<u16>, value: u8) -> (
    u8,
    Option<u8>,
    Seq<u16>,
) {
    match latch {
        None => (cgaddr, Some(value), cgram),
        Some(lo) => (
            ((cgaddr + 1) % 256) as u8,
            None,
            cgram.update(cgaddr as int, cgram_word_spec(lo, value)),
        ),
    }
}

/// A pair of data-port writes after the address is set stores the colour
/// `(hi << 8 | lo) & 0x7FFF` at that entry, leaves the other entries, and
/// moves to the next entry with no byte pending.
pub proof fn lemma_cgram_pair(addr: u8, cgram: Seq<u16>, lo: u8, hi: u8)
    requires
        cgram.len() == CGRAM_SIZE,
    ensures
        ({
            let s1 = cgram_port_spec(addr, None, cgram, lo);
            let s2 = cgram_port_spec(s1.0, s1.1, s1.2, hi);
            &&& s2.2[addr as int] == cgram_word_spec(lo, hi)
            &&& s2.2[addr as int] < 0x8000
            &&& forall|i: int| 0 <= i < CGRAM_SIZE && i != addr ==> s2.2[i] == cgram[i]
            &&& s2.0 == (addr + 1) % 256
            &&& s2.1 is None
        }),
{
}

/// A byte written to VRAM inside it reads back unchanged, and the write
/// leaves every other byte; past the end of VRAM reads give 0 and writes
/// change nothing.
pub proof fn lemma_tile_vram_round_trip(vram: Seq<u8>, addr: int, value: u8, other: int)
    requires
        vram.len() == VRAM_SIZE,
        other != addr,
    ensures
        0 <= addr < VRAM_SIZE ==> vram_read_spec(vram.update(addr, value), addr) == value,
        0 <= addr < VRAM_SIZE ==> vram_read_spec(vram.update(addr, value), other) == vram_read_spec(
            vram,
            other,
        ),
        addr >= VRAM_SIZE ==> vram_read_spec(vram, addr) == 0,
{
}

impl PPU {
    /// All memories have their sizes.
    pub open spec fn wf(&self) -> bool {
        &&& self.framebuffer@.len() == FRAME_PIXELS
        &&& self.vram@.len() == VRAM_SIZE
        &&& self.cgram@.len() == CGRAM_SIZE
        &&& self.oam@.len() == OAM_MAX_SPRITES
    }

    /// A PPU with an all-zero framebuffer, zeroed VRAM, the grey ramp of
    /// [`ramp_color`] in CGRAM, an empty sprite table, CGRAM address 0 and
    /// no pending low byte.
    pub fn new() -> (r: Self)
        ensures
            r.wf(),
            forall|i: int| 0 <= i < FRAME_PIXELS ==> r.framebuffer@[i] == 0,
            forall|i: int| 0 <= i < VRAM_SIZE ==> r.vram@[i] == 0,
            forall|i: int| 0 <= i < CGRAM_SIZE ==> r.cgram@[i] == ramp_color(i as u16),
            forall|i: int| 0 <= i < OAM_MAX_SPRITES ==> r.oam@[i] == empty_sprite(),
            r.cgaddr == 0,
            r.latch.is_none(),
    {
        let framebuffer: Vec<u32> = vec![0u32; FRAME_PIXELS];
        let vram: Vec<u8> = vec![0u8; VRAM_SIZE];
        let mut cgram: Vec<u16> = Vec::with_capacity(CGRAM_SIZE);
        for i in 0..CGRAM_SIZE
            invariant
                cgram@.len() == i,
                forall|k: int| 0 <= k < i ==> cgram@[k] == ramp_color(k as u16),
        {
            let v = i as u16;
            cgram.push((v | (v << 5u16) | (v << 10u16)) & 0x7FFF);
        }
        let oam: Vec<Sprite> = vec![Sprite { x: 0, y: 0, tile: 0, attr: 0, filed: false }; OAM_MAX_SPRITES];
        PPU { framebuffer, vram, cgram, oam, cgaddr: 0, latch: None }
    }

    /// Number of CGRAM entries.
    pub fn cgram_len(&self) -> (r: usize)
        ensures
            r == self.cgram@.len(),
    {
        self.cgram.len()
    }

    /// Points the CGRAM data port at entry `addr` and drops any pending
    /// low byte.
    pub fn set_cgram_addr(&mut self, addr: u8)
        ensures
            final(self).cgaddr == addr,
            final(self).latch.is_none(),
            final(self).framebuffer == old(self).framebuffer,
            final(self).vram == old(self).vram,
            final(self).cgram == old(self).cgram,
            final(self).oam == old(self).oam,
    {
        self.cgaddr = addr;
        self.latch = None;
    }

    /// A write to the CGRAM data port. The first write of a pair is held;
    /// the second stores `(value << 8 | held) & 0x7FFF` at the current
    /// entry and moves to the next entry, wrapping after 255.
    pub fn write_cgram_data(&mut self, value: u8)
        requires
            old(self).wf(),
        ensures
            final(self).wf(),
            final(self).framebuffer == old(self).framebuffer,
            final(self).vram == old(self).vram,
            final(self).oam == old(self).oam,
            (final(self).cgaddr, final(self).latch, final(self).cgram@) == cgram_port_spec(
                old(self).cgaddr,
                old(self).latch,
                old(self).cgram@,
                value,
            ),
    {
        match self.latch {
            None => {
                self.latch = Some(value);
            },
            Some(lo) => {
                let color: u16 = (((value as u16) << 8u16) | (lo as u16)) & 0x7FFF;
                proof {
                    assert(color == cgram_word_spec(lo, value)) by (bit_vector)
                        requires
                            color == (((value as u16) << 8u16) | (lo as u16)) & 0x7FFF,
                    ;
                }
                let i = self.cgaddr as usize;
                self.cgram.set(i, color);
                self.cgaddr = self.cgaddr.wrapping_add(1);
                self.latch = None;
            },
        }
    }

    /// Current CGRAM entry of the data port.
    pub fn get_cgaddr(&self) -> (r: u8)
        ensures
            r == self.cgaddr,
    {
        self.cgaddr
    }

    /// Whether a low byte is waiting for its high byte.
    pub fn is_latch_set(&self) -> (r: bool)
        ensures
            r == self.latch.is_some(),
    {
        self.latch.is_some()
    }

    /// The raw 15-bit colour at entry `index`, or 0 past the end.
    pub fn get_cgram_value(&self, index: usize) -> (r: u16)
        ensures
            index < self.cgram@.len() ==> r == self.cgram@[index as int],
            index >= self.cgram@.len() ==> r == 0,
    {
        if index < self.cgram.len() {
            self.cgram[index]
        } else {
            0
        }
    }

    /// The colour at entry `index` as opaque ARGB.
    pub fn read_cgram(&self, index: u8) -> (r: u32)
        requires
            self.wf(),
        ensures
            r == argb_spec(self.cgram@[index as int]),
    {
        bgr555_to_argb(self.cgram[index as usize])
    }

    /// Sprite table entry `index`, or `None` past the end.
    pub fn get_oam_sprite(&self, index: usize) -> (r: Option<Sprite>)
        ensures
            index < self.oam@.len() ==> r == Some(self.oam@[index as int]),
            index >= self.oam@.len() ==> r.is_none(),
    {
        if index < self.oam.len() {
            Some(self.oam[index])
        } else {
            None
        }
    }

    /// Stores `sprite` at entry `index`; past the end nothing changes.
    pub fn set_oam_sprite(&mut self, index: usize, sprite: Sprite)
        ensures
            final(self).oam@ == if index < old(self).oam@.len() {
                old(self).oam@.update(index as int, sprite)
            } else {
                old(self).oam@
            },
            final(self).framebuffer == old(self).framebuffer,
            final(self).vram == old(self).vram,
            final(self).cgram == old(self).cgram,
            final(self).cgaddr == old(self).cgaddr,
            final(self).latch == old(self).latch,
    {
        if index < self.oam.len() {
            self.oam.set(index, sprite);
        }
    }

    /// Stores `value` at VRAM byte `addr`; past the end nothing changes.
    pub fn write_vram(&mut self, addr: usize, value: u8)
        ensures
            final(self).vram@ == if addr < old(self).vram@.len() {
                old(self).vram@.update(addr as int, value)
            } else {
                old(self).vram@
            },
            final(self).framebuffer == old(self).framebuffer,
            final(self).cgram == old(self).cgram,
            final(self).oam == old(self).oam,
            final(self).cgaddr == old(self).cgaddr,
            final(self).latch == old(self).latch,
    {
        if addr < self.vram.len() {
            self.vram.set(addr, value);
        }
    }

    /// VRAM byte `addr`, or 0 past the end.
    pub fn read_vram(&self, addr: usize) -> (r: u8)
        ensures
            r == vram_read_spec(self.vram@, addr as int),
    {
        if addr < self.vram.len() {
            self.vram[addr]
        } else {
            0
        }
    }

    /// The 64 pixels of tile `tile_index` in row-major order, each palette
    /// index `v` shown as the grey ARGB `v * 16` in every channel.
    pub fn get_tile_from_vram(&self, tile_index: usize) -> (r: Vec<u32>)
        requires
            tile_index * 64 + 64 <= usize::MAX,
        ensures
            r@.len() == 64,
            forall|y: int, x: int|
                0 <= y < 8 && 0 <= x < 8 ==> #[trigger] r@[y * 8 + x] == tile_grey_spec(
                    self.vram@,
                    tile_index as int,
                    x,
                    y,
                ),
    {
        let mut tile_pixels: Vec<u32> = Vec::new();
        let base_addr = tile_index * TILE_SIZE * TILE_SIZE;
        for j in 0..TILE_PIXELS
            invariant
                base_addr == tile_index * 64,
                tile_index * 64 + 64 <= usize::MAX,
                tile_pixels@.len() == j,
                forall|k: int|
                    0 <= k < j ==> #[trigger] tile_pixels@[k] == grey_spec(
                        vram_read_spec(self.vram@, tile_index * 64 + k),
                    ),
        {
            let value = self.read_vram(base_addr + j);
            let color: u32 = (value as u32) * 16;
            let argb: u32 = 0xFF00_0000u32 | (color << 16u32) | (color << 8u32) | color;
            tile_pixels.push(argb);
        }
        tile_pixels
    }

    /// Draws tile `tile_index` into the 8x8 cell at tile column `tile_x`,
    /// tile row `tile_y`, as [`Self::get_tile_from_vram`] shows it; pixels
    /// that fall outside the framebuffer are dropped.
    pub fn render_tile_from_vram(&mut self, tile_index: usize, tile_x: usize, tile_y: usize)
        requires
            old(self).wf(),
            tile_index * 64 + 64 <= usize::MAX,
            tile_x * 8 + 8 <= usize::MAX,
            tile_y * 8 + 8 <= usize::MAX,
        ensures
            final(self).wf(),
            final(self).vram == old(self).vram,
            final(self).cgram == old(self).cgram,
            final(self).oam == old(self).oam,
            final(self).cgaddr == old(self).cgaddr,
            final(self).latch == old(self).latch,
            forall|px: int, py: int|
                0 <= px < 256 && 0 <= py < 256 ==> #[trigger] pixel_at(final(self).framebuffer@, px, py)
                    == if in_cell(px, py, tile_x as int, tile_y as int) {
                    tile_grey_spec(old(self).vram@, tile_index as int, px - tile_x * 8, py - tile_y * 8)
                } else {
                    pixel_at(old(self).framebuffer@, px, py)
                },
    {
        let tile_pixels = self.get_tile_from_vram(tile_index);
        let ghost fb0 = self.framebuffer@;
        for y in 0..TILE_SIZE
            invariant
                self.wf(),
                self.vram == old(self).vram,
                self.cgram == old(self).cgram,
                self.oam == old(self).oam,
                self.cgaddr == old(self).cgaddr,
                self.latch == old(self).latch,
                fb0 == old(self).framebuffer@,
                tile_pixels@.len() == 64,
                tile_x * 8 + 8 <= usize::MAX,
                tile_y * 8 + 8 <= usize::MAX,
                forall|yy: int, xx: int|
                    0 <= yy < 8 && 0 <= xx < 8 ==> #[trigger] tile_pixels@[yy * 8 + xx]
                        == tile_grey_spec(old(self).vram@, tile_index as int, xx, yy),
                forall|px: int, py: int|
                    0 <= px < 256 && 0 <= py < 256 ==> #[trigger] pixel_at(self.framebuffer@, px, py)
                        == if in_cell(px, py, tile_x as int, tile_y as int) && py < tile_y * 8 + y {
                        tile_grey_spec(old(self).vram@, tile_index as int, px - tile_x * 8, py - tile_y * 8)
                    } else {
                        pixel_at(fb0, px, py)
                    },
        {
            for x in 0..TILE_SIZE
                invariant
                    self.wf(),
                    self.vram == old(self).vram,
                    self.cgram == old(self).cgram,
                    self.oam == old(self).oam,
                    self.cgaddr == old(self).cgaddr,
                    self.latch == old(self).latch,
                    fb0 == old(self).framebuffer@,
                    y < 8,
                    tile_pixels@.len() == 64,
                    tile_x * 8 + 8 <= usize::MAX,
                    tile_y * 8 + 8 <= usize::MAX,
                    forall|yy: int, xx: int|
                        0 <= yy < 8 && 0 <= xx < 8 ==> #[trigger] tile_pixels@[yy * 8 + xx]
                            == tile_grey_spec(old(self).vram@, tile_index as int, xx, yy),
                    forall|px: int, py: int|
                        0 <= px < 256 && 0 <= py < 256 ==> #[trigger] pixel_at(self.framebuffer@, px, py)
                            == if in_cell(px, py, tile_x as int, tile_y as int) && (py < tile_y * 8 + y
                            || (py == tile_y * 8 + y && px < tile_x * 8 + x)) {
                            tile_grey_spec(old(self).vram@, tile_index as int, px - tile_x * 8, py - tile_y * 8)
                        } else {
                            pixel_at(fb0, px, py)
                        },
            {
                let px = tile_x * TILE_SIZE + x;
                let py = tile_y * TILE_SIZE + y;
                if px < WIDTH && py < HEIGHT {
                    let color = tile_pixels[y * TILE_SIZE + x];
                    let ghost before = self.framebuffer@;
                    self.framebuffer.set(py * WIDTH + px, color);
                    proof {
                        assert forall|qx: int, qy: int|
                            0 <= qx < 256 && 0 <= qy < 256 implies #[trigger] pixel_at(self.framebuffer@, qx, qy)
                                == if qx == px && qy == py {
                                color
                            } else {
                                pixel_at(before, qx, qy)
                            } by {
                            if qx != px || qy != py {
                                assert(qy * 256 + qx != py * 256 + px);
                            }
                        }
                        assert(color == tile_grey_spec(old(self).vram@, tile_index as int, x as int, y as int));
                    }
                }
            }
        }
    }

    /// Writes each tile's pixels into VRAM, tile `t` from byte `t * 64` on,
    /// one byte per pixel: the pixel's red channel shifted right by `shift`.
    /// With `skip_short`, tiles of fewer than 64 pixels are passed over.
    pub(crate) fn load_tiles(&mut self, tiles: &Vec<Vec<[u8; 4]>>, shift: u8, skip_short: bool)
        requires
            old(self).wf(),
            shift < 8,
            tiles@.len() * 64 <= usize::MAX,
            !skip_short ==> forall|t: int| 0 <= t < tiles@.len() ==> #[trigger] tiles@[t]@.len() >= 64,
        ensures
            final(self).wf(),
            final(self).vram@ == loaded_vram(old(self).vram@, tiles@, shift, skip_short),
            final(self).framebuffer == old(self).framebuffer,
            final(self).cgram == old(self).cgram,
            final(self).oam == old(self).oam,
            final(self).cgaddr == old(self).cgaddr,
            final(self).latch == old(self).latch,
    {
        let ghost v0 = self.vram@;
        let n = tiles.len();
        for t in 0..n
            invariant
                n == tiles@.len(),
                self.wf(),
                v0 == old(self).vram@,
                shift < 8,
                tiles@.len() * 64 <= usize::MAX,
                !skip_short ==> forall|k: int| 0 <= k < tiles@.len() ==> #[trigger] tiles@[k]@.len() >= 64,
                self.framebuffer == old(self).framebuffer,
                self.cgram == old(self).cgram,
                self.oam == old(self).oam,
                self.cgaddr == old(self).cgaddr,
                self.latch == old(self).latch,
                forall|a: int|
                    0 <= a < VRAM_SIZE ==> #[trigger] self.vram@[a] == if a / 64 < t {
                        match loaded_byte(tiles@, a, shift, skip_short) {
                            Some(v) => v,
                            None => v0[a],
                        }
                    } else {
                        v0[a]
                    },
        {
            let tile = &tiles[t];
            if tile.len() >= TILE_PIXELS || !skip_short {
                let base_addr = t * TILE_PIXELS;
                for j in 0..TILE_PIXELS
                    invariant
                        n == tiles@.len(),
                        t < n,
                        *tile == tiles@[t as int],
                        tile@.len() >= 64,
                        base_addr == t * 64,
                        self.wf(),
                        v0 == old(self).vram@,
                        shift < 8,
                        tiles@.len() * 64 <= usize::MAX,
                        self.framebuffer == old(self).framebuffer,
                        self.cgram == old(self).cgram,
                        self.oam == old(self).oam,
                        self.cgaddr == old(self).cgaddr,
                        self.latch == old(self).latch,
                        forall|a: int|
                            0 <= a < VRAM_SIZE ==> #[trigger] self.vram@[a] == if a / 64 < t || (a / 64 == t
                                && a % 64 < j) {
                                match loaded_byte(tiles@, a, shift, skip_short) {
                                    Some(v) => v,
                                    None => v0[a],
                                }
                            } else {
                                v0[a]
                            },
                {
                    let pixel = tile[j];
                    let value = pixel[0] >> shift;
                    let addr = base_addr + j;
                    proof {
                        lemma_tile_addr(t as int, j as int);
                    }
                    self.write_vram(addr, value);
                }
            } else {
                proof {
                    assert forall|a: int| 0 <= a < VRAM_SIZE && a / 64 == t implies loaded_byte(
                        tiles@,
                        a,
                        shift,
                        skip_short,
                    ) is None by {}
                }
            }
        }
        proof {
            assert(self.vram@ =~= loaded_vram(v0, tiles@, shift, skip_short)) by {
                assert forall|a: int| 0 <= a < VRAM_SIZE implies #[trigger] self.vram@[a] == loaded_vram(
                    v0,
                    tiles@,
                    shift,
                    skip_short,
                )[a] by {
                    if a / 64 >= n {
                        assert(loaded_byte(tiles@, a, shift, skip_short) is None);
                    }
                }
            }
        }
    }

    /// Loads tiles into VRAM, tile `t` from byte `t * 64` on: each pixel's
    /// red channel divided by 16 becomes its palette index. Every tile must
    /// hold at least 64 pixels; bytes past the end of VRAM are dropped.
    pub fn load_tiles_into_vram(&mut self, tiles: &Vec<Vec<[u8; 4]>>)
        requires
            old(self).wf(),
            tiles@.len() * 64 <= usize::MAX,
            forall|t: int| 0 <= t < tiles@.len() ==> #[trigger] tiles@[t]@.len() >= 64,
        ensures
            final(self).wf(),
            final(self).vram@ == loaded_vram(old(self).vram@, tiles@, 4, false),
            final(self).framebuffer == old(self).framebuffer,
            final(self).cgram == old(self).cgram,
            final(self).oam == old(self).oam,
            final(self).cgaddr == old(self).cgaddr,
            final(self).latch == old(self).latch,
    {
        self.load_tiles(tiles, 4, false);
    }
}

} // verus!
