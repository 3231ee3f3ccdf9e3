use vstd::prelude::*;

use crate::color::{blue5, expand5, green5, red5};
use crate::constants::{SCREEN_HEIGHT, SCREEN_WIDTH};
use crate::oam::eval_spec;
use crate::ppu::PPU;
use crate::registers::PPURegisters;
use crate::rendering::bg1::{bg1_fetch_in_range, line_with_bg1};
use crate::rendering::mode_1::Mode1Render;
use crate::rendering::sprites::line_with_sprites;

verus! {

/// Bytes in an RGB888 framebuffer of the visible picture.
pub const FRAMEBUFFER_LEN: usize = 172032;

/// Raw byte array of the framebuffer in RGB888
pub type RawFramebuffer = Vec<u8>;

// ============================================================
// Z-order (priority) values. Higher = closer to the front.
// A pixel is only overwritten when the incoming z is >= the z stored
// for that column. Every (layer, priority) pair gets a UNIQUE value, so
// draw order between layers is irrelevant and one scale serves both modes.
//
// Mode 0 (front -> back):
//   OBJ3 > BG1.1 > BG2.1 > OBJ2 > BG1.0 > BG2.0 > OBJ1 >
//   BG3.1 > BG4.1 > OBJ0 > BG3.0 > BG4.0 > backdrop
//
// Mode 1, BGMODE bit3 = 0 (front -> back):
//   OBJ3 > BG1.1 > BG2.1 > OBJ2 > BG1.0 > BG2.0 > OBJ1 >
//   BG3.1 > OBJ0 > BG3.0 > backdrop
//
// Mode 1, BGMODE bit3 = 1: BG3.1 is lifted above everything (Z_BG3_PRIO).
// ============================================================
pub const Z_BACKDROP: u8 = 0;
pub const Z_BG4_LOW: u8 = 1;
pub const Z_BG3_LOW: u8 = 2;
pub const Z_OBJ0: u8 = 3;
pub const Z_BG4_HIGH: u8 = 4;
pub const Z_BG3_HIGH: u8 = 5;
pub const Z_OBJ1: u8 = 6;
pub const Z_BG2_LOW: u8 = 7;
pub const Z_BG1_LOW: u8 = 8;
pub const Z_OBJ2: u8 = 9;
pub const Z_BG2_HIGH: u8 = 10;
pub const Z_BG1_HIGH: u8 = 11;
pub const Z_OBJ3: u8 = 12;
/// Mode 1, BGMODE bit3: BG3 high-prio above all
pub const Z_BG3_PRIO: u8 = 13;

/// Identity of the layer that produced a pixel. Needed by color math, which
/// enables/disables per layer (CGADSUB) and treats OBJ specially.
#[derive(Clone, Copy, PartialEq, Eq, Structural)]
pub enum Layer {
    Backdrop,
    Bg1,
    Bg2,
    Bg3,
    Bg4,
    Obj,
}

/// CGADSUB layer-enable bit index (BG1=0..BG4=3, OBJ=4, backdrop=5).
pub open spec fn math_bit_spec(l: Layer) -> u8 {
    match l {
        Layer::Bg1 => 0,
        Layer::Bg2 => 1,
        Layer::Bg3 => 2,
        Layer::Bg4 => 3,
        Layer::Obj => 4,
        Layer::Backdrop => 5,
    }
}

impl Layer {
    /// The layer of background `bg` (0 = BG1 ... 3 = BG4; anything above 3
    /// is BG4).
    pub fn from_bg(bg: usize) -> (r: Layer)
        ensures
            r == (if bg == 0 {
                Layer::Bg1
            } else if bg == 1 {
                Layer::Bg2
            } else if bg == 2 {
                Layer::Bg3
            } else {
                Layer::Bg4
            }),
    {
        match bg {
            0 => Layer::Bg1,
            1 => Layer::Bg2,
            2 => Layer::Bg3,
            _ => Layer::Bg4,
        }
    }

    /// CGADSUB layer-enable bit index (BG1=0..BG4=3, OBJ=4, backdrop=5).
    pub fn math_bit(self) -> (r: u8)
        ensures
            r == math_bit_spec(self),
    {
        match self {
            Layer::Bg1 => 0,
            Layer::Bg2 => 1,
            Layer::Bg3 => 2,
            Layer::Bg4 => 3,
            Layer::Obj => 4,
            Layer::Backdrop => 5,
        }
    }
}

/// One composited pixel of a screen (main or sub), before color math.
#[derive(Clone, Copy)]
pub struct LinePixel {
    pub color: u16,
    pub z: u8,
    pub layer: Layer,
    /// OBJ pixels only do color math when the sprite uses palettes 4-7.
    pub obj_math: bool,
}

/// The backdrop pixel of a screen whose backdrop colour is `color`.
pub open spec fn backdrop_spec(color: u16) -> LinePixel {
    LinePixel { color, z: Z_BACKDROP, layer: Layer::Backdrop, obj_math: false }
}

/// The pixel a screen column holds after `px` is deposited on `cur`: the
/// incoming pixel wins when it is at least as close to the front.
pub open spec fn deposit_spec(cur: LinePixel, px: LinePixel) -> LinePixel {
    if px.z >= cur.z {
        px
    } else {
        cur
    }
}

/// Parameters for rendering one BG layer on one scanline.
pub struct BgParams<'a> {
    pub tilemap_base: u16,
    pub tiledata_base: u16,
    pub scroll_x: usize,
    pub scroll_y: usize,
    /// 2 or 4
    pub bpp: u8,
    /// CGRAM colour offset (mode 0 per-layer); 0 otherwise
    pub palette_base: u8,
    /// tilemap 64 tiles wide
    pub w64: bool,
    /// tilemap 64 tiles tall
    pub h64: bool,
    pub z_low: u8,
    pub z_high: u8,
    pub layer: Layer,
    /// enabled on main screen (TM)
    pub to_main: bool,
    /// enabled on sub screen (TS)
    pub to_sub: bool,
    /// per-column window region for this layer
    pub window: &'a [bool; 256],
    /// window removes this layer from main (TMW)
    pub win_main: bool,
    /// window removes this layer from sub (TSW)
    pub win_sub: bool,
}

/// Scanline renderer: composes the main and sub screens of one scanline and
/// writes the result, after colour math and brightness, into the framebuffer.
pub struct Renderer {
    /// back buffer, PPU writes here
    pub framebuffer: RawFramebuffer,
    /// front buffer, GUI reads here
    pub presented: RawFramebuffer,
    pub current_brightness: u8,
    /// Per-column top pixel of the main screen for the scanline being rendered.
    pub main_line: Vec<LinePixel>,
    /// Per-column top pixel of the sub screen for the scanline being rendered.
    pub sub_line: Vec<LinePixel>,
    pub brightness_delay: u8,
}

// ============================================================
// Brightness
// ============================================================

/// A 5-bit channel scaled by brightness `b` (0-15 on hardware): c * (b+1) / 16.
pub open spec fn scale_channel(c: int, b: int) -> u16 {
    (c * (b + 1) / 16) as u16
}

/// A scaled channel widened to 8 bits: shifted up by 3, with its top bits
/// repeated below.
pub open spec fn widen(s: u16) -> u8 {
    ((s << 3) | (s >> 2)) as u8
}

/// The RGB888 triple of a BGR555 colour at brightness `b`.
pub open spec fn brightness_rgb(color: u16, b: int) -> (u8, u8, u8) {
    (
        widen(scale_channel(red5(color), b)),
        widen(scale_channel(green5(color), b)),
        widen(scale_channel(blue5(color), b)),
    )
}

/// Brightness after one scanline's step toward `target`: nothing once there;
/// otherwise a 72-line delay starts, and each line of a running delay steps
/// the brightness by one toward the target.
pub open spec fn brightness_step(current: u8, delay: u8, target: u8) -> (u8, u8) {
    if current == target {
        (current, delay)
    } else if delay == 0 {
        (current, 72)
    } else if current < target {
        ((current + 1) as u8, (delay - 1) as u8)
    } else {
        ((current - 1) as u8, (delay - 1) as u8)
    }
}

// ============================================================
// Colour math
// ============================================================

/// One channel of colour math: add (clamped to 31) or subtract (clamped to
/// 0), then halve if asked.
pub open spec fn channel_math(m: int, s: int, subtract: bool, half: bool) -> int {
    let v = if subtract {
        if m >= s {
            m - s
        } else {
            0
        }
    } else {
        if m + s <= 31 {
            m + s
        } else {
            31
        }
    };
    if half {
        v / 2
    } else {
        v
    }
}

/// Per-channel BGR555 add/subtract with optional halving.
pub open spec fn color_math_spec(main: u16, sub: u16, subtract: bool, half: bool) -> u16 {
    (channel_math(red5(main), red5(sub), subtract, half) + channel_math(
        green5(main),
        green5(sub),
        subtract,
        half,
    ) * 32 + channel_math(blue5(main), blue5(sub), subtract, half) * 1024) as u16
}

fn clamp31(v: u16) -> (r: u16)
    ensures
        r == if v <= 31 { v } else { 31 },
{
    v.min(31)
}

fn halve(v: u16) -> (r: u16)
    ensures
        r == v / 2,
{
    assert(v >> 1 == v / 2) by (bit_vector);
    v >> 1
}

// ============================================================
// Framebuffer
// ============================================================

/// Byte offset of pixel (x, y) in the framebuffer.
pub open spec fn pixel_offset(x: int, y: int) -> int {
    (y * SCREEN_WIDTH + x) * 3
}

/// The framebuffer with pixel (x, y) set to `rgb`.
pub open spec fn with_pixel(fb: Seq<u8>, x: int, y: int, rgb: (u8, u8, u8)) -> Seq<u8> {
    let i = pixel_offset(x, y);
    fb.update(i, rgb.0).update(i + 1, rgb.1).update(i + 2, rgb.2)
}

/// Whether byte `i` of the framebuffer lies on scanline `y`.
pub open spec fn on_row(i: int, y: int) -> bool {
    y * SCREEN_WIDTH * 3 <= i < (y + 1) * SCREEN_WIDTH * 3
}

/// Whether bit `n` of `v` is set.
pub open spec fn bit_set(v: u8, n: u8) -> bool {
    (v >> n) & 1 == 1
}

/// Colour of one composited pixel before brightness: the main-screen pixel,
/// clipped to black when CGWSEL bits 7-6 say "always", combined by colour
/// math with the sub screen (CGWSEL bit 1) or the fixed colour when CGWSEL
/// bits 5-4 allow math and CGADSUB enables it for the main pixel's layer
/// (for OBJ pixels, only those with a palette of 4-7).
pub open spec fn composite_color(regs: PPURegisters, main: LinePixel, sub: LinePixel) -> u16 {
    let subtract = bit_set(regs.cgadsub, 7);
    let half = bit_set(regs.cgadsub, 6);
    let use_subscreen = bit_set(regs.cgwsel, 1);
    let clip_mode = regs.cgwsel / 64;
    let math_region = (regs.cgwsel / 16) % 4;
    let main_color = if clip_mode == 3 {
        0
    } else {
        main.color
    };
    let layer_enabled = match main.layer {
        Layer::Obj => bit_set(regs.cgadsub, 4) && main.obj_math,
        l => bit_set(regs.cgadsub, math_bit_spec(l)),
    };
    if math_region != 3 && layer_enabled {
        let other = if use_subscreen {
            sub.color
        } else {
            regs.coldata as u16
        };
        color_math_spec(main_color, other, subtract, half)
    } else {
        main_color
    }
}

/// How the colour-math registers drive one composited pixel. CGWSEL bits
/// 7-6 = 3 clip the main colour to black; colour math applies unless CGWSEL
/// bits 5-4 = 3, and only when CGADSUB enables the main pixel's layer (bit 0
/// BG1, 1 BG2, 2 BG3, 3 BG4, 4 OBJ for sprites of palettes 4-7, 5
/// backdrop); it then combines the main colour with the sub-screen colour
/// when CGWSEL bit 1 is set and with the fixed colour (COLDATA) otherwise,
/// subtracting when CGADSUB bit 7 is set and adding otherwise, halving when
/// CGADSUB bit 6 is set (see [`lemma_color_math_channels`] for the
/// channels).
pub proof fn lemma_composite_controls(regs: PPURegisters, main: LinePixel, sub: LinePixel)
    ensures
        ({
            let a = regs.cgadsub;
            let w = regs.cgwsel;
            let main_color: u16 = if (w >> 6u8) & 0x03 == 3 {
                0
            } else {
                main.color
            };
            let enabled = match main.layer {
                Layer::Bg1 => a & 0x01 != 0,
                Layer::Bg2 => a & 0x02 != 0,
                Layer::Bg3 => a & 0x04 != 0,
                Layer::Bg4 => a & 0x08 != 0,
                Layer::Obj => a & 0x10 != 0 && main.obj_math,
                Layer::Backdrop => a & 0x20 != 0,
            };
            composite_color(regs, main, sub) == if (w >> 4u8) & 0x03 != 3 && enabled {
                color_math_spec(
                    main_color,
                    if w & 0x02 != 0 {
                        sub.color
                    } else {
                        regs.coldata as u16
                    },
                    a & 0x80 != 0,
                    a & 0x40 != 0,
                )
            } else {
                main_color
            }
        }),
{
    crate::bits::lemma_byte_masks(regs.cgadsub);
    crate::bits::lemma_byte_masks(regs.cgwsel);
}

/// `new` is `old` with every pixel of scanline `y` set to `px(x)`.
pub open spec fn row_written(new: Seq<u8>, old: Seq<u8>, y: int, px: spec_fn(int) -> (u8, u8, u8)) -> bool {
    &&& new.len() == old.len()
    &&& forall|i: int| 0 <= i < old.len() && !on_row(i, y) ==> #[trigger] new[i] == old[i]
    &&& forall|x: int|
        0 <= x < SCREEN_WIDTH ==> {
            &&& #[trigger] new[pixel_offset(x, y)] == px(x).0
            &&& new[pixel_offset(x, y) + 1] == px(x).1
            &&& new[pixel_offset(x, y) + 2] == px(x).2
        }
}

/// `new` is `old` with pixels 0..n of scanline `y` set to `px(x)`.
pub open spec fn row_prefix_written(
    new: Seq<u8>,
    old: Seq<u8>,
    y: int,
    n: int,
    px: spec_fn(int) -> (u8, u8, u8),
) -> bool {
    &&& new.len() == old.len()
    &&& forall|i: int|
        0 <= i < old.len() && !(y * SCREEN_WIDTH * 3 <= i < y * SCREEN_WIDTH * 3 + n * 3)
            ==> #[trigger] new[i] == old[i]
    &&& forall|x: int|
        0 <= x < n ==> {
            &&& #[trigger] new[pixel_offset(x, y)] == px(x).0
            &&& new[pixel_offset(x, y) + 1] == px(x).1
            &&& new[pixel_offset(x, y) + 2] == px(x).2
        }
}

/// Writing pixel n of a row whose first n pixels are written extends the
/// written prefix by one pixel.
pub proof fn lemma_row_prefix_step(
    before: Seq<u8>,
    after: Seq<u8>,
    old: Seq<u8>,
    y: int,
    n: int,
    px: spec_fn(int) -> (u8, u8, u8),
)
    requires
        0 <= y < SCREEN_HEIGHT,
        0 <= n < SCREEN_WIDTH,
        before.len() == FRAMEBUFFER_LEN,
        row_prefix_written(before, old, y, n, px),
        after == with_pixel(before, n, y, px(n)),
    ensures
        row_prefix_written(after, old, y, n + 1, px),
{
    assert forall|k: int| 0 <= k < n + 1 implies {
        &&& #[trigger] after[pixel_offset(k, y)] == px(k).0
        &&& after[pixel_offset(k, y) + 1] == px(k).1
        &&& after[pixel_offset(k, y) + 2] == px(k).2
    } by {
        if k < n {
            assert(before[pixel_offset(k, y)] == px(k).0);
            assert(before[pixel_offset(k, y) + 1] == px(k).1);
            assert(before[pixel_offset(k, y) + 2] == px(k).2);
        }
    }
}

/// A row whose 256 pixels are written is a written row.
pub proof fn lemma_row_prefix_done(new: Seq<u8>, old: Seq<u8>, y: int, px: spec_fn(int) -> (u8, u8, u8))
    requires
        row_prefix_written(new, old, y, SCREEN_WIDTH as int, px),
    ensures
        row_written(new, old, y, px),
{
}

/// Once a whole row is written, what was drawn on that row before no longer
/// matters: the result relates to the buffer before the earlier drawing.
pub proof fn lemma_row_overwritten(
    new: Seq<u8>,
    mid: Seq<u8>,
    old: Seq<u8>,
    y: int,
)
    requires
        mid.len() == old.len(),
        forall|i: int| 0 <= i < old.len() && !on_row(i, y) ==> #[trigger] mid[i] == old[i],
        new.len() == mid.len(),
        forall|i: int| 0 <= i < mid.len() && !on_row(i, y) ==> #[trigger] new[i] == mid[i],
    ensures
        forall|i: int| 0 <= i < old.len() && !on_row(i, y) ==> #[trigger] new[i] == old[i],
{
    assert forall|i: int| 0 <= i < old.len() && !on_row(i, y) implies #[trigger] new[i] == old[i] by {
        assert(new[i] == mid[i]);
    }
}

/// Colour of one composited pixel, before brightness.
fn composite_pixel(regs: &PPURegisters, main: LinePixel, sub: LinePixel) -> (out: u16)
    ensures
        out == composite_color(*regs, main, sub),
{
    let cgwsel = regs.cgwsel;
    let cgadsub = regs.cgadsub;

    let subtract = cgadsub & 0x80 != 0;
    let half = cgadsub & 0x40 != 0;
    let use_subscreen = cgwsel & 0x02 != 0;  // CGWSEL bit1 (A)
    let fixed = regs.coldata as u16;

    let clip_mode = (cgwsel >> 6) & 0x03;  // 0=never 1=out 2=in 3=always
    let math_region = (cgwsel >> 4) & 0x03;  // 0=always 1=in 2=out 3=never
    proof {
        assert(subtract == bit_set(cgadsub, 7) && half == bit_set(cgadsub, 6) && use_subscreen
            == bit_set(cgwsel, 1) && clip_mode == cgwsel / 64 && math_region == (cgwsel / 16) % 4)
            by (bit_vector)
            requires
                subtract == (cgadsub & 0x80 != 0),
                half == (cgadsub & 0x40 != 0),
                use_subscreen == (cgwsel & 0x02 != 0),
                clip_mode == (cgwsel >> 6) & 0x03,
                math_region == (cgwsel >> 4) & 0x03,
        ;
    }

    // Clip main screen to black. Window-relative cases (1/2) need the
    // color window, which is not modelled yet.
    let force_black = clip_mode == 3;
    let main_color = if force_black {
        0
    } else {
        main.color
    };

    // Is color math active on this pixel? Regions 1/2 need the color
    // window as well.
    let region_ok = math_region != 3;
    let layer_enabled = match main.layer {
        Layer::Obj => {
            assert((cgadsub & 0x10 != 0) == bit_set(cgadsub, 4)) by (bit_vector);
            (cgadsub & 0x10 != 0) && main.obj_math
        },
        l => {
            let bit = l.math_bit();
            assert((cgadsub & (1u8 << bit) != 0) == bit_set(cgadsub, bit)) by (bit_vector)
                requires
                    bit < 8,
            ;
            cgadsub & (1 << bit) != 0
        },
    };

    if region_ok && layer_enabled {
        let other = if use_subscreen {
            sub.color
        } else {
            fixed
        };
        Renderer::color_math(main_color, other, subtract, half)
    } else {
        main_color
    }
}

/// `new` is `old` with pixel x of scanline `y` set to `px(x)` for every
/// x < n for which `drawn(x)` holds, and nothing else changed.
pub open spec fn row_prefix_masked(
    new: Seq<u8>,
    old: Seq<u8>,
    y: int,
    n: int,
    drawn: spec_fn(int) -> bool,
    px: spec_fn(int) -> (u8, u8, u8),
) -> bool {
    &&& new.len() == old.len()
    &&& forall|i: int|
        0 <= i < old.len() && !(y * SCREEN_WIDTH * 3 <= i < y * SCREEN_WIDTH * 3 + n * 3)
            ==> #[trigger] new[i] == old[i]
    &&& forall|x: int|
        0 <= x < n ==> {
            &&& #[trigger] new[pixel_offset(x, y)] == if drawn(x) {
                px(x).0
            } else {
                old[pixel_offset(x, y)]
            }
            &&& new[pixel_offset(x, y) + 1] == if drawn(x) {
                px(x).1
            } else {
                old[pixel_offset(x, y) + 1]
            }
            &&& new[pixel_offset(x, y) + 2] == if drawn(x) {
                px(x).2
            } else {
                old[pixel_offset(x, y) + 2]
            }
        }
}

/// `new` is `old` with pixel x of scanline `y` set to `px(x)` wherever
/// `drawn(x)` holds, and nothing else changed.
pub open spec fn row_masked(
    new: Seq<u8>,
    old: Seq<u8>,
    y: int,
    drawn: spec_fn(int) -> bool,
    px: spec_fn(int) -> (u8, u8, u8),
) -> bool {
    row_prefix_masked(new, old, y, SCREEN_WIDTH as int, drawn, px)
}

/// Handling pixel n of a row, drawing it when `drawn(n)` holds and leaving it
/// otherwise, extends the handled prefix by one pixel.
pub proof fn lemma_row_masked_step(
    before: Seq<u8>,
    after: Seq<u8>,
    old: Seq<u8>,
    y: int,
    n: int,
    drawn: spec_fn(int) -> bool,
    px: spec_fn(int) -> (u8, u8, u8),
)
    requires
        0 <= y < SCREEN_HEIGHT,
        0 <= n < SCREEN_WIDTH,
        before.len() == FRAMEBUFFER_LEN,
        row_prefix_masked(before, old, y, n, drawn, px),
        drawn(n) ==> after == with_pixel(before, n, y, px(n)),
        !drawn(n) ==> after == before,
    ensures
        row_prefix_masked(after, old, y, n + 1, drawn, px),
{
    assert forall|k: int| 0 <= k < n + 1 implies {
        &&& #[trigger] after[pixel_offset(k, y)] == if drawn(k) {
            px(k).0
        } else {
            old[pixel_offset(k, y)]
        }
        &&& after[pixel_offset(k, y) + 1] == if drawn(k) {
            px(k).1
        } else {
            old[pixel_offset(k, y) + 1]
        }
        &&& after[pixel_offset(k, y) + 2] == if drawn(k) {
            px(k).2
        } else {
            old[pixel_offset(k, y) + 2]
        }
    } by {
        if k < n {
            assert(before[pixel_offset(k, y)] == after[pixel_offset(k, y)]);
            assert(before[pixel_offset(k, y) + 1] == after[pixel_offset(k, y) + 1]);
            assert(before[pixel_offset(k, y) + 2] == after[pixel_offset(k, y) + 2]);
        }
    }
}

/// Words per BG1 tile in the BG mode of `regs`: mode 0 uses 2bpp tiles;
/// mode 1, and every mode not rendered on its own yet, 4bpp tiles.
pub open spec fn bg1_tile_words(regs: PPURegisters) -> int {
    if regs.bgmode % 8 == 0 {
        8
    } else {
        16
    }
}

/// The main screen of scanline `y` before colour math: the CGRAM[0]
/// backdrop, BG1 where TM enables it, then sprites where TM enables OBJ.
pub open spec fn main_screen(ppu: &PPU, y: int) -> Seq<LinePixel> {
    let backdrop = Seq::new(SCREEN_WIDTH as nat, |x: int| backdrop_spec(ppu.cgram.memory@[0]));
    let with_bg = line_with_bg1(backdrop, ppu, y, bg1_tile_words(ppu.regs), ppu.regs.tm % 2 == 1);
    if (ppu.regs.tm / 16) % 2 == 1 {
        line_with_sprites(with_bg, ppu, eval_spec(ppu.oam.data@, y, ppu.regs.objsel), y, ppu.regs.objsel)
    } else {
        with_bg
    }
}

/// The sub screen of scanline `y` before colour math: the fixed colour
/// (COLDATA) as backdrop, BG1 where TS enables it, then sprites where TS
/// enables OBJ.
pub open spec fn sub_screen(ppu: &PPU, y: int) -> Seq<LinePixel> {
    let backdrop = Seq::new(SCREEN_WIDTH as nat, |x: int| backdrop_spec(ppu.regs.coldata as u16));
    let with_bg = line_with_bg1(backdrop, ppu, y, bg1_tile_words(ppu.regs), ppu.regs.ts % 2 == 1);
    if (ppu.regs.ts / 16) % 2 == 1 {
        line_with_sprites(with_bg, ppu, eval_spec(ppu.oam.data@, y, ppu.regs.objsel), y, ppu.regs.objsel)
    } else {
        with_bg
    }
}

/// What rendering scanline `y` asks of the PPU: valid memories, a visible
/// scanline, and (when the display is on) BG1 fetches that stay in VRAM.
pub open spec fn scanline_renderable(ppu: &PPU, y: int) -> bool {
    &&& ppu.wf()
    &&& 0 <= y < SCREEN_HEIGHT
    &&& ppu.regs.inidisp < 0x80 ==> bg1_fetch_in_range(ppu, y, bg1_tile_words(ppu.regs))
}

impl Renderer {
    /// Buffers and lines have their sizes.
    pub open spec fn wf(&self) -> bool {
        &&& self.framebuffer@.len() == FRAMEBUFFER_LEN
        &&& self.presented@.len() == FRAMEBUFFER_LEN
        &&& self.main_line@.len() == SCREEN_WIDTH
        &&& self.sub_line@.len() == SCREEN_WIDTH
    }

    /// Black buffers, full brightness, no brightness delay.
    pub fn new() -> (r: Self)
        ensures
            r.wf(),
            forall|i: int| 0 <= i < FRAMEBUFFER_LEN ==> r.framebuffer@[i] == 0,
            forall|i: int| 0 <= i < FRAMEBUFFER_LEN ==> r.presented@[i] == 0,
            r.current_brightness == 15,
            r.brightness_delay == 0,
    {
        let backdrop = LinePixel { color: 0, z: Z_BACKDROP, layer: Layer::Backdrop, obj_math: false };
        Self {
            framebuffer: vec![0u8; FRAMEBUFFER_LEN],
            current_brightness: 15,  // full brightness
            main_line: vec![backdrop; SCREEN_WIDTH],
            sub_line: vec![backdrop; SCREEN_WIDTH],
            brightness_delay: 0,
            presented: vec![0u8; FRAMEBUFFER_LEN],
        }
    }

    /// Exchanges the back and front buffers.
    pub fn swap_buffers(&mut self)
        ensures
            final(self).framebuffer@ == old(self).presented@,
            final(self).presented@ == old(self).framebuffer@,
            final(self).current_brightness == old(self).current_brightness,
            final(self).brightness_delay == old(self).brightness_delay,
            final(self).main_line@ == old(self).main_line@,
            final(self).sub_line@ == old(self).sub_line@,
    {
        std::mem::swap(&mut self.framebuffer, &mut self.presented);
    }

    /// The front buffer, for display.
    pub fn presented(&self) -> (r: &RawFramebuffer)
        ensures
            r@ == self.presented@,
    {
        &self.presented
    }

    /// Per-channel BGR555 colour scaled by `brightness` (0-15) and widened to
    /// RGB888.
    pub fn apply_brightness(color: u16, brightness: u16) -> (r: (u8, u8, u8))
        requires
            brightness < 2114,
        ensures
            r == brightness_rgb(color, brightness as int),
    {
        let mut r = color & 0x1F;
        let mut g = (color >> 5) & 0x1F;
        let mut b = (color >> 10) & 0x1F;
        proof {
            assert(r == color % 32 && g == (color / 32) % 32 && b == (color / 1024) % 32) by {
                crate::bits::lemma_bgr_channels(color);
            }
            assert(r * (brightness + 1) <= 31 * 2114) by (nonlinear_arith)
                requires
                    r < 32,
                    brightness < 2114,
            ;
            assert(g * (brightness + 1) <= 31 * 2114) by (nonlinear_arith)
                requires
                    g < 32,
                    brightness < 2114,
            ;
            assert(b * (brightness + 1) <= 31 * 2114) by (nonlinear_arith)
                requires
                    b < 32,
                    brightness < 2114,
            ;
        }
        let br = r * (brightness + 1);
        let bg = g * (brightness + 1);
        let bb = b * (brightness + 1);
        assert(br >> 4 == br / 16 && bg >> 4 == bg / 16 && bb >> 4 == bb / 16) by (bit_vector);
        r = br >> 4;
        g = bg >> 4;
        b = bb >> 4;

        let r8 = ((r << 3) | (r >> 2)) as u8;
        let g8 = ((g << 3) | (g >> 2)) as u8;
        let b8 = ((b << 3) | (b >> 2)) as u8;

        (r8, g8, b8)
    }

    /// Sets the RGB888 bytes of pixel (x, y).
    pub fn set_pixel(&mut self, x: usize, y: usize, r: u8, g: u8, b: u8)
        requires
            old(self).wf(),
            pixel_offset(x as int, y as int) + 2 < FRAMEBUFFER_LEN,
        ensures
            final(self).wf(),
            final(self).framebuffer@ == with_pixel(old(self).framebuffer@, x as int, y as int, (r, g, b)),
            final(self).presented@ == old(self).presented@,
            final(self).current_brightness == old(self).current_brightness,
            final(self).brightness_delay == old(self).brightness_delay,
            final(self).main_line@ == old(self).main_line@,
            final(self).sub_line@ == old(self).sub_line@,
    {
        let index = (y * SCREEN_WIDTH + x) * 3;
        self.framebuffer[index] = r;
        self.framebuffer[index + 1] = g;
        self.framebuffer[index + 2] = b;
    }

    /// Paints scanline `y` black.
    pub fn render_full_black(&mut self, y: usize)
        requires
            old(self).wf(),
            y < SCREEN_HEIGHT,
        ensures
            final(self).wf(),
            forall|i: int|
                0 <= i < FRAMEBUFFER_LEN ==> #[trigger] final(self).framebuffer@[i] == if on_row(
                    i,
                    y as int,
                ) {
                    0
                } else {
                    old(self).framebuffer@[i]
                },
            final(self).presented@ == old(self).presented@,
            final(self).current_brightness == old(self).current_brightness,
            final(self).brightness_delay == old(self).brightness_delay,
            final(self).main_line@ == old(self).main_line@,
            final(self).sub_line@ == old(self).sub_line@,
    {
        let mut x: usize = 0;
        while x < SCREEN_WIDTH
            invariant
                x <= SCREEN_WIDTH,
                y < SCREEN_HEIGHT,
                self.wf(),
                forall|i: int|
                    0 <= i < FRAMEBUFFER_LEN ==> #[trigger] self.framebuffer@[i] == if y
                        * SCREEN_WIDTH * 3 <= i < y * SCREEN_WIDTH * 3 + x * 3 {
                        0
                    } else {
                        old(self).framebuffer@[i]
                    },
                self.presented@ == old(self).presented@,
                self.current_brightness == old(self).current_brightness,
                self.brightness_delay == old(self).brightness_delay,
                self.main_line@ == old(self).main_line@,
                self.sub_line@ == old(self).sub_line@,
            decreases SCREEN_WIDTH - x,
        {
            self.set_pixel(x, y, 0, 0, 0);
            x += 1;
        }
    }

    /// Per-channel BGR555 add/subtract with optional halving.
    pub fn color_math(main: u16, sub: u16, subtract: bool, half: bool) -> (r: u16)
        ensures
            r == color_math_spec(main, sub, subtract, half),
    {
        let (mr, mg, mb) = (main & 0x1F, (main >> 5) & 0x1F, (main >> 10) & 0x1F);
        let (sr, sg, sb) = (sub & 0x1F, (sub >> 5) & 0x1F, (sub >> 10) & 0x1F);
        proof {
            crate::bits::lemma_bgr_channels(main);
            crate::bits::lemma_bgr_channels(sub);
        }

        let (mut r, mut g, mut b) = if subtract {
            (mr.saturating_sub(sr), mg.saturating_sub(sg), mb.saturating_sub(sb))
        } else {
            (clamp31(mr + sr), clamp31(mg + sg), clamp31(mb + sb))
        };

        if half {
            r = halve(r);
            g = halve(g);
            b = halve(b);
        }
        assert(r | (g << 5) | (b << 10) == r + g * 32 + b * 1024) by (bit_vector)
            requires
                r < 32,
                g < 32,
                b < 32,
        ;
        r | (g << 5) | (b << 10)
    }

    /// One step of the brightness fade toward `target`.
    pub fn update_brightness(&mut self, target: u8)
        ensures
            (final(self).current_brightness, final(self).brightness_delay) == brightness_step(
                old(self).current_brightness,
                old(self).brightness_delay,
                target,
            ),
            final(self).framebuffer@ == old(self).framebuffer@,
            final(self).presented@ == old(self).presented@,
            final(self).main_line@ == old(self).main_line@,
            final(self).sub_line@ == old(self).sub_line@,
    {
        if self.current_brightness == target {
            return ;
        }
        if self.brightness_delay == 0 {
            self.brightness_delay = 72;
            return ;
        }
        self.brightness_delay -= 1;

        if self.current_brightness < target {
            self.current_brightness += 1;
        } else {
            self.current_brightness -= 1;
        }
    }

    /// Puts `px` in column `x` of `line` when it is at least as close to the
    /// front as the pixel there.
    pub fn deposit(line: &mut Vec<LinePixel>, x: usize, px: LinePixel)
        requires
            x < old(line)@.len(),
        ensures
            final(line)@ == old(line)@.update(x as int, deposit_spec(old(line)@[x as int], px)),
    {
        if px.z >= line[x].z {
            line.set(x, px);
        }
    }

    /// Deposit a pixel on the main screen. Called by the sprite renderer;
    /// `obj_math` must be true if the sprite uses palette 4-7.
    pub fn deposit_main(&mut self, x: usize, color: u16, z: u8, layer: Layer, obj_math: bool)
        requires
            old(self).wf(),
            x < SCREEN_WIDTH,
        ensures
            final(self).wf(),
            final(self).main_line@ == old(self).main_line@.update(
                x as int,
                deposit_spec(old(self).main_line@[x as int], LinePixel { color, z, layer, obj_math }),
            ),
            final(self).sub_line@ == old(self).sub_line@,
            final(self).framebuffer@ == old(self).framebuffer@,
            final(self).presented@ == old(self).presented@,
            final(self).current_brightness == old(self).current_brightness,
            final(self).brightness_delay == old(self).brightness_delay,
    {
        Self::deposit(&mut self.main_line, x, LinePixel { color, z, layer, obj_math });
    }

    /// Deposit a pixel on the sub screen.
    pub fn deposit_sub(&mut self, x: usize, color: u16, z: u8, layer: Layer, obj_math: bool)
        requires
            old(self).wf(),
            x < SCREEN_WIDTH,
        ensures
            final(self).wf(),
            final(self).sub_line@ == old(self).sub_line@.update(
                x as int,
                deposit_spec(old(self).sub_line@[x as int], LinePixel { color, z, layer, obj_math }),
            ),
            final(self).main_line@ == old(self).main_line@,
            final(self).framebuffer@ == old(self).framebuffer@,
            final(self).presented@ == old(self).presented@,
            final(self).current_brightness == old(self).current_brightness,
            final(self).brightness_delay == old(self).brightness_delay,
    {
        Self::deposit(&mut self.sub_line, x, LinePixel { color, z, layer, obj_math });
    }

    /// Combine main + sub per pixel, apply color math and brightness, and
    /// write scanline `y` of the framebuffer.
    pub fn composite_line(&mut self, ppu: &PPU, y: usize)
        requires
            old(self).wf(),
            y < SCREEN_HEIGHT,
        ensures
            final(self).wf(),
            row_written(
                final(self).framebuffer@,
                old(self).framebuffer@,
                y as int,
                |x: int|
                    brightness_rgb(
                        composite_color(ppu.regs, old(self).main_line@[x], old(self).sub_line@[x]),
                        old(self).current_brightness as int,
                    ),
            ),
            final(self).presented@ == old(self).presented@,
            final(self).current_brightness == old(self).current_brightness,
            final(self).brightness_delay == old(self).brightness_delay,
            final(self).main_line@ == old(self).main_line@,
            final(self).sub_line@ == old(self).sub_line@,
    {
        let brightness = self.current_brightness as u16;
        let ghost fb0 = self.framebuffer@;
        let ghost px = |x: int|
            brightness_rgb(
                composite_color(ppu.regs, self.main_line@[x], self.sub_line@[x]),
                self.current_brightness as int,
            );

        let mut x: usize = 0;
        while x < SCREEN_WIDTH
            invariant
                x <= SCREEN_WIDTH,
                y < SCREEN_HEIGHT,
                self.wf(),
                brightness == self.current_brightness,
                self.current_brightness == old(self).current_brightness,
                self.brightness_delay == old(self).brightness_delay,
                self.main_line@ == old(self).main_line@,
                self.sub_line@ == old(self).sub_line@,
                self.presented@ == old(self).presented@,
                fb0 == old(self).framebuffer@,
                px == (|x: int|
                    brightness_rgb(
                        composite_color(ppu.regs, old(self).main_line@[x], old(self).sub_line@[x]),
                        old(self).current_brightness as int,
                    )),
                row_prefix_written(self.framebuffer@, fb0, y as int, x as int, px),
            decreases SCREEN_WIDTH - x,
        {
            let out = composite_pixel(&ppu.regs, self.main_line[x], self.sub_line[x]);
            let (r, g, b) = Self::apply_brightness(out, brightness);
            let ghost before = self.framebuffer@;
            self.set_pixel(x, y, r, g, b);
            proof {
                lemma_row_prefix_step(before, self.framebuffer@, fb0, y as int, x as int, px);
            }
            x += 1;
        }
        proof {
            lemma_row_prefix_done(self.framebuffer@, fb0, y as int, px);
        }
    }

    /// Whether [`Self::render_scanline`] can render scanline `y` of `ppu`:
    /// the line is on screen and, unless the screen is blanked, every BG1
    /// fetch of it stays inside VRAM.
    pub fn can_render_scanline(ppu: &PPU, y: usize) -> (r: bool)
        requires
            ppu.wf(),
        ensures
            r == scanline_renderable(ppu, y as int),
    {
        if y >= SCREEN_HEIGHT {
            return false;
        }
        if ppu.regs.inidisp >= 0x80 {
            return true;
        }
        let tile_words: usize = if ppu.regs.bg_mode() == 0 {
            8
        } else {
            16
        };
        crate::rendering::bg1::bg1_line_in_range(ppu, y, tile_words)
    }

    /// Renders scanline `y` of `ppu` into the framebuffer.
    ///
    /// Under forced blanking the scanline is black. Otherwise the brightness
    /// steps toward INIDISP's, both screens are built (backdrop, BG1 of the
    /// current mode, sprites), and the scanline is composited from them.
    pub fn render_scanline(&mut self, ppu: &PPU, y: usize)
        requires
            old(self).wf(),
            scanline_renderable(ppu, y as int),
        ensures
            final(self).wf(),
            final(self).presented@ == old(self).presented@,
            ppu.regs.inidisp >= 0x80 ==> {
                &&& row_written(
                    final(self).framebuffer@,
                    old(self).framebuffer@,
                    y as int,
                    |x: int| (0u8, 0u8, 0u8),
                )
                &&& final(self).current_brightness == old(self).current_brightness
                &&& final(self).brightness_delay == old(self).brightness_delay
                &&& final(self).main_line@ == old(self).main_line@
                &&& final(self).sub_line@ == old(self).sub_line@
            },
            ppu.regs.inidisp < 0x80 ==> {
                &&& (final(self).current_brightness, final(self).brightness_delay)
                    == brightness_step(
                    old(self).current_brightness,
                    old(self).brightness_delay,
                    ppu.regs.inidisp % 16,
                )
                &&& final(self).main_line@ == main_screen(ppu, y as int)
                &&& final(self).sub_line@ == sub_screen(ppu, y as int)
                &&& row_written(
                    final(self).framebuffer@,
                    old(self).framebuffer@,
                    y as int,
                    |x: int|
                        brightness_rgb(
                            composite_color(
                                ppu.regs,
                                main_screen(ppu, y as int)[x],
                                sub_screen(ppu, y as int)[x],
                            ),
                            final(self).current_brightness as int,
                        ),
                )
            },
    {
        // Hardware force blank: output black
        if ppu.force_blank() {
            self.render_full_black(y);
            assert forall|x: int| 0 <= x < SCREEN_WIDTH implies {
                &&& #[trigger] self.framebuffer@[pixel_offset(x, y as int)] == 0u8
                &&& self.framebuffer@[pixel_offset(x, y as int) + 1] == 0u8
                &&& self.framebuffer@[pixel_offset(x, y as int) + 2] == 0u8
            } by {
                assert(on_row(pixel_offset(x, y as int), y as int));
                assert(on_row(pixel_offset(x, y as int) + 1, y as int));
                assert(on_row(pixel_offset(x, y as int) + 2, y as int));
            }
            return ;
        }
        // Update brightness
        self.update_brightness(ppu.brightness());

        // Main backdrop = CGRAM[0]; sub backdrop = fixed colour (COLDATA).
        let main_bd = LinePixel {
            color: ppu.cgram.read(0),
            z: Z_BACKDROP,
            layer: Layer::Backdrop,
            obj_math: false,
        };
        let sub_bd = LinePixel {
            color: ppu.regs.coldata as u16,
            z: Z_BACKDROP,
            layer: Layer::Backdrop,
            obj_math: false,
        };
        self.fill_lines(main_bd, sub_bd);
        let ghost fb1 = self.framebuffer@;

        // Background layers -> deposit into main_line / sub_line
        let mode = ppu.regs.bg_mode();
        if mode == 0 {
            self.render_scanline_mode0(ppu, y);
        } else {
            // Modes 2-7 are not rendered on their own yet: BG1 is drawn as in mode 1.
            self.render_scanline_mode1(ppu, y);
        }
        let ghost fb2 = self.framebuffer@;
        assert(self.main_line@ =~= line_with_bg1(
            Seq::new(SCREEN_WIDTH as nat, |x: int| backdrop_spec(ppu.cgram.memory@[0])),
            ppu,
            y as int,
            bg1_tile_words(ppu.regs),
            ppu.regs.tm % 2 == 1,
        ));
        assert(self.sub_line@ =~= line_with_bg1(
            Seq::new(SCREEN_WIDTH as nat, |x: int| backdrop_spec(ppu.regs.coldata as u16)),
            ppu,
            y as int,
            bg1_tile_words(ppu.regs),
            ppu.regs.ts % 2 == 1,
        ));

        // Sprites deposit into main_line / sub_line too (gated on TM/TS bit 4).
        self.render_sprites(ppu, y);

        // Final pass: main + sub -> color math -> brightness -> framebuffer.
        self.composite_line(ppu, y);
        proof {
            lemma_row_overwritten(self.framebuffer@, fb2, old(self).framebuffer@, y as int);
        }
    }

    /// Fills every column of the main and sub screens with their backdrops.
    fn fill_lines(&mut self, main_bd: LinePixel, sub_bd: LinePixel)
        requires
            old(self).wf(),
        ensures
            final(self).wf(),
            final(self).main_line@ == Seq::new(SCREEN_WIDTH as nat, |x: int| main_bd),
            final(self).sub_line@ == Seq::new(SCREEN_WIDTH as nat, |x: int| sub_bd),
            final(self).framebuffer@ == old(self).framebuffer@,
            final(self).presented@ == old(self).presented@,
            final(self).current_brightness == old(self).current_brightness,
            final(self).brightness_delay == old(self).brightness_delay,
    {
        let mut x: usize = 0;
        while x < SCREEN_WIDTH
            invariant
                x <= SCREEN_WIDTH,
                self.wf(),
                forall|k: int| 0 <= k < x ==> #[trigger] self.main_line@[k] == main_bd,
                forall|k: int| 0 <= k < x ==> #[trigger] self.sub_line@[k] == sub_bd,
                self.framebuffer@ == old(self).framebuffer@,
                self.presented@ == old(self).presented@,
                self.current_brightness == old(self).current_brightness,
                self.brightness_delay == old(self).brightness_delay,
            decreases SCREEN_WIDTH - x,
        {
            self.main_line.set(x, main_bd);
            self.sub_line.set(x, sub_bd);
            x += 1;
        }
        assert(self.main_line@ =~= Seq::new(SCREEN_WIDTH as nat, |x: int| main_bd));
        assert(self.sub_line@ =~= Seq::new(SCREEN_WIDTH as nat, |x: int| sub_bd));
    }
}

/// At hardware brightness levels (0-15), widening a scaled channel is the
/// 5-to-8-bit channel expansion, and raising the brightness never darkens a
/// channel: the output is monotone in brightness. At brightness 15 a channel
/// keeps its full value.
pub proof fn lemma_brightness_monotone(c: int, b1: int, b2: int)
    requires
        0 <= c < 32,
        0 <= b1 <= b2 <= 15,
    ensures
        scale_channel(c, b1) <= scale_channel(c, b2) <= 31,
        widen(scale_channel(c, b1)) == expand5(scale_channel(c, b1) as int),
        widen(scale_channel(c, b1)) <= widen(scale_channel(c, b2)),
        scale_channel(c, 15) == c,
{
    assert(c * (b1 + 1) <= c * (b2 + 1)) by (nonlinear_arith)
        requires
            0 <= c,
            b1 <= b2,
    ;
    assert(c * (b2 + 1) <= 31 * 16) by (nonlinear_arith)
        requires
            0 <= c < 32,
            b2 <= 15,
    ;
    assert(0 <= c * (b1 + 1)) by (nonlinear_arith)
        requires
            0 <= c,
            0 <= b1,
    ;
    let s1 = scale_channel(c, b1);
    let s2 = scale_channel(c, b2);
    assert((s1 < 32 ==> widen(s1) == s1 * 8 + s1 / 4) && (s2 < 32 ==> widen(s2) == s2 * 8 + s2 / 4))
        by (bit_vector);
}

/// Colour math keeps every channel in 0-31, so its result is a BGR555 colour
/// (bit 15 clear); adding black or subtracting black without halving leaves
/// the main colour as it is.
pub proof fn lemma_color_math_range(main: u16, sub: u16, subtract: bool, half: bool)
    ensures
        color_math_spec(main, sub, subtract, half) < 0x8000,
        main < 0x8000 && sub == 0 && !half ==> color_math_spec(main, sub, subtract, half) == main,
{
}

/// Three 5-bit channels packed as `r + g * 32 + b * 1024` read back from
/// the packed word.
proof fn lemma_pack_channels(r: int, g: int, b: int)
    requires
        0 <= r < 32,
        0 <= g < 32,
        0 <= b < 32,
    ensures
        r + g * 32 + b * 1024 < 0x8000,
        (r + g * 32 + b * 1024) % 32 == r,
        ((r + g * 32 + b * 1024) / 32) % 32 == g,
        ((r + g * 32 + b * 1024) / 1024) % 32 == b,
{
    let v = r + g * 32 + b * 1024;
    assert(v / 32 == g + b * 32) by (nonlinear_arith)
        requires
            v == r + g * 32 + b * 1024,
            0 <= r < 32,
    ;
    assert(v / 1024 == b) by (nonlinear_arith)
        requires
            v == r + g * 32 + b * 1024,
            0 <= r < 32,
            0 <= g < 32,
    ;
}

/// Channel `k` (0 red, 1 green, 2 blue) of a BGR555 word.
pub open spec fn channel_of(c: int, k: int) -> int {
    if k == 0 {
        c % 32
    } else if k == 1 {
        (c / 32) % 32
    } else {
        (c / 1024) % 32
    }
}

/// What colour math does to each of the three 5-bit channels: an add gives
/// the sum of the main and sub channels, clamped to 31; a subtract gives
/// their difference, clamped to 0; halving halves that channel (rounding
/// down). The result is a BGR555 colour.
pub proof fn lemma_color_math_channels(main: u16, sub: u16)
    ensures
        forall|k: int|
            0 <= k < 3 ==> {
                let m = channel_of(main as int, k);
                let s = channel_of(sub as int, k);
                let sum = if m + s > 31 {
                    31
                } else {
                    m + s
                };
                let diff = if m < s {
                    0
                } else {
                    m - s
                };
                &&& #[trigger] channel_of(color_math_spec(main, sub, false, false) as int, k) == sum
                &&& channel_of(color_math_spec(main, sub, true, false) as int, k) == diff
                &&& channel_of(color_math_spec(main, sub, false, true) as int, k) == sum / 2
                &&& channel_of(color_math_spec(main, sub, true, true) as int, k) == diff / 2
            },
        color_math_spec(main, sub, false, false) < 0x8000,
        color_math_spec(main, sub, true, false) < 0x8000,
        color_math_spec(main, sub, false, true) < 0x8000,
        color_math_spec(main, sub, true, true) < 0x8000,
{
    let mr = red5(main);
    let mg = green5(main);
    let mb = blue5(main);
    let sr = red5(sub);
    let sg = green5(sub);
    let sb = blue5(sub);
    lemma_pack_channels(channel_math(mr, sr, false, false), channel_math(mg, sg, false, false), channel_math(mb, sb, false, false));
    lemma_pack_channels(channel_math(mr, sr, true, false), channel_math(mg, sg, true, false), channel_math(mb, sb, true, false));
    lemma_pack_channels(channel_math(mr, sr, false, true), channel_math(mg, sg, false, true), channel_math(mb, sb, false, true));
    lemma_pack_channels(channel_math(mr, sr, true, true), channel_math(mg, sg, true, true), channel_math(mb, sb, true, true));
}

/// Repeated brightness steps toward a target never move away from it: each
/// step keeps the distance to the target or shortens it by one.
pub proof fn lemma_brightness_step_toward(current: u8, delay: u8, target: u8)
    ensures
        ({
            let (next, _) = brightness_step(current, delay, target);
            &&& current <= target ==> current <= next <= target
            &&& current >= target ==> target <= next <= current
            &&& next != current ==> delay != 0
        }),
{
}

} // verus!
