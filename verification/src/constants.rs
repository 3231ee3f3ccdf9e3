use vstd::prelude::*;

verus! {

/// Size of VRAM in bytes (64 KB).
pub const VRAM_SIZE: usize = 64 * 1024;

/// Size of CGRAM in bytes.
pub const CGRAM_SIZE: usize = 512;

/// Width of the visible picture in pixels.
pub const SCREEN_WIDTH: usize = 256;

/// Height of the visible picture in pixels.
pub const SCREEN_HEIGHT: usize = 224;

/// Master cycles in a scanline (NTSC).
pub const MASTER_CYCLES_PER_SCANLINE: u32 = 1364;

/// Master cycles in the short scanline of odd non-interlaced frames.
pub const MASTER_CYCLES_SHORT_SCANLINE: u32 = 1360;

/// Dots in a scanline.
pub const DOTS_PER_SCANLINE: u16 = 340;

/// Scanlines in a frame (NTSC).
pub const SCANLINES_PER_FRAME: u16 = 262;

/// First dot of H-Blank.
pub const HBLANK_START_DOT: u16 = 274;

/// First scanline of V-Blank.
pub const VBLANK_START_LINE: u16 = 225;

/// First scanline of V-Blank with overscan (SETINI $2133 bit 2).
pub const VBLANK_START_LINE_OVERSCAN: u16 = 240;

/// Dot at which HDMA runs on each scanline.
pub const HDMA_START_DOT: u16 = 278;

} // verus!
