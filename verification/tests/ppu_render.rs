use ppu::tile_ppu::{HEIGHT, PPU};
use ppu::utils::render_scanline;

#[test]
fn test_render_scanline_out_of_bounds_does_nothing() {
    let mut ppu = PPU::new();

    ppu.framebuffer.iter_mut().for_each(|px| *px = 42);

    render_scanline(&mut ppu, HEIGHT + 10);

    assert!(ppu.framebuffer.iter().all(|&px| px == 42));
}

// Rendering one scanline touches that row alone.
#[test]
fn ppu_render_only_the_requested_row_changes() {
    let mut ppu = PPU::new();
    ppu.framebuffer.iter_mut().for_each(|px| *px = 42);
    render_scanline(&mut ppu, 3);
    for y in 0..HEIGHT {
        for x in 0..256 {
            let expected = if y == 3 { 0xFF000000 } else { 42 };
            assert_eq!(ppu.framebuffer[y * 256 + x], expected);
        }
    }
}
