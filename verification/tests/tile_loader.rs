use image::{ImageBuffer, RgbaImage};
use ppu::tile_loader::{load_tiles_into_vram, split_image_into_tiles};
use ppu::tile_ppu::{PPU, TILE_SIZE};

// An image of one colour, split into tiles.
fn split_plain_image(width: u32, height: u32, color: [u8; 4]) -> Vec<Vec<[u8; 4]>> {
    let img: RgbaImage = ImageBuffer::from_fn(width, height, |_x, _y| image::Rgba(color));
    let pixels: Vec<[u8; 4]> = img.pixels().map(|p| p.0).collect();
    split_image_into_tiles(width as usize, height as usize, &pixels)
}

#[test]
fn test_load_and_split_small_image() {
    let tiles = split_plain_image(4, 4, [255, 0, 0, 255]);
    assert_eq!(tiles.len(), 1);
    assert_eq!(tiles[0].len(), 16);
}

#[test]
fn test_load_and_split_multiple_tiles() {
    let tiles = split_plain_image((TILE_SIZE * 2) as u32, (TILE_SIZE * 2) as u32, [0, 255, 0, 255]);
    assert_eq!(tiles.len(), 4);
    assert_eq!(tiles[0].len(), TILE_SIZE * TILE_SIZE);
}

#[test]
fn test_load_and_split_uneven_size() {
    let tiles = split_plain_image(10, 10, [0, 0, 255, 255]);
    assert_eq!(tiles.len(), 4);
    assert!(tiles[3].len() <= TILE_SIZE * TILE_SIZE);
}

#[test]
fn test_load_tiles_into_vram_basic() {
    let mut ppu = PPU::new();

    let pixel = image::Rgba([128, 0, 0, 255]).0;
    let tile = vec![pixel; TILE_SIZE * TILE_SIZE];
    let tiles = vec![tile];

    load_tiles_into_vram(&mut ppu, &tiles);

    assert_eq!(ppu.read_vram(0), 32);
}

#[test]
fn test_load_tiles_into_vram_skips_small_tile() {
    let mut ppu = PPU::new();

    let bad_tile = vec![image::Rgba([255, 255, 255, 255]).0; 10];
    let tiles = vec![bad_tile];

    load_tiles_into_vram(&mut ppu, &tiles);

    assert!(ppu.vram.iter().all(|&v| v == 0));
}

#[test]
fn test_load_tiles_into_vram_multiple_tiles() {
    let mut ppu = PPU::new();

    let red_tile = vec![image::Rgba([255, 0, 0, 255]).0; TILE_SIZE * TILE_SIZE];
    let green_tile = vec![image::Rgba([0, 255, 0, 255]).0; TILE_SIZE * TILE_SIZE];
    let tiles = vec![red_tile, green_tile];

    load_tiles_into_vram(&mut ppu, &tiles);

    assert_eq!(ppu.read_vram(0), 63);
    let second_tile_start = TILE_SIZE * TILE_SIZE;
    assert_eq!(ppu.read_vram(second_tile_start), 0);
}

// A short tile between two full ones: its bytes keep what was there, and
// the tile after it still loads at its own offset.
#[test]
fn tile_loader_short_tile_keeps_old_bytes() {
    let mut ppu = PPU::new();
    for i in 0..192 {
        ppu.write_vram(i, 7);
    }
    let tiles = vec![vec![[4u8, 0, 0, 0]; 64], vec![[255u8, 0, 0, 0]; 63], vec![[8u8, 0, 0, 0]; 64]];
    load_tiles_into_vram(&mut ppu, &tiles);
    assert_eq!(ppu.read_vram(0), 1);
    assert_eq!(ppu.read_vram(64), 7);
    assert_eq!(ppu.read_vram(127), 7);
    assert_eq!(ppu.read_vram(128), 2);
}

// Bytes that would land past the end of VRAM are dropped.
#[test]
fn tile_loader_bytes_past_vram_dropped() {
    let mut ppu = PPU::new();
    let tiles = vec![vec![[4u8, 0, 0, 0]; 64]; 1025];
    load_tiles_into_vram(&mut ppu, &tiles);
    assert_eq!(ppu.vram.len(), 65536);
    assert_eq!(ppu.read_vram(65535), 1);
    assert_eq!(ppu.read_vram(65536), 0);
}
