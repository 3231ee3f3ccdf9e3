use image::{ImageBuffer, Rgba, RgbaImage};
use ppu::tile::get_tile_indices_from_vram;
use ppu::tile_loader::{load_tiles_into_vram, split_image_into_tiles};
use ppu::tile_ppu::{PPU, TILE_SIZE};

// The pixels of an image, row by row.
fn pixels_of(img: &RgbaImage) -> Vec<[u8; 4]> {
    img.pixels().map(|p| p.0).collect()
}

fn split(img: &RgbaImage) -> Vec<Vec<[u8; 4]>> {
    split_image_into_tiles(img.width() as usize, img.height() as usize, &pixels_of(img))
}

// A 16x16 image with red, green, blue and yellow 8x8 quarters.
fn create_test_image() -> RgbaImage {
    let mut img: ImageBuffer<Rgba<u8>, Vec<u8>> = ImageBuffer::new(16, 16);
    for y in 0..16 {
        for x in 0..16 {
            let pixel = if x < 8 && y < 8 {
                Rgba([255u8, 0u8, 0u8, 255u8])
            } else if x >= 8 && y < 8 {
                Rgba([0u8, 255u8, 0u8, 255u8])
            } else if x < 8 && y >= 8 {
                Rgba([0u8, 0u8, 255u8, 255u8])
            } else {
                Rgba([255u8, 255u8, 0u8, 255u8])
            };
            img.put_pixel(x, y, pixel);
        }
    }
    img
}

#[test]
fn test_load_tiles_into_vram_writes_data() {
    let mut ppu = PPU::new();
    let tile = vec![Rgba([64u8, 0u8, 0u8, 255u8]).0; TILE_SIZE * TILE_SIZE];
    let tiles = vec![tile];

    load_tiles_into_vram(&mut ppu, &tiles);

    for i in 0..8 {
        let v = ppu.read_vram(i);
        assert_eq!(v, 16);
    }
}

#[test]
fn test_load_tiles_into_vram_skips_incomplete_tiles() {
    let mut ppu = PPU::new();
    let incomplete_tile = vec![Rgba([255u8, 0u8, 0u8, 255u8]).0; 4];
    let tiles = vec![incomplete_tile];

    load_tiles_into_vram(&mut ppu, &tiles);

    for i in 0..16 {
        assert_eq!(ppu.read_vram(i), 0);
    }
}

#[test]
fn test_tile_count_and_size() {
    let tiles = split(&create_test_image());

    assert_eq!(tiles.len(), 4);

    for tile in tiles.iter() {
        assert_eq!(tile.len(), (TILE_SIZE * TILE_SIZE) as usize);
    }
}

#[test]
fn test_tile_pixel_values() {
    let tiles = split(&create_test_image());

    for px in &tiles[0] {
        assert_eq!(px[0], 255);
        assert_eq!(px[1], 0);
        assert_eq!(px[2], 0);
    }

    for px in &tiles[1] {
        assert_eq!(px[0], 0);
        assert_eq!(px[1], 255);
        assert_eq!(px[2], 0);
    }

    for px in &tiles[2] {
        assert_eq!(px[0], 0);
        assert_eq!(px[1], 0);
        assert_eq!(px[2], 255);
    }

    for px in &tiles[3] {
        assert_eq!(px[0], 255);
        assert_eq!(px[1], 255);
        assert_eq!(px[2], 0);
    }
}

#[test]
fn test_image_smaller_than_tile() {
    let mut img = ImageBuffer::new(4, 4);
    for y in 0..4 {
        for x in 0..4 {
            img.put_pixel(x, y, Rgba([10u8, 20u8, 30u8, 255u8]));
        }
    }

    let tiles = split(&img);

    assert_eq!(tiles.len(), 1);
    assert_eq!(tiles[0].len(), 16);
}

#[test]
fn test_non_divisible_dimensions() {
    let mut img = ImageBuffer::new(10, 10);
    for y in 0..10 {
        for x in 0..10 {
            img.put_pixel(x, y, Rgba([100u8, 100u8, 100u8, 255u8]));
        }
    }

    let tiles = split(&img);
    assert_eq!(tiles.len(), 4);
    assert!(tiles[0].len() <= (TILE_SIZE * TILE_SIZE) as usize);
}

#[test]
fn test_transparent_pixels() {
    let mut img = ImageBuffer::new(8, 8);

    for y in 0..8 {
        for x in 0..8 {
            img.put_pixel(x, y, Rgba([100u8, 150u8, 200u8, 0u8]));
        }
    }

    let tiles = split(&img);
    assert_eq!(tiles.len(), 1);

    for px in &tiles[0] {
        assert_eq!(px[3], 0);
    }
}

#[test]
fn test_2_horizontal_tiles() {
    let mut img = ImageBuffer::new(16, 8);

    for y in 0..8 {
        for x in 0..8 {
            img.put_pixel(x, y, Rgba([255u8, 0u8, 0u8, 255u8]));
        }
        for x in 8..16 {
            img.put_pixel(x, y, Rgba([0u8, 255u8, 0u8, 255u8]));
        }
    }

    let tiles = split(&img);
    assert_eq!(tiles.len(), 2);

    for px in &tiles[0] {
        assert_eq!(px[0], 255);
        assert_eq!(px[1], 0);
        assert_eq!(px[2], 0);
    }

    for px in &tiles[1] {
        assert_eq!(px[0], 0);
        assert_eq!(px[1], 255);
        assert_eq!(px[2], 0);
    }
}

#[test]
fn test_get_tile_from_vram_returns_colors() {
    let mut ppu = PPU::new();

    for i in 0..(TILE_SIZE * TILE_SIZE) {
        ppu.write_vram(i, 2);
    }

    let tile = ppu.get_tile_from_vram(0);

    assert_eq!(tile.len(), TILE_SIZE * TILE_SIZE);
    assert!(tile.iter().any(|&c| c != 0xFF000000));
}

#[test]
fn ppu_tile_test_get_tile_indices_from_vram_returns_indices() {
    let mut ppu = PPU::new();

    for i in 0..(TILE_SIZE * TILE_SIZE) {
        ppu.write_vram(i, (i % 64) as u8);
    }

    let indices = get_tile_indices_from_vram(&ppu, 0);
    assert_eq!(indices.len(), TILE_SIZE * TILE_SIZE);
    assert_eq!(indices[0], 0);
    assert_eq!(indices[1], 1);
    assert_eq!(indices[7], 7);
}

// A 10x3 image: the edge tile keeps the 2x3 pixels inside the image, row
// by row.
#[test]
fn ppu_tile_edge_tile_keeps_rows_in_order() {
    let mut img = ImageBuffer::new(10, 3);
    for y in 0..3u32 {
        for x in 0..10u32 {
            img.put_pixel(x, y, Rgba([x as u8, y as u8, 0u8, 255u8]));
        }
    }
    let tiles = split(&img);
    assert_eq!(tiles.len(), 2);
    assert_eq!(tiles[0].len(), 24);
    let edge: Vec<(u8, u8)> = tiles[1].iter().map(|p| (p[0], p[1])).collect();
    assert_eq!(edge, vec![(8, 0), (9, 0), (8, 1), (9, 1), (8, 2), (9, 2)]);
}

// The grey of a palette index v is v * 16 in every channel, opaque.
#[test]
fn ppu_tile_grey_value() {
    let mut ppu = PPU::new();
    ppu.write_vram(64 + 9, 3);
    let tile = ppu.get_tile_from_vram(1);
    assert_eq!(tile[9], 0xFF303030);
    assert_eq!(tile[0], 0xFF000000);
}

// A tile drawn into a cell lands in its 8x8 square; pixels outside the
// framebuffer are dropped and everything else is untouched.
#[test]
fn ppu_tile_render_tile_into_cell() {
    let mut ppu = PPU::new();
    for i in 0..64 {
        ppu.write_vram(i, 1);
    }
    ppu.render_tile_from_vram(0, 2, 1);
    assert_eq!(ppu.framebuffer[8 * 256 + 16], 0xFF101010);
    assert_eq!(ppu.framebuffer[15 * 256 + 23], 0xFF101010);
    assert_eq!(ppu.framebuffer[8 * 256 + 24], 0);
    assert_eq!(ppu.framebuffer[7 * 256 + 16], 0);
    ppu.render_tile_from_vram(0, 32, 0);
    assert!(ppu.framebuffer[0..8].iter().all(|&p| p == 0));
}

// The method form divides the red channel by 16.
#[test]
fn ppu_tile_method_load_divides_red_by_16() {
    let mut ppu = PPU::new();
    let tiles = vec![vec![[0xF0u8, 0, 0, 255]; 64], vec![[0x20u8, 0, 0, 255]; 64]];
    ppu.load_tiles_into_vram(&tiles);
    assert_eq!(ppu.read_vram(0), 0x0F);
    assert_eq!(ppu.read_vram(64), 0x02);
    assert_eq!(ppu.read_vram(128), 0);
}
