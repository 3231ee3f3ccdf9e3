use vstd::prelude::*;

pub mod constants;
pub mod word;
pub mod write_twice;
pub mod registers;
pub mod vram;
pub mod cgram;
pub mod color;
pub mod oam;
pub mod ppu;
pub mod rendering;
pub mod bits;
pub mod a;
pub mod bus;
pub mod product_order;
pub mod sprite;
pub mod tile_ppu;
pub mod tile;
pub mod utils;
pub mod tile_loader;
pub mod dma;
pub mod gui;
pub mod rom;
pub mod bitfield;
pub mod timing;
