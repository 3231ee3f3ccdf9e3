use vstd::prelude::*;

use crate::tile_ppu::{vram_read_spec, PPU, TILE_PIXELS, TILE_SIZE};

verus! {

/// The 64 palette indices of tile `tile_index`, row-major: VRAM bytes
/// `tile_index * 64` to `tile_index * 64 + 63`, each 0 where it lies past
/// the end of VRAM.
pub fn get_tile_indices_from_vram(ppu: &PPU, tile_index: usize) -> (r: Vec<u8>)
    requires
        tile_index * 64 + 63 <= usize::MAX,
    ensures
        r@.len() == 64,
        forall|j: int| 0 <= j < 64 ==> #[trigger] r@[j] == vram_read_spec(ppu.vram@, tile_index * 64 + j),
{
    let mut indices: Vec<u8> = Vec::with_capacity(TILE_PIXELS);
    let base_addr = tile_index * TILE_SIZE * TILE_SIZE;
    for j in 0..TILE_PIXELS
        invariant
            base_addr == tile_index * 64,
            tile_index * 64 + 63 <= usize::MAX,
            indices@.len() == j,
            forall|k: int| 0 <= k < j ==> #[trigger] indices@[k] == vram_read_spec(ppu.vram@, tile_index * 64 + k),
    {
        indices.push(ppu.read_vram(base_addr + j));
    }
    indices
}

} // verus!
