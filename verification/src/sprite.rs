use vstd::prelude::*;

verus! {

/// One entry of the tile PPU's sprite table: a screen position, the tile it
/// shows, its attribute flags (bit 6 mirrors it horizontally, bit 7
/// vertically) and whether the entry is in use (`filed`).
#[derive(Clone, Copy, Debug, PartialEq, Eq, Structural)]
pub struct Sprite {
    pub x: i16,
    pub y: i16,
    pub tile: u16,
    pub attr: u8,
    pub filed: bool,
}

/// The empty entry: every field zero, not in use.
pub open spec fn empty_sprite() -> Sprite {
    Sprite { x: 0, y: 0, tile: 0, attr: 0, filed: false }
}

impl Default for Sprite {
    /// The empty entry: every field zero, not in use.
    fn default() -> (r: Self)
        ensures
            r == empty_sprite(),
    {
        Sprite { x: 0, y: 0, tile: 0, attr: 0, filed: false }
    }
}

} // verus!
