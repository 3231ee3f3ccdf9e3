use vstd::prelude::*;

verus! {

// OAM layout:
// Table 1 ($000-$1FF): 128 sprites * 4 bytes
// Table 2 ($200-$21F): 128 sprites * 2 bits (packed, 4 sprites per byte)
/// Size of the first table: 4 bytes for each of the 128 sprites.
pub const OAM_TABLE1_SIZE: usize = 512;

/// Size of the second table: 2 bits for each of the 128 sprites.
pub const OAM_TABLE2_SIZE: usize = 32;

/// Size of the whole OAM.
pub const OAM_SIZE: usize = 544;

/// Decoded sprite attributes from OAM.
#[derive(Debug, Clone, Copy)]
pub struct Sprite {
    /// X position (9-bit signed: sprites past 255 wrap to the left of the screen)
    pub x: i16,
    /// Y position (top edge of the sprite)
    pub y: u8,
    /// Raw tile number (0-255) from OAM. The final VRAM address is
    /// `chr_base + tile * 16`, with multi-tile sprites wrapping the low nibble
    /// (horizontal) and high nibble (vertical) independently.
    pub tile: u8,
    /// Base CHR word address for this sprite, with name-table selection applied.
    pub chr_base: u16,
    /// Name-table select bit (from table 1 attribute byte)
    pub name_table: u8,
    /// Palette number (0-7); sprites use CGRAM entries 128-255
    pub palette: u8,
    /// Priority (0-3)
    pub priority: u8,
    /// Horizontal flip
    pub flip_x: bool,
    /// Vertical flip
    pub flip_y: bool,
    /// Large size bit (the actual size comes from OBJSEL)
    pub large: bool,
}

/// Object attribute memory: sprite table 1 and table 2, with the state of its
/// data port.
pub struct OAM {
    /// Raw OAM data: 512 bytes table 1 + 32 bytes table 2.
    pub data: [u8; 544],
    /// Internal byte address (0-543 range, masked to 9 bits on write).
    /// Set by OAMADDL/H ($2102/$2103).
    pub word_addr: u16,
    /// Low-byte write buffer for table 1 (write-twice mechanism).
    /// Table 1 writes commit in pairs: first write latches lo, second commits lo+hi.
    pub write_latch: u8,
    /// True when the next OAMDATA write is the high byte of a table 1 pair.
    pub write_phase_high: bool,
}

/// The byte address that an OAMADD value selects: an address inside OAM
/// (0-543) is kept, anything beyond is masked to 9 bits.
pub open spec fn oam_address_spec(oamadd: u16) -> u16 {
    if oamadd < OAM_SIZE {
        oamadd
    } else {
        (oamadd % 512) as u16
    }
}

/// The two table-2 bits of sprite `index`: bit 0 is bit 8 of X, bit 1 the
/// large-size bit.
pub open spec fn table2_bits(data: Seq<u8>, index: int) -> int {
    let t2 = data[OAM_TABLE1_SIZE + index / 4] as int;
    let k = index % 4;
    if k == 0 {
        t2 % 4
    } else if k == 1 {
        (t2 / 4) % 4
    } else if k == 2 {
        (t2 / 16) % 4
    } else {
        (t2 / 64) % 4
    }
}

/// CHR base word address of a sprite: OBJSEL bits 2-0 in 0x2000-word steps,
/// plus, for name table 1, the secondary select (OBJSEL bits 4-3) plus one in
/// 0x1000-word steps, wrapping at 16 bits.
pub open spec fn chr_base_spec(objsel: u8, name_table: u8) -> u16 {
    let name_base = objsel as int % 8;
    let name_select = (objsel as int / 8) % 4;
    if name_table == 0 {
        (name_base * 0x2000) as u16
    } else {
        ((name_base * 0x2000 + (name_select + 1) * 0x1000) % 0x1_0000) as u16
    }
}

/// Sprite `index` as decoded from OAM bytes `data` under OBJSEL `objsel`.
/// X is 9-bit signed when its table-2 high bit is set (256-511 read as
/// -256 to -1); a large sprite without that bit sits at X = 0.
pub open spec fn sprite_spec(data: Seq<u8>, index: int, objsel: u8) -> Sprite {
    let base = index * 4;
    let x_lo = data[base] as int;
    let attr = data[base + 3];
    let bits = table2_bits(data, index);
    let name_table = (attr % 2) as u8;
    Sprite {
        x: (if bits % 2 == 1 {
            x_lo - 256
        } else if bits / 2 == 1 {
            0
        } else {
            x_lo
        }) as i16,
        y: data[base + 1],
        tile: data[base + 2],
        chr_base: chr_base_spec(objsel, name_table),
        name_table,
        palette: ((attr / 2) % 8) as u8,
        priority: ((attr / 16) % 4) as u8,
        flip_x: (attr / 64) % 2 == 1,
        flip_y: attr >= 128,
        large: bits / 2 == 1,
    }
}

/// Sprite size (width, height) in pixels for OBJSEL size mode bits 7-5 and
/// the sprite's large bit.
pub open spec fn sprite_size_spec(objsel: u8, large: bool) -> (u8, u8) {
    let mode = objsel / 32;
    if mode == 0 {
        if large { (16, 16) } else { (8, 8) }
    } else if mode == 1 {
        if large { (32, 32) } else { (8, 8) }
    } else if mode == 2 {
        if large { (64, 64) } else { (8, 8) }
    } else if mode == 3 {
        if large { (32, 32) } else { (16, 16) }
    } else if mode == 4 {
        if large { (64, 64) } else { (16, 16) }
    } else if mode == 5 {
        if large { (64, 64) } else { (32, 32) }
    } else {
        if large { (16, 16) } else { (8, 8) }
    }
}

/// OAM after a write of `value` to $2104 (see [`OAM::write_data`]).
pub open spec fn write_data_spec(o: OAM, value: u8) -> OAM {
    if o.word_addr < OAM_TABLE1_SIZE {
        if !o.write_phase_high {
            OAM { write_latch: value, write_phase_high: true, ..o }
        } else {
            let even = o.word_addr - o.word_addr % 2;
            OAM {
                data: vstd::array::spec_array_update(
                    vstd::array::spec_array_update(o.data, even, o.write_latch),
                    even + 1,
                    value,
                ),
                word_addr: ((o.word_addr + 2) % 512) as u16,
                write_phase_high: false,
                ..o
            }
        }
    } else {
        let offset = (o.word_addr - OAM_TABLE1_SIZE) % 32;
        OAM {
            data: vstd::array::spec_array_update(o.data, OAM_TABLE1_SIZE + offset, value),
            word_addr: (OAM_TABLE1_SIZE + (o.word_addr - OAM_TABLE1_SIZE + 1) % 32) as u16,
            ..o
        }
    }
}

/// Byte returned by a read of $2138.
pub open spec fn read_value_spec(o: OAM) -> u8 {
    o.data@[o.word_addr as int % OAM_SIZE as int]
}

/// OAM after a read of $2138: the address steps by one, wrapping at the end.
pub open spec fn read_data_spec(o: OAM) -> OAM {
    OAM { word_addr: ((o.word_addr + 1) % OAM_SIZE as int) as u16, ..o }
}

/// OAM after OAMADD is set to `oamadd`.
pub open spec fn write_addr_spec(o: OAM, oamadd: u16) -> OAM {
    OAM { word_addr: oam_address_spec(oamadd), write_phase_high: false, ..o }
}

/// Row of sprite `s` that scanline `y` crosses, counted from its top edge
/// and wrapping at 256 lines.
pub open spec fn sprite_row(y: int, s: Sprite) -> int {
    (y - s.y) % 256
}

/// Whether sprite `s` covers scanline `y` under OBJSEL `objsel`.
pub open spec fn on_scanline(s: Sprite, y: int, objsel: u8) -> bool {
    sprite_row(y, s) < sprite_size_spec(objsel, s.large).1
}

/// Indices below `n` of the sprites that cover scanline `y`, in OAM order.
pub open spec fn sprites_in_range(data: Seq<u8>, y: int, objsel: u8, n: int) -> Seq<u8>
    decreases n,
{
    if n <= 0 {
        seq![]
    } else {
        let prev = sprites_in_range(data, y, objsel, n - 1);
        if on_scanline(sprite_spec(data, n - 1, objsel), y, objsel) {
            prev.push((n - 1) as u8)
        } else {
            prev
        }
    }
}

/// Most sprites that one scanline can show.
pub const MAX_SPRITES_PER_LINE: usize = 32;

/// The sprites of scanline `y`: the first 32 (in OAM order) that cover it,
/// each with its index.
pub open spec fn eval_spec(data: Seq<u8>, y: int, objsel: u8) -> Seq<(u8, Sprite)> {
    let all = sprites_in_range(data, y, objsel, 128);
    let kept = if all.len() > MAX_SPRITES_PER_LINE {
        all.take(MAX_SPRITES_PER_LINE as int)
    } else {
        all
    };
    kept.map_values(|i: u8| (i, sprite_spec(data, i as int, objsel)))
}

impl OAM {
    /// Zeroed memory, address 0, and no pending write.
    pub fn new() -> (r: Self)
        ensures
            forall|i: int| 0 <= i < OAM_SIZE ==> r.data@[i] == 0,
            r.data@.len() == OAM_SIZE,
            r.word_addr == 0,
            r.write_latch == 0,
            !r.write_phase_high,
    {
        broadcast use vstd::array::group_array_axioms;
        Self { data: [0u8; 544], word_addr: 0, write_latch: 0, write_phase_high: false }
    }

    // ============================================================
    // $2102/$2103 - OAMADDL/OAMADDH
    // ============================================================

    /// Set the OAM byte address from the OAMADDL/H register pair: an address
    /// inside OAM is kept, anything beyond is masked to 9 bits. Resets the
    /// write-twice latch.
    pub fn write_addr(&mut self, oamadd: u16)
        ensures
            *final(self) == (OAM {
                word_addr: oam_address_spec(oamadd),
                write_phase_high: false,
                ..*old(self)
            }),
    {
        proof {
            crate::bits::lemma_low9(oamadd);
        }
        self.word_addr = if oamadd < OAM_SIZE as u16 {
            oamadd
        } else {
            oamadd & 0x01FF
        };
        self.write_phase_high = false;
    }

    // ============================================================
    // $2104 - OAMDATA (write)
    // ============================================================

    /// Write one byte to OAM via the data port.
    ///
    /// Table 1 ($000-$1FF): buffered in pairs. The first write latches the
    /// low byte; the second commits both bytes at the even address of the
    /// pair and advances the address by 2.
    /// Table 2 ($200-$21F): committed immediately, one byte at a time.
    pub fn write_data(&mut self, value: u8)
        ensures
            *final(self) == write_data_spec(*old(self), value),
            old(self).word_addr < OAM_TABLE1_SIZE && !old(self).write_phase_high ==> *final(self)
                == (OAM { write_latch: value, write_phase_high: true, ..*old(self) }),
            old(self).word_addr < OAM_TABLE1_SIZE && old(self).write_phase_high ==> {
                let even = old(self).word_addr - old(self).word_addr % 2;
                &&& final(self).data@ == old(self).data@.update(even, old(self).write_latch).update(
                    even + 1,
                    value,
                )
                &&& final(self).word_addr == (old(self).word_addr + 2) % 512
                &&& !final(self).write_phase_high
                &&& final(self).write_latch == old(self).write_latch
            },
            old(self).word_addr >= OAM_TABLE1_SIZE ==> {
                let offset = (old(self).word_addr - OAM_TABLE1_SIZE) % 32;
                &&& final(self).data@ == old(self).data@.update(OAM_TABLE1_SIZE + offset, value)
                &&& final(self).word_addr == OAM_TABLE1_SIZE + (old(self).word_addr - OAM_TABLE1_SIZE
                    + 1) % 32
                &&& final(self).write_phase_high == old(self).write_phase_high
                &&& final(self).write_latch == old(self).write_latch
            },
    {
        broadcast use vstd::array::group_array_axioms;
        let addr = self.word_addr as usize;

        if addr < OAM_TABLE1_SIZE {
            // Table 1: write-twice (lo then hi)
            if !self.write_phase_high {
                self.write_latch = value;
                self.write_phase_high = true;
            } else {
                assert(addr & !1usize == addr - addr % 2) by (bit_vector);
                let byte_addr = addr & !1;  // align to even
                self.data[byte_addr] = self.write_latch;
                self.data[byte_addr + 1] = value;
                self.write_phase_high = false;
                let a = self.word_addr;
                let a2 = a + 2;
                proof {
                    crate::bits::lemma_low9(a2);
                }
                self.word_addr = a2 & 0x01FF;
            }
        } else {
            // Table 2: single-byte write, committed immediately
            let byte_addr = OAM_TABLE1_SIZE + (addr - OAM_TABLE1_SIZE) % OAM_TABLE2_SIZE;
            self.data[byte_addr] = value;
            self.word_addr = OAM_TABLE1_SIZE as u16 + ((self.word_addr - OAM_TABLE1_SIZE as u16 + 1)
                % OAM_TABLE2_SIZE as u16);
        }
    }

    // ============================================================
    // $2138 - OAMDATAREAD (read)
    // ============================================================

    /// Read one byte from OAM via the data port.
    /// Reads are single-byte and advance the address by 1, wrapping at the
    /// end of OAM.
    pub fn read_data(&mut self) -> (r: u8)
        requires
            old(self).word_addr < u16::MAX,
        ensures
            r == old(self).data@[old(self).word_addr as int % OAM_SIZE as int],
            *final(self) == (OAM {
                word_addr: ((old(self).word_addr + 1) % OAM_SIZE as int) as u16,
                ..*old(self)
            }),
    {
        broadcast use vstd::array::group_array_axioms;
        let addr = self.word_addr as usize % OAM_SIZE;
        let value = self.data[addr];
        self.word_addr = (self.word_addr + 1) % OAM_SIZE as u16;
        value
    }

    // ============================================================
    // Sprite decoding
    // ============================================================

    /// Decodes sprite `index` (0-127) from OAM, as [`sprite_spec`] says.
    pub fn get_sprite(&self, index: u8, objsel: u8) -> (r: Sprite)
        requires
            index < 128,
        ensures
            r == sprite_spec(self.data@, index as int, objsel),
    {
        broadcast use vstd::array::group_array_axioms;
        let i = index as usize;

        // Table 1: 4 bytes per sprite
        let x_lo = self.data[i * 4];
        let y = self.data[i * 4 + 1];
        let tile_lo = self.data[i * 4 + 2];
        let attr = self.data[i * 4 + 3];  // vhoopppN
        let flip_y = (attr & 0x80) != 0;
        let flip_x = (attr & 0x40) != 0;
        let priority = (attr >> 4) & 0x03;
        let palette = (attr >> 1) & 0x07;
        let name_table = attr & 0x01;
        assert(flip_y == (attr >= 128) && flip_x == ((attr / 64) % 2 == 1) && priority == (attr
            / 16) % 4 && palette == (attr / 2) % 8 && name_table == attr % 2) by (bit_vector)
            requires
                flip_y == ((attr & 0x80) != 0),
                flip_x == ((attr & 0x40) != 0),
                priority == (attr >> 4) & 0x03,
                palette == (attr >> 1) & 0x07,
                name_table == attr & 0x01,
        ;

        // Table 2: 2 bits per sprite, packed 4 per byte
        let t2_byte = self.data[OAM_TABLE1_SIZE + i / 4];
        let shift = ((i % 4) * 2) as u8;
        let t2_bits = (t2_byte >> shift) & 0x03;
        assert(t2_bits == table2_bits(self.data@, i as int)) by {
            let k = i % 4;
            assert((t2_byte >> 0u8) & 3 == t2_byte % 4 && (t2_byte >> 2u8) & 3 == (t2_byte / 4) % 4
                && (t2_byte >> 4u8) & 3 == (t2_byte / 16) % 4 && (t2_byte >> 6u8) & 3 == (t2_byte
                / 64) % 4) by (bit_vector);
        }
        let x_hi = t2_bits & 0x01;  // bit 8 of X
        let large = (t2_bits & 0x02) != 0;
        assert(x_hi == t2_bits % 2 && large == (t2_bits / 2 == 1)) by (bit_vector)
            requires
                t2_bits < 4,
                x_hi == t2_bits & 0x01,
                large == ((t2_bits & 0x02) != 0),
        ;

        // Reconstruct 9-bit X (256-511 => -256 to -1)
        let x_raw = ((x_hi as u16) << 8) | x_lo as u16;
        assert(x_raw == x_hi * 256 + x_lo) by (bit_vector)
            requires
                x_hi < 2,
                x_raw == ((x_hi as u16) << 8) | x_lo as u16,
        ;
        let x = if x_hi != 0 {
            x_raw as i16 - 512
        } else if large {
            0
        } else {
            x_raw as i16
        };

        // CHR base address from OBJSEL, plus name-table selection.
        // OBJSEL bits 2:0 = name base address (in 0x2000-word steps),
        // bits 4:3 = secondary name select (offset for name_table == 1).
        let name_base = (objsel & 0x07) as u16;
        let name_select = ((objsel >> 3) & 0x03) as u16;
        assert(name_base == objsel % 8 && name_select == (objsel / 8) % 4) by (bit_vector)
            requires
                name_base == (objsel & 0x07) as u16,
                name_select == ((objsel >> 3) & 0x03) as u16,
        ;
        assert(name_base << 13 == name_base * 0x2000) by (bit_vector)
            requires
                name_base < 8,
        ;
        let sel1 = name_select + 1;
        assert(sel1 << 12 == sel1 * 0x1000) by (bit_vector)
            requires
                sel1 < 5,
        ;
        let chr_base = if name_table == 0 {
            name_base << 13
        } else {
            (name_base << 13).wrapping_add(sel1 << 12)
        };

        Sprite {
            x,
            y,
            tile: tile_lo,
            chr_base,
            name_table,
            palette,
            priority,
            flip_x,
            flip_y,
            large,
        }
    }

    /// Return the sprite size (width, height) in pixels for a given sprite,
    /// according to the size mode encoded in OBJSEL bits 7:5.
    pub fn sprite_size(objsel: u8, large: bool) -> (r: (u8, u8))
        ensures
            r == sprite_size_spec(objsel, large),
    {
        assert((objsel >> 5) & 0x07 == objsel / 32) by (bit_vector);
        match (objsel >> 5) & 0x07 {
            0 => if large { (16, 16) } else { (8, 8) },
            1 => if large { (32, 32) } else { (8, 8) },
            2 => if large { (64, 64) } else { (8, 8) },
            3 => if large { (32, 32) } else { (16, 16) },
            4 => if large { (64, 64) } else { (16, 16) },
            5 => if large { (64, 64) } else { (32, 32) },
            // Modes 6 and 7 are undocumented; they are treated as 8x8 / 16x16.
            _ => if large { (16, 16) } else { (8, 8) },
        }
    }

    /// Sprite evaluation for scanline `y`: the first 32 sprites, in OAM
    /// order, whose vertical extent covers the scanline, each with its index;
    /// and whether more sprites than that cover it (range over).
    pub fn eval_sprites_for_scanline(&self, y: usize, objsel: u8) -> (r: (Vec<(u8, Sprite)>, bool))
        requires
            y < 256,
        ensures
            r.0@ == eval_spec(self.data@, y as int, objsel),
            r.1 == (sprites_in_range(self.data@, y as int, objsel, 128).len() > MAX_SPRITES_PER_LINE),
    {
        let mut sprites: Vec<(u8, Sprite)> = Vec::new();
        let mut range_over = false;
        let ghost data = self.data@;
        let mut i: u8 = 0;
        while i < 128
            invariant
                i <= 128,
                y < 256,
                data == self.data@,
                ({
                    let all = sprites_in_range(data, y as int, objsel, i as int);
                    &&& sprites@.len() == if all.len() > MAX_SPRITES_PER_LINE {
                        MAX_SPRITES_PER_LINE as int
                    } else {
                        all.len() as int
                    }
                    &&& forall|k: int|
                        0 <= k < sprites@.len() ==> #[trigger] sprites@[k] == (
                            all[k],
                            sprite_spec(data, all[k] as int, objsel),
                        )
                    &&& range_over == (all.len() > MAX_SPRITES_PER_LINE)
                }),
            decreases 128 - i,
        {
            let ghost prev = sprites_in_range(data, y as int, objsel, i as int);
            let sprite = self.get_sprite(i, objsel);
            let (_w, h) = Self::sprite_size(objsel, sprite.large);
            let row = (y as u8).wrapping_sub(sprite.y);
            assert(row == sprite_row(y as int, sprite));
            if (row as usize) < (h as usize) {
                if sprites.len() < MAX_SPRITES_PER_LINE {
                    sprites.push((i, sprite));
                } else {
                    range_over = true;
                }
            }
            proof {
                let next = sprites_in_range(data, y as int, objsel, i as int + 1);
                assert(next == if on_scanline(sprite, y as int, objsel) {
                    prev.push(i)
                } else {
                    prev
                });
                assert forall|k: int| 0 <= k < prev.len() implies #[trigger] next[k] == prev[k] by {}
            }
            i += 1;
        }
        proof {
            let all = sprites_in_range(data, y as int, objsel, 128);
            let kept = if all.len() > MAX_SPRITES_PER_LINE {
                all.take(MAX_SPRITES_PER_LINE as int)
            } else {
                all
            };
            assert(sprites@ =~= kept.map_values(|i: u8| (i, sprite_spec(data, i as int, objsel))));
        }
        (sprites, range_over)
    }
}

/// A pair of bytes written to table 1 through $2104 at an even address reads
/// back through $2138 once the address is set to it again: low byte first,
/// high byte second.
pub proof fn lemma_table1_round_trip(o: OAM, addr: u16, low: u8, high: u8)
    requires
        addr < OAM_TABLE1_SIZE,
        addr % 2 == 0,
    ensures
        ({
            let o1 = write_addr_spec(o, addr);
            let o2 = write_data_spec(o1, low);
            let o3 = write_data_spec(o2, high);
            let o4 = write_addr_spec(o3, addr);
            &&& read_value_spec(o4) == low
            &&& read_value_spec(read_data_spec(o4)) == high
        }),
{
    broadcast use vstd::array::group_array_axioms;
}

/// A table-2 write takes effect at once and stays inside table 2.
pub proof fn lemma_table2_immediate(o: OAM, addr: u16, value: u8)
    requires
        OAM_TABLE1_SIZE <= addr < OAM_SIZE,
    ensures
        ({
            let o1 = write_data_spec(write_addr_spec(o, addr), value);
            &&& o1.data@[addr as int] == value
            &&& OAM_TABLE1_SIZE <= o1.word_addr < OAM_SIZE
        }),
{
    broadcast use vstd::array::group_array_axioms;
}

/// A decoded sprite's fields stay in their hardware ranges: X in -256..=255,
/// palette below 8, priority below 4, name table 0 or 1.
pub proof fn lemma_sprite_ranges(data: Seq<u8>, index: int, objsel: u8)
    requires
        data.len() == OAM_SIZE,
        0 <= index < 128,
    ensures
        ({
            let s = sprite_spec(data, index, objsel);
            &&& -256 <= s.x <= 255
            &&& s.palette < 8
            &&& s.priority < 4
            &&& s.name_table < 2
        }),
{
}

/// Where a sprite's tiles are: with OBJSEL's name base `b` (bits 0-2) and
/// name select `n` (bits 3-4), a sprite whose attribute bit 0 is clear uses
/// name table 0 at word `b * 0x2000`, and one whose bit 0 is set uses name
/// table 1, `(n + 1) * 0x1000` words further on (wrapping at 0x10000). The
/// two tables never coincide: under one OBJSEL, sprites of different name
/// tables take their tiles from different bases.
pub proof fn lemma_sprite_name_tables(data: Seq<u8>, index: int, data2: Seq<u8>, index2: int, objsel: u8)
    requires
        data.len() == OAM_SIZE,
        0 <= index < 128,
        data2.len() == OAM_SIZE,
        0 <= index2 < 128,
    ensures
        ({
            let s = sprite_spec(data, index, objsel);
            let s2 = sprite_spec(data2, index2, objsel);
            let b = objsel as int % 8;
            let n = (objsel as int / 8) % 4;
            let attr = data[index * 4 + 3];
            &&& attr % 2 == 0 ==> s.name_table == 0 && s.chr_base == b * 0x2000
            &&& attr % 2 == 1 ==> s.name_table == 1 && s.chr_base == (b * 0x2000 + (n + 1) * 0x1000)
                % 0x10000
            &&& s.chr_base % 0x1000 == 0
            &&& s.name_table != s2.name_table ==> s.chr_base != s2.chr_base
        }),
{
}

/// How a sprite is decoded from OAM: table 1 holds, per sprite, the low 8
/// bits of X, then Y, the tile number and the attribute byte (bit 0 name
/// table, bits 1-3 palette, bits 4-5 priority, bit 6 horizontal flip, bit 7
/// vertical flip); table 2 holds two bits per sprite, four sprites per byte
/// from the low bits up: bit 0 is X bit 8 (X in -256..-1 when set), bit 1
/// the large-size flag. A large sprite without X bit 8 sits at X = 0.
pub proof fn lemma_sprite_decoding(data: Seq<u8>, index: int, objsel: u8)
    requires
        data.len() == OAM_SIZE,
        0 <= index < 128,
    ensures
        ({
            let s = sprite_spec(data, index, objsel);
            let attr = data[index * 4 + 3];
            let t2 = data[OAM_TABLE1_SIZE + index / 4];
            let bits = (t2 >> ((2 * (index % 4)) as u8)) & 0x03;
            &&& s.y == data[index * 4 + 1]
            &&& s.tile == data[index * 4 + 2]
            &&& s.name_table == attr & 0x01
            &&& s.palette == (attr >> 1u8) & 0x07
            &&& s.priority == (attr >> 4u8) & 0x03
            &&& s.flip_x == ((attr & 0x40) != 0)
            &&& s.flip_y == ((attr & 0x80) != 0)
            &&& s.large == ((bits & 0x02) != 0)
            &&& s.x == if bits & 0x01 != 0 {
                data[index * 4] as int - 256
            } else if bits & 0x02 != 0 {
                0
            } else {
                data[index * 4] as int
            }
        }),
{
    let attr = data[index * 4 + 3];
    let t2 = data[OAM_TABLE1_SIZE + index / 4];
    crate::bits::lemma_byte_masks(attr);
    crate::bits::lemma_byte_masks(t2);
    let k = index % 4;
    let bits = (t2 >> ((2 * k) as u8)) & 0x03;
    if k == 0 {
        assert(((2 * k) as u8) == 0u8);
    } else if k == 1 {
        assert(((2 * k) as u8) == 2u8);
    } else if k == 2 {
        assert(((2 * k) as u8) == 4u8);
    } else {
        assert(((2 * k) as u8) == 6u8);
    }
    assert(bits as int == table2_bits(data, index));
    crate::bits::lemma_byte_masks(bits);
    assert(bits < 4);
}

/// The height in pixels of a sprite whose table-2 bits are `bits`: the
/// large size when the size bit (bit 1) is set, else the small size.
pub open spec fn sprite_height(objsel: u8, bits: int) -> int {
    sprite_size_spec(objsel, bits / 2 == 1).1 as int
}

/// Whether sprite `i` covers scanline `y`: its row `(y - Y) mod 256` lies
/// inside the height of its own size.
pub open spec fn covers_line(data: Seq<u8>, i: int, y: int, objsel: u8) -> bool {
    (y - data[i * 4 + 1] as int) % 256 < sprite_height(objsel, table2_bits(data, i))
}

/// The sprites below `n` that cover scanline `y` are listed, in OAM order,
/// and no other.
proof fn lemma_in_range_exact(data: Seq<u8>, y: int, objsel: u8, n: int)
    requires
        data.len() == OAM_SIZE,
        0 <= n <= 128,
    ensures
        ({
            let all = sprites_in_range(data, y, objsel, n);
            &&& forall|k: int| 0 <= k < all.len() ==> #[trigger] all[k] < n && covers_line(data, all[k] as int, y, objsel)
            &&& forall|j: int, k: int| 0 <= j < k < all.len() ==> #[trigger] all[j] < #[trigger] all[k]
            &&& forall|i: int| 0 <= i < n && #[trigger] covers_line(data, i, y, objsel) ==> all.contains(i as u8)
        }),
    decreases n,
{
    if n > 0 {
        lemma_in_range_exact(data, y, objsel, n - 1);
        let prev = sprites_in_range(data, y, objsel, n - 1);
        let all = sprites_in_range(data, y, objsel, n);
        assert(on_scanline(sprite_spec(data, n - 1, objsel), y, objsel) == covers_line(data, n - 1, y, objsel));
        if covers_line(data, n - 1, y, objsel) {
            assert(all == prev.push((n - 1) as u8));
            assert forall|i: int| 0 <= i < n && #[trigger] covers_line(data, i, y, objsel) implies all.contains(i as u8) by {
                if i < n - 1 {
                    let k = choose|k: int| 0 <= k < prev.len() && prev[k] == i as u8;
                    assert(all[k] == i as u8);
                } else {
                    assert(all[all.len() - 1] == i as u8);
                }
            }
        }
    }
}

/// Which sprites a scanline shows: sprite `i` is among the sprites covering
/// scanline `y` exactly when `(y - Y) mod 256` is below the height of its
/// own size (large when its table-2 size bit is set) under OBJSEL; they are
/// listed in OAM order, and the evaluation keeps the first 32 of them, each
/// with its index and decoded attributes.
pub proof fn lemma_scanline_sprites(data: Seq<u8>, y: int, objsel: u8)
    requires
        data.len() == OAM_SIZE,
    ensures
        ({
            let all = sprites_in_range(data, y, objsel, 128);
            let ev = eval_spec(data, y, objsel);
            &&& forall|i: int|
                0 <= i < 128 ==> (all.contains(i as u8) <==> (y - data[i * 4 + 1] as int) % 256
                    < sprite_size_spec(objsel, table2_bits(data, i) / 2 == 1).1)
            &&& forall|j: int, k: int| 0 <= j < k < all.len() ==> #[trigger] all[j] < #[trigger] all[k]
            &&& ev.len() == if all.len() > 32 {
                32
            } else {
                all.len()
            }
            &&& forall|k: int|
                0 <= k < ev.len() ==> #[trigger] ev[k] == (all[k], sprite_spec(data, all[k] as int, objsel))
        }),
{
    lemma_in_range_exact(data, y, objsel, 128);
    let all = sprites_in_range(data, y, objsel, 128);
    assert forall|i: int| 0 <= i < 128 implies (all.contains(i as u8) <==> (y - data[i * 4 + 1] as int) % 256
        < sprite_size_spec(objsel, table2_bits(data, i) / 2 == 1).1) by {
        if all.contains(i as u8) {
            let k = choose|k: int| 0 <= k < all.len() && all[k] == i as u8;
            assert(covers_line(data, all[k] as int, y, objsel));
        } else {
            if covers_line(data, i, y, objsel) {
            }
        }
    }
}

/// In every size mode a large sprite is at least as big as a small one, and
/// sprites are square, with a side of 8, 16, 32 or 64 pixels.
pub proof fn lemma_sprite_sizes(objsel: u8)
    ensures
        sprite_size_spec(objsel, false).0 <= sprite_size_spec(objsel, true).0,
        forall|large: bool|
            #![trigger sprite_size_spec(objsel, large)]
            sprite_size_spec(objsel, large).0 == sprite_size_spec(objsel, large).1 && (
            sprite_size_spec(objsel, large).0 == 8 || sprite_size_spec(objsel, large).0 == 16
                || sprite_size_spec(objsel, large).0 == 32 || sprite_size_spec(objsel, large).0
                == 64),
{
}

} // verus!
