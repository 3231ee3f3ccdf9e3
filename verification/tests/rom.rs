use ppu::rom::{decode_size_kb, RomHeader, RomInfo};

fn header(checksum: u16, complement: u16) -> RomHeader {
    RomHeader {
        title: "TEST".to_string(),
        rom_size: 0x0A,
        ram_size: 0,
        developer_id: 0x33,
        rom_version: 1,
        checksum,
        checksum_complement: complement,
    }
}

#[test]
fn rom_size_exponents() {
    assert_eq!(decode_size_kb(0), None);
    assert_eq!(decode_size_kb(1), Some(2));
    assert_eq!(decode_size_kb(0x0A), Some(1024));
    assert_eq!(decode_size_kb(0x0C), Some(4096));
}

#[test]
fn rom_checksum_complement() {
    assert!(header(0x1234, 0xEDCB).checksum_valid());
    assert!(header(0xFFFF, 0x0000).checksum_valid());
    assert!(!header(0x1234, 0x1234).checksum_valid());
    assert!(!header(0x0000, 0x0000).checksum_valid());
}

#[test]
fn rom_info_rounds_file_size_down() {
    let info = RomInfo::new("game.sfc".to_string(), 1024 * 512 + 1023, header(0, 0xFFFF));
    assert_eq!(info.file_size_kb, 512);
    assert_eq!(info.path, "game.sfc");
    assert_eq!(info.header.developer_id, 0x33);
}
