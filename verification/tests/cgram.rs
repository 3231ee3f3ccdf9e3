use ppu::cgram::CGRAM;
use ppu::registers::PPURegisters;

fn make_regs() -> PPURegisters {
    PPURegisters::new()
}

#[test]
fn cgram_test_new_zeroed() {
    let cgram = CGRAM::new();
    assert!(cgram.memory.iter().all(|&w| w == 0));
    assert_eq!(cgram.ppu_open_bus, 0);
}

#[test]
fn cgram_test_write_addr() {
    let mut cgram = CGRAM::new();
    let mut regs = make_regs();

    cgram.write_data(&mut regs, 0xFF);
    cgram.write_addr(&mut regs, 0x42);

    cgram.write_data(&mut regs, 0xBB);
    assert_eq!(cgram.memory[0x42], 0x0000);

    cgram.write_data(&mut regs, 0x3F);
    assert_eq!(cgram.memory[0x42], 0x3FBB);
}

#[test]
fn test_write_data() {
    let mut cgram = CGRAM::new();
    let mut regs = make_regs();

    cgram.write_data(&mut regs, 0xAB);
    assert_eq!(cgram.memory[0x00], 0x0000);
    assert_eq!(cgram.ppu_open_bus, 0xAB);

    cgram.write_data(&mut regs, 0xFF);
    assert_eq!(cgram.memory[0x00], 0x7FAB);
    assert_eq!(cgram.ppu_open_bus, 0xFF);

    cgram.write_data(&mut regs, 0x33);
    cgram.write_data(&mut regs, 0x44);
    assert_eq!(cgram.memory[0x01], 0x4433);
}

#[test]
fn test_write_data_word_addr_wraps() {
    let mut cgram = CGRAM::new();
    let mut regs = make_regs();

    cgram.write_addr(&mut regs, 0xFF);
    cgram.write_data(&mut regs, 0x12);
    cgram.write_data(&mut regs, 0x34);
    cgram.write_data(&mut regs, 0xAA);
    cgram.write_data(&mut regs, 0x55);
    assert_eq!(cgram.memory[0x00], 0x55AA);
}

#[test]
fn test_write_data_sequential_words() {
    let mut cgram = CGRAM::new();
    let mut regs = make_regs();

    for i in 0u8..4 {
        cgram.write_data(&mut regs, i);
        cgram.write_data(&mut regs, i + 0x10);
    }
    assert_eq!(cgram.memory[0x00], 0x1000);
    assert_eq!(cgram.memory[0x01], 0x1101);
    assert_eq!(cgram.memory[0x02], 0x1202);
    assert_eq!(cgram.memory[0x03], 0x1303);
}

#[test]
fn test_read_data() {
    let mut cgram = CGRAM::new();
    let mut regs = make_regs();
    cgram.memory[0x00] = 0x1234;
    cgram.memory[0x01] = 0x2222;

    let lo = cgram.read_data(&mut regs);
    assert_eq!(lo, 0x34);
    assert_eq!(cgram.ppu_open_bus, 0x34);

    cgram.ppu_open_bus = 0x80;
    let hi = cgram.read_data(&mut regs);
    assert_eq!(hi, 0x92);

    let lo1 = cgram.read_data(&mut regs);
    assert_eq!(lo1, 0x22);
}

#[test]
fn test_read_data_open_bus_bit7() {
    let mut cgram = CGRAM::new();
    let mut regs = make_regs();
    cgram.memory[0x00] = 0x7F00;

    let _lo = cgram.read_data(&mut regs);
    cgram.ppu_open_bus = 0x80;
    let hi = cgram.read_data(&mut regs);
    assert_eq!(hi & 0x80, 0x80);
}

#[test]
fn test_read_data_word_addr_wraps() {
    let mut cgram = CGRAM::new();
    let mut regs = make_regs();
    cgram.write_addr(&mut regs, 0xFF);
    cgram.memory[0xFF] = 0x1234;
    cgram.memory[0x00] = 0x5678;

    let _lo = cgram.read_data(&mut regs);
    let _hi = cgram.read_data(&mut regs);
    let lo_next = cgram.read_data(&mut regs);
    assert_eq!(lo_next, 0x78);
}

#[test]
fn test_read_helper() {
    let mut cgram = CGRAM::new();
    let mut regs = make_regs();
    cgram.memory[0x10] = 0xBEEF;
    assert_eq!(cgram.read(0x10), 0xBEEF);

    cgram.write_addr(&mut regs, 0x05);
    let _ = cgram.read(0x05);
    cgram.write_data(&mut regs, 0xAB);
    cgram.write_data(&mut regs, 0x3F);
    assert_eq!(cgram.memory[0x05], 0x3FAB);
}

#[test]
fn cgram_test_round_trip_write_then_read() {
    let mut cgram = CGRAM::new();
    let mut regs = make_regs();

    cgram.write_addr(&mut regs, 0x20);
    cgram.write_data(&mut regs, 0x56);
    cgram.write_data(&mut regs, 0x3A);

    cgram.write_addr(&mut regs, 0x20);
    let lo = cgram.read_data(&mut regs);
    let hi = cgram.read_data(&mut regs);
    assert_eq!(lo, 0x56);
    assert_eq!(hi & 0x7F, 0x3A);
}

// The round trip with bit 7 of the high byte set: the stored colour drops
// it, and the read gives back the 15-bit colour.
#[test]
fn cgram_round_trip_drops_bit_15() {
    let mut cgram = CGRAM::new();
    let mut regs = make_regs();
    cgram.write_addr(&mut regs, 0x7E);
    cgram.write_data(&mut regs, 0xCD);
    cgram.write_data(&mut regs, 0xAB);
    assert_eq!(cgram.read(0x7E), 0x2BCD);
    cgram.write_addr(&mut regs, 0x7E);
    assert_eq!(cgram.read_data(&mut regs), 0xCD);
    assert_eq!(cgram.read_data(&mut regs) & 0x7F, 0x2B);
}
