use ppu::a::add;
use ppu::bus::Bus;

// A VRAM word written through the bus's PPU window is read back through it.
#[test]
fn bus_vram_round_trip_through_ppu_window() {
    let mut bus = Bus::new();
    bus.cpu_write(0x2115, 0x80);
    bus.cpu_write(0x2116, 0x10);
    bus.cpu_write(0x2117, 0x00);
    bus.cpu_write(0x2118, 0xCD);
    bus.cpu_write(0x2119, 0xAB);
    assert_eq!(bus.ppu.vram.memory[0x0010], 0xABCD);
    bus.cpu_write(0x2116, 0x10);
    bus.cpu_write(0x2117, 0x00);
    assert_eq!(bus.cpu_read(0x2139), 0xCD);
    assert_eq!(bus.cpu_read(0x213A), 0xAB);
}

// Writes outside $2100-$213F reach nothing, reads there give 0.
#[test]
fn bus_ignores_addresses_outside_ppu_window() {
    let mut bus = Bus::new();
    bus.cpu_write(0x20FF, 0x8F);
    bus.cpu_write(0x2140, 0x8F);
    assert_eq!(bus.ppu.regs.inidisp, 0);
    bus.ppu.vram.memory[0] = 0x1234;
    assert_eq!(bus.cpu_read(0x2239), 0);
    assert_eq!(bus.cpu_read(0x0000), 0);
}

// The window's edges are routed: $2100 and $213F.
#[test]
fn bus_routes_window_edges() {
    let mut bus = Bus::new();
    bus.cpu_write(0x2100, 0x8F);
    assert!(bus.ppu.force_blank());
    assert_eq!(bus.ppu.brightness(), 0x0F);
    assert_eq!(bus.cpu_read(0x213F), 0);
}

#[test]
fn add_sums() {
    assert_eq!(add(2, 3), 5);
    assert_eq!(add(-7, 7), 0);
    assert_eq!(add(i32::MAX, 0), i32::MAX);
}
