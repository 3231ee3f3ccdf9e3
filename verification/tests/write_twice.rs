use ppu::write_twice::{BytePhase, WriteTwice};

#[test]
fn test_new_starts_in_low_phase() {
    let w = WriteTwice::new();
    assert_eq!(w.phase, BytePhase::Low);
}

#[test]
fn test_first_write_returns_none() {
    let mut w = WriteTwice::new();
    assert_eq!(w.write(0xAB), None);
}

#[test]
fn test_first_write_sets_phase_to_high() {
    let mut w = WriteTwice::new();
    w.write(0xAB);
    assert_eq!(w.phase, BytePhase::High);
}

#[test]
fn test_second_write_returns_lo_hi() {
    let mut w = WriteTwice::new();
    w.write(0xCD);
    assert_eq!(w.write(0x12), Some((0xCD, 0x12)));
}

#[test]
fn test_second_write_resets_phase_to_low() {
    let mut w = WriteTwice::new();
    w.write(0xAB);
    w.write(0xCD);
    assert_eq!(w.phase, BytePhase::Low);
}

#[test]
fn test_third_write_starts_new_cycle() {
    let mut w = WriteTwice::new();
    w.write(0x11);
    w.write(0x22);
    assert_eq!(w.write(0x33), None);
    assert_eq!(w.write(0x44), Some((0x33, 0x44)));
}

#[test]
fn test_reset_from_low_stays_low() {
    let mut w = WriteTwice::new();
    w.reset();
    assert_eq!(w.phase, BytePhase::Low);
}

#[test]
fn test_reset_from_high_returns_to_low() {
    let mut w = WriteTwice::new();
    w.write(0xFF);
    w.reset();
    assert_eq!(w.phase, BytePhase::Low);
}

#[test]
fn test_reset_restarts_write_cycle() {
    let mut w = WriteTwice::new();
    w.write(0xFF);
    w.reset();
    assert_eq!(w.write(0xAB), None);
    assert_eq!(w.write(0x01), Some((0xAB, 0x01)));
}

#[test]
fn test_byte_phase_flip_low_to_high() {
    let mut phase = BytePhase::Low;
    phase.flip();
    assert_eq!(phase, BytePhase::High);
}

#[test]
fn test_byte_phase_flip_high_to_low() {
    let mut phase = BytePhase::High;
    phase.flip();
    assert_eq!(phase, BytePhase::Low);
}

#[test]
fn test_is_high_returns_false_when_low() {
    assert!(!BytePhase::Low.is_high());
}

#[test]
fn test_is_high_returns_true_when_high() {
    assert!(BytePhase::High.is_high());
}

// A pair written, then a reset in the middle of the next pair: the pair
// after the reset pairs fresh bytes, never the one written before it.
#[test]
fn write_twice_pairs_survive_reset_between_pairs() {
    let mut w = WriteTwice::new();
    assert_eq!(w.write(0x01), None);
    assert_eq!(w.write(0x02), Some((0x01, 0x02)));
    assert_eq!(w.write(0x03), None);
    w.reset();
    assert_eq!(w.write(0x04), None);
    assert_eq!(w.write(0x05), Some((0x04, 0x05)));
}
