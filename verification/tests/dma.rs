use ppu::dma::{Dma, DmaState, HdmaChannelState, SnesAddress};

#[test]
fn dma_transfer_patterns_by_mode() {
    assert_eq!(Dma::transfer_pattern(0), &[0]);
    assert_eq!(Dma::transfer_pattern(1), &[0, 1]);
    assert_eq!(Dma::transfer_pattern(2), &[0, 0]);
    assert_eq!(Dma::transfer_pattern(3), &[0, 0, 1, 1]);
    assert_eq!(Dma::transfer_pattern(4), &[0, 1, 2, 3]);
    assert_eq!(Dma::transfer_pattern(5), &[0, 1, 0, 1]);
}

// Modes 6 and 7 alias 2 and 3; bits above the low three are ignored.
#[test]
fn dma_transfer_patterns_alias_and_mask() {
    assert_eq!(Dma::transfer_pattern(6), Dma::transfer_pattern(2));
    assert_eq!(Dma::transfer_pattern(7), Dma::transfer_pattern(3));
    assert_eq!(Dma::transfer_pattern(0x81), &[0, 1]);
    assert_eq!(Dma::transfer_pattern(0xFC), &[0, 1, 2, 3]);
}

// The B-bus address wraps inside the $21xx page.
#[test]
fn dma_b_address_wraps_within_page() {
    assert_eq!(Dma::b_address(0x18, 1), SnesAddress { bank: 0, addr: 0x2119 });
    assert_eq!(Dma::b_address(0xFF, 1), SnesAddress { bank: 0, addr: 0x2100 });
    assert_eq!(Dma::b_address(0xFE, 3), SnesAddress { bank: 0, addr: 0x2101 });
}

#[test]
fn dma_default_is_idle() {
    let dma = Dma::default();
    assert_eq!(dma.state, DmaState::Idle);
    assert_eq!(dma.wait, 0);
    assert!(!dma.dma_running);
    assert!(dma.dma.is_none());
    assert_eq!(dma.hdma_queue, 0);
    assert!(dma.channels.iter().all(|c| *c == HdmaChannelState::default()));
    assert_eq!(DmaState::default(), DmaState::Idle);
}

use ppu::dma::{lowest_set_bit, DmaCycle, DmaProgress};

#[test]
fn dma_lowest_set_bit_picks_lowest_channel() {
    assert_eq!(lowest_set_bit(0b1010_0100), 2);
    assert_eq!(lowest_set_bit(0b1000_0000), 7);
    assert_eq!(lowest_set_bit(1), 0);
    assert_eq!(lowest_set_bit(0), 8);
}

// A requested transfer aligns to the 8-cycle grid and pays its start-up
// cost; a channel also enabled for HDMA loses its transfer.
#[test]
fn dma_start_pending_aligns_and_drops_hdma_channels() {
    let mut dma = Dma::default();
    let mut mdmaen = 0b0000_0011u8;
    dma.start_pending_dma(&mut mdmaen, 0b0000_0001, 13);
    assert_eq!(mdmaen, 0b0000_0010);
    assert!(dma.dma_running);
    assert_eq!(dma.state, DmaState::Startup);
    assert_eq!(dma.wait, 8 - 5 + 8 - 1);

    let mut dma = Dma::default();
    let mut mdmaen = 0b0000_0001u8;
    dma.start_pending_dma(&mut mdmaen, 0b0000_0001, 0);
    assert_eq!(mdmaen, 0);
    assert!(!dma.dma_running);
    assert_eq!(dma.state, DmaState::Idle);
}

// A one-byte transfer on channel 0 runs its whole schedule: start-up, the
// channel cost, one byte, then the bus goes back to the CPU.
#[test]
fn dma_one_byte_transfer_schedule() {
    let mut dma = Dma::default();
    let mut mdmaen = 0b0000_0001u8;
    let mut das: u16 = 1;
    let mut held = 0u32;
    let mut bytes = 0u32;
    for cycle in 0..200u64 {
        match dma.update_dma_cycles(&mut mdmaen, 0, cycle) {
            DmaCycle::Free => break,
            DmaCycle::Held => held += 1,
            DmaCycle::HdmaStep => panic!("no HDMA here"),
            DmaCycle::DmaStep => {
                held += 1;
                if let Some(p) = dma.begin_dma_step(mdmaen) {
                    bytes += 1;
                    dma.finish_dma_byte(p, &mut das, &mut mdmaen);
                }
            },
        }
    }
    assert_eq!(bytes, 1);
    assert_eq!(das, 0);
    assert_eq!(mdmaen, 0);
    assert_eq!(dma.state, DmaState::Idle);
    assert!(!dma.dma_running);
    // 15 start-up cycles (align 8 + 7), 1 to leave start-up, 8 for the
    // channel, 8 for the byte, 1 to end the transfer.
    assert_eq!(held, 15 + 1 + 8 + 8 + 1);
}

// A counter of 0 moves 65 536 bytes before the channel leaves MDMAEN.
#[test]
fn dma_count_zero_moves_64k() {
    let mut dma = Dma::default();
    let mut mdmaen = 0b0000_0100u8;
    let mut das: u16 = 0;
    let p = DmaProgress { channel: 2, unit_index: 0 };
    let mut n = 0u32;
    loop {
        dma.finish_dma_byte(p, &mut das, &mut mdmaen);
        n += 1;
        if das == 0 {
            break;
        }
    }
    assert_eq!(n, 65536);
    assert_eq!(mdmaen, 0);
}

#[test]
fn dma_a_address_steps() {
    assert_eq!(Dma::next_a_address(0x1000, 0x00), 0x1001);
    assert_eq!(Dma::next_a_address(0xFFFF, 0x00), 0x0000);
    assert_eq!(Dma::next_a_address(0x1000, 0x10), 0x0FFF);
    assert_eq!(Dma::next_a_address(0x0000, 0x10), 0xFFFF);
    assert_eq!(Dma::next_a_address(0x1000, 0x18), 0x1000);
    assert_eq!(Dma::next_a_address(0x1000, 0x08), 0x1000);
    assert!(Dma::b_to_a(0x80));
    assert!(!Dma::b_to_a(0x7F));
}

#[test]
fn dma_unit_offsets_repeat() {
    let offsets: Vec<u8> = (0..6).map(|i| Dma::unit_offset(3, i)).collect();
    assert_eq!(offsets, vec![0, 0, 1, 1, 0, 0]);
    assert_eq!(Dma::unit_offset(0, 7), 0);
}

// HDMA preempts when due, takes HDMAEN as its queue, serves channels lowest
// first and hands the bus back to a paused transfer.
#[test]
fn dma_hdma_pass_order() {
    let mut dma = Dma::default();
    dma.hdma_pending = true;
    dma.dma_running = true;
    let mut mdmaen = 0u8;
    assert_eq!(dma.update_dma_cycles(&mut mdmaen, 0b0000_0101, 0), DmaCycle::Held);
    assert_eq!(dma.state, DmaState::Hdma);
    assert_eq!(dma.hdma_queue, 0b0000_0101);
    assert_eq!(dma.wait, 17);
    assert_eq!(dma.next_hdma_channel(), Some((0, false)));
    assert_eq!(dma.next_hdma_channel(), Some((2, false)));
    assert_eq!(dma.next_hdma_channel(), None);
    assert_eq!(dma.state, DmaState::Dma);
}

#[test]
fn dma_hdma_line_counter() {
    let mut c = HdmaChannelState::default();
    assert!(c.needs_reload());
    c.reload(0x03);
    assert_eq!(c.line_counter, 3);
    assert!(c.do_transfer);
    c.advance_line();
    assert_eq!(c.line_counter, 2);
    assert!(!c.do_transfer);
    c.advance_line();
    c.advance_line();
    assert!(c.needs_reload());
    assert!(c.do_transfer);
    // Repeat mode writes on every line.
    c.reload(0x82);
    c.advance_line();
    assert!(c.do_transfer);
    // A count of 0 ends the channel.
    c.reload(0);
    assert!(c.finished);
}

// A transfer of channels 1 and 4 serves channel 1 first, then channel 4,
// each for its whole count; their counters end at 0 and the others keep
// theirs.
#[test]
fn dma_whole_transfer_serves_channels_in_order() {
    let mut dma = Dma::default();
    let mut mdmaen = 0b0001_0010u8;
    let mut das: [u16; 8] = [7, 3, 9, 9, 2, 9, 9, 9];
    let mut moved: Vec<u8> = Vec::new();
    for _ in 0..100 {
        match dma.begin_dma_step(mdmaen) {
            Some(p) => {
                moved.push(p.channel);
                let mut d = das[p.channel as usize];
                dma.finish_dma_byte(p, &mut d, &mut mdmaen);
                das[p.channel as usize] = d;
            },
            None => {
                if mdmaen == 0 && dma.dma.is_none() {
                    break;
                }
            },
        }
    }
    assert_eq!(moved, vec![1, 1, 1, 4, 4]);
    assert_eq!(das, [7, 0, 9, 9, 0, 9, 9, 9]);
    assert_eq!(mdmaen, 0);
    assert_eq!(dma.state, DmaState::Idle);
}
