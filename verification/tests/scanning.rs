use mehrac::frame::Frame;
use mehrac::scan::{scan_frame, scan_row, Action, Line, ACTIONS_PER_FRAME, ACTIONS_PER_ROW};

fn blank_frame() -> Frame {
    Frame::new(vec![0u8; 316]).unwrap()
}

// A frame whose only lit source bit is the upper-plane pixel at (row, col).
fn single_pixel_frame(row: usize, col: usize) -> Frame {
    let mut blob = vec![0u8; 316];
    let pos = row * 64 + col;
    blob[0x3B + 256 - pos / 8] |= 1 << (pos % 8);
    Frame::new(blob).unwrap()
}

#[test]
fn frame_scan_has_the_fixed_shape() {
    let acts = scan_frame(&blank_frame());
    assert_eq!(acts.len(), ACTIONS_PER_FRAME);
    let row = scan_row(&blank_frame(), 0);
    assert_eq!(row.len(), ACTIONS_PER_ROW);
}

#[test]
fn clock_pulses_sit_at_ascending_fixed_indices() {
    // Row scan order: strictly ascending columns 0..64 inside strictly
    // ascending rows 0..16, one clock pulse per column.
    let acts = scan_frame(&blank_frame());
    let mut pulse_indices = Vec::new();
    for (i, a) in acts.iter().enumerate() {
        if *a == Action::Write(Line::Clk, true) {
            pulse_indices.push(i);
        }
    }
    assert_eq!(pulse_indices.len(), 16 * 64);
    let mut k = 0;
    for row in 0..16 {
        for col in 0..64 {
            assert_eq!(pulse_indices[k], 265 * row + 4 * col + 2);
            k += 1;
        }
    }
}

#[test]
fn each_pulse_is_preceded_by_its_columns_data_writes() {
    let f = single_pixel_frame(2, 9);
    let acts = scan_frame(&f);
    for row in 0..16 {
        for col in 0..64 {
            let base = 265 * row + 4 * col;
            let lit = row == 2 && col == 9;
            assert_eq!(acts[base], Action::Write(Line::G1, lit));
            assert_eq!(acts[base + 2], Action::Write(Line::Clk, true));
            assert_eq!(acts[base + 3], Action::Write(Line::Clk, false));
        }
    }
}

#[test]
fn row_tail_latches_and_addresses_in_order() {
    // Row 5 has address bits 0101: A and C high, B and D low.
    let acts = scan_row(&blank_frame(), 5);
    assert_eq!(acts[256], Action::Write(Line::Oe, true));
    assert_eq!(acts[257], Action::Write(Line::Lat, false));
    assert_eq!(acts[258], Action::DelayMicros(1));
    assert_eq!(acts[259], Action::Write(Line::Lat, true));
    assert_eq!(acts[260], Action::Write(Line::AddrA, true));
    assert_eq!(acts[261], Action::Write(Line::AddrB, false));
    assert_eq!(acts[262], Action::Write(Line::AddrC, true));
    assert_eq!(acts[263], Action::Write(Line::AddrD, false));
    assert_eq!(acts[264], Action::Write(Line::Oe, false));
}

#[test]
fn single_origin_pixel_raises_upper_data_on_first_pulse_only() {
    // A single lit pixel at logical (0, 0) of the upper plane: the upper
    // data line is high on the very first clock pulse of the very first row
    // and low on all 1023 other pulses of the frame.
    let f = single_pixel_frame(0, 0);
    let acts = scan_frame(&f);
    let mut g1 = false;
    let mut sampled = Vec::new();
    for a in acts.iter() {
        match *a {
            Action::Write(Line::G1, v) => g1 = v,
            Action::Write(Line::Clk, true) => sampled.push(g1),
            _ => {}
        }
    }
    assert_eq!(sampled.len(), 1024);
    assert!(sampled[0]);
    assert!(sampled[1..].iter().all(|lit| !lit));
}

#[test]
fn output_enable_blankets_every_address_update() {
    // Replaying the frame from the blanked reset state, output-enable is
    // asserted whenever an address line changes, and is released only after
    // the row's address writes are done.
    let acts = scan_frame(&single_pixel_frame(4, 31));
    let mut oe = true;
    for a in acts.iter() {
        match *a {
            Action::Write(Line::Oe, v) => oe = v,
            Action::Write(Line::AddrA, _)
            | Action::Write(Line::AddrB, _)
            | Action::Write(Line::AddrC, _)
            | Action::Write(Line::AddrD, _) => assert!(oe),
            _ => {}
        }
    }
}

#[test]
fn scan_never_touches_the_unused_lines() {
    // Red, blue and the fifth address line are wired but held low: the scan
    // never writes them.
    let acts = scan_frame(&single_pixel_frame(0, 0));
    for a in acts.iter() {
        match *a {
            Action::Write(l, _) => assert!(!matches!(
                l,
                Line::R1 | Line::B1 | Line::R2 | Line::B2 | Line::AddrE
            )),
            Action::DelayMicros(us) => assert_eq!(us, 1),
        }
    }
}
