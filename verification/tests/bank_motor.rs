use mehrac::bank::BankSelector;
use mehrac::driver::{scan_active, scan_session};
use mehrac::frame::Frame;
use mehrac::motor::{MotorDriver, MotorEvent, MotorMode, MotorWait};
use mehrac::scan::scan_frame;

// A frame whose pixel region is filled with one marker byte, so frames of
// different banks are distinguishable.
fn marked_frame(marker: u8) -> Frame {
    let mut blob = vec![0u8; 316];
    for b in blob.iter_mut().skip(0x3B) {
        *b = marker;
    }
    Frame::new(blob).unwrap()
}

fn four_frames() -> Vec<Frame> {
    vec![
        marked_frame(0x00),
        marked_frame(0xFF),
        marked_frame(0x0F),
        marked_frame(0xAA),
    ]
}

#[test]
fn bank_advances_modulo_four() {
    // After n completed presses the bank reads n % 4.
    let mut sel = BankSelector::new();
    assert_eq!(sel.read(), 0);
    for n in 1..=13u32 {
        sel.press();
        assert_eq!(u32::from(sel.read()), n % 4);
    }
}

#[test]
fn press_during_scan_leaves_the_frame_untouched() {
    // The bank is read once at the top of a frame: a press issued after
    // that read changes nothing of the frame being scanned, and is seen at
    // the top of the next one.
    let frames = four_frames();
    let mut sel = BankSelector::new();
    sel.press();
    sel.press();
    let acts = scan_active(&frames, &sel);
    sel.press();
    assert_eq!(acts, scan_frame(&frames[2]));
    assert_eq!(scan_active(&frames, &sel), scan_frame(&frames[3]));
}

#[test]
fn session_scans_each_frame_whole() {
    // A session whose selector reads change between frames is exactly the
    // concatenation of the whole-frame scans those reads select: no frame
    // mixes two banks.
    let frames = four_frames();
    let session = scan_session(&frames, &vec![0, 0, 3, 1]);
    let mut expected = Vec::new();
    for b in [0usize, 0, 3, 1] {
        expected.extend(scan_frame(&frames[b]));
    }
    assert_eq!(session, expected);
}

#[test]
fn edge_paired_motor_drives_between_the_edges() {
    // Falling edge raises the control output; the paired rising edge drops
    // it; and the other motor is never touched.
    let mut forward = MotorDriver::new(MotorMode::EdgePaired);
    let retract = MotorDriver::new(MotorMode::EdgePaired);

    assert_eq!(forward.next_wait(), MotorWait::ForFallingEdge);
    assert!(forward.accepts_event(MotorEvent::FallingEdge));
    assert!(!forward.accepts_event(MotorEvent::RisingEdge));

    assert!(forward.on_event(MotorEvent::FallingEdge));
    assert_eq!(forward.next_wait(), MotorWait::ForRisingEdge);
    assert!(!forward.on_event(MotorEvent::RisingEdge));
    assert_eq!(forward.next_wait(), MotorWait::ForFallingEdge);

    // The retract motor saw no event and still idles, output low.
    assert_eq!(retract.next_wait(), MotorWait::ForFallingEdge);
}

#[test]
fn fixed_window_motor_drives_for_the_window() {
    let mut m = MotorDriver::new(MotorMode::FixedWindow);
    assert!(m.on_event(MotorEvent::FallingEdge));
    assert_eq!(m.next_wait(), MotorWait::ForWindow);
    assert!(!m.accepts_event(MotorEvent::RisingEdge));
    assert!(m.accepts_event(MotorEvent::WindowElapsed));
    assert!(!m.on_event(MotorEvent::WindowElapsed));
    assert_eq!(m.next_wait(), MotorWait::ForFallingEdge);
}

#[test]
fn motor_cycles_repeat() {
    let mut m = MotorDriver::new(MotorMode::EdgePaired);
    for _ in 0..3 {
        assert!(m.on_event(MotorEvent::FallingEdge));
        assert!(!m.on_event(MotorEvent::RisingEdge));
    }
    assert_eq!(m.next_wait(), MotorWait::ForFallingEdge);
}
