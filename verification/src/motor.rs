//! The motor control decisions: an edge-triggered drive state machine.
//!
//! Each motor runs as its own loop: it blocks until its input line falls,
//! drives its control output high, then blocks until the drive window ends
//! and drives the output low again. The window ends either on the paired
//! rising edge or after a fixed timed duration, depending on the variant.
//! The two motors are fully independent: each owns its own state and its own
//! output line.

use vstd::prelude::*;

verus! {

/// What ends a drive window: the paired rising edge, or a fixed timed
/// duration.
#[derive(Clone, Copy, PartialEq, Eq, Structural, Debug)]
pub enum MotorMode {
    EdgePaired,
    FixedWindow,
}

/// The fixed drive duration of the timed variant, in milliseconds.
pub const DRIVE_WINDOW_MILLIS: u64 = 5000;

/// An observation handed to the state machine by the task that blocks on
/// the input line and the timer.
#[derive(Clone, Copy, PartialEq, Eq, Structural, Debug)]
pub enum MotorEvent {
    FallingEdge,
    RisingEdge,
    WindowElapsed,
}

/// What the surrounding task must block on before it can hand over the next
/// event.
#[derive(Clone, Copy, PartialEq, Eq, Structural, Debug)]
pub enum MotorWait {
    ForFallingEdge,
    ForRisingEdge,
    ForWindow,
}

/// One motor's drive state machine.
pub struct MotorDriver {
    mode: MotorMode,
    driving: bool,
}

impl MotorDriver {
    /// The variant this motor runs.
    pub closed spec fn mode(self) -> MotorMode {
        self.mode
    }

    /// Whether the control output is currently driven high.
    pub closed spec fn driving(self) -> bool {
        self.driving
    }

    /// What the task should block on next: a falling edge while idle, and
    /// the variant's window terminator while driving.
    pub open spec fn expected(self) -> MotorWait {
        if !self.driving() {
            MotorWait::ForFallingEdge
        } else if self.mode() == MotorMode::EdgePaired {
            MotorWait::ForRisingEdge
        } else {
            MotorWait::ForWindow
        }
    }

    /// Whether `e` is the event the machine is currently blocked on.
    pub open spec fn accepts(self, e: MotorEvent) -> bool {
        match self.expected() {
            MotorWait::ForFallingEdge => e == MotorEvent::FallingEdge,
            MotorWait::ForRisingEdge => e == MotorEvent::RisingEdge,
            MotorWait::ForWindow => e == MotorEvent::WindowElapsed,
        }
    }

    /// A motor starts idle, output low.
    pub fn new(mode: MotorMode) -> (m: Self)
        ensures
            m.mode() == mode,
            !m.driving(),
    {
        MotorDriver { mode, driving: false }
    }

    /// Executable view of `expected`, for the task that runs the waits.
    pub fn next_wait(&self) -> (w: MotorWait)
        ensures
            w == self.expected(),
    {
        if !self.driving {
            MotorWait::ForFallingEdge
        } else if matches!(self.mode, MotorMode::EdgePaired) {
            MotorWait::ForRisingEdge
        } else {
            MotorWait::ForWindow
        }
    }

    /// Executable view of `accepts`.
    pub fn accepts_event(&self, e: MotorEvent) -> (r: bool)
        ensures
            r == self.accepts(e),
    {
        match self.next_wait() {
            MotorWait::ForFallingEdge => matches!(e, MotorEvent::FallingEdge),
            MotorWait::ForRisingEdge => matches!(e, MotorEvent::RisingEdge),
            MotorWait::ForWindow => matches!(e, MotorEvent::WindowElapsed),
        }
    }

    /// Feeds one observed event and returns the level to drive on the
    /// control output: high on the falling edge that starts a window, low on
    /// the terminator that ends it.
    pub fn on_event(&mut self, e: MotorEvent) -> (ctrl: bool)
        requires
            old(self).accepts(e),
        ensures
            final(self).mode() == old(self).mode(),
            final(self).driving() == !old(self).driving(),
            ctrl == final(self).driving(),
    {
        self.driving = !self.driving;
        self.driving
    }
}

} // verus!
