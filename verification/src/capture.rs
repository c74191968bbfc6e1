//! The period corrector: turns raw timer capture events into corrected
//! periods and feeds the plausible ones into the signal window.
//!
//! The surrounding application owns the hardware. It reads the timer's
//! status flags and the captured counter value in its interrupt handler
//! and hands them here as plain values; everything that follows — the
//! overflow accounting, the correction arithmetic, the validity filter
//! and the push — is decided in this module.

use vstd::prelude::*;

use crate::window::SignalWindow;

verus! {

/// Counter ticks per full timer wrap: the captured counter is 16 bits
/// wide, so each missed wrap adds this many ticks to the period.
pub const TICKS_PER_OVERFLOW: u32 = 0x10000;

/// The corrected period: the captured counter value plus one full
/// counter span for every overflow since the previous capture. The
/// largest possible result is exactly `u32::MAX`, so the sum never
/// overflows.
pub fn corrected_period(counter_value: u16, overflow_count: u16) -> (p: u32)
    ensures
        p == counter_value + (TICKS_PER_OVERFLOW as int) * overflow_count,
{
    (counter_value as u32) + TICKS_PER_OVERFLOW * (overflow_count as u32)
}

/// The overflow accounting between two captures: the count rises by one
/// per overflow event, and saturating it marks the measurement cycle
/// corrupted (the timer is far too slow for the configured signal).
pub open spec fn spec_overflow_step(count: int, corrupted: bool, overflowed: bool) -> (int, bool) {
    if overflowed {
        if count == u16::MAX as int {
            (count, true)
        } else {
            (count + 1, corrupted)
        }
    } else {
        (count, corrupted)
    }
}

/// Capture-side state: the overflow count accumulated since the last
/// capture, a corrupted-cycle mark, and the shared signal window the
/// accepted periods go to.
pub struct InputCapture {
    overflow_count: u16,
    corrupted: bool,
    /// The circular window shared with the polling decoder.
    pub signal_window: SignalWindow,
}

impl InputCapture {
    /// Overflows seen since the last capture.
    pub closed spec fn spec_overflow_count(self) -> int {
        self.overflow_count as int
    }

    /// Whether the current measurement cycle is corrupted and its next
    /// period must be dropped.
    pub closed spec fn spec_corrupted(self) -> bool {
        self.corrupted
    }

    /// The window state, for contracts.
    pub closed spec fn spec_signal_window(self) -> SignalWindow {
        self.signal_window
    }

    pub open spec fn wf(self) -> bool {
        self.spec_signal_window().wf()
    }

    /// Fresh capture state over a fresh window.
    pub fn new() -> (c: InputCapture)
        ensures
            c.wf(),
            c.spec_overflow_count() == 0,
            !c.spec_corrupted(),
            c.spec_signal_window().cursor() == 0,
            !c.spec_signal_window().spec_dirty(),
            forall|i: int|
                0 <= i < c.spec_signal_window().buf().len() ==> c.spec_signal_window().buf()[i] == 0,
    {
        InputCapture {
            overflow_count: 0,
            corrupted: false,
            signal_window: SignalWindow::new_const(),
        }
    }

    /// Handle one interrupt's worth of timer events: first account for a
    /// pending overflow, then, if an edge was captured, compute the
    /// corrected period, reset the overflow accounting, and push the
    /// period into the window when it lies within the plausible range
    /// `[min_ticks, max_ticks]` — outside it the sample is dropped in
    /// silence, and a corrupted cycle drops it too. Returns the corrected
    /// period of a capture in an intact cycle, whether pushed or not.
    ///
    /// `min_ticks` stays above zero so that an accepted period can never
    /// collide with the window's unwritten-slot sentinel.
    pub fn handle_interrupt(
        &mut self,
        overflowed: bool,
        captured: Option<u16>,
        min_ticks: u32,
        max_ticks: u32,
    ) -> (r: Option<u32>)
        requires
            old(self).wf(),
            min_ticks >= 1,
        ensures
            final(self).wf(),
            ({
                let stepped = spec_overflow_step(
                    old(self).spec_overflow_count(),
                    old(self).spec_corrupted(),
                    overflowed,
                );
                match captured {
                    None => {
                        &&& final(self).spec_overflow_count() == stepped.0
                        &&& final(self).spec_corrupted() == stepped.1
                        &&& final(self).spec_signal_window() == old(self).spec_signal_window()
                        &&& r is None
                    },
                    Some(counter_value) => {
                        &&& final(self).spec_overflow_count() == 0
                        &&& !final(self).spec_corrupted()
                        &&& (stepped.1 ==> r is None && final(self).spec_signal_window() == old(
                            self,
                        ).spec_signal_window())
                        &&& (!stepped.1 ==> {
                            let p: int = counter_value + (TICKS_PER_OVERFLOW as int) * stepped.0;
                            &&& r == Some(p as u32)
                            &&& (min_ticks <= p <= max_ticks ==> {
                                &&& final(self).spec_signal_window().buf() == old(
                                    self,
                                ).spec_signal_window().buf().update(old(self).spec_signal_window().cursor(), p as u32)
                                &&& final(self).spec_signal_window().cursor() == (old(
                                    self,
                                ).spec_signal_window().cursor() + 1) % (
                                crate::window::WINDOW_SIZE as int)
                                &&& final(self).spec_signal_window().spec_dirty()
                            })
                            &&& (!(min_ticks <= p <= max_ticks) ==> final(self).spec_signal_window()
                                == old(self).spec_signal_window())
                        })
                    },
                }
            }),
    {
        if overflowed {
            if self.overflow_count == u16::MAX {
                self.corrupted = true;
            } else {
                self.overflow_count = self.overflow_count + 1;
            }
        }

        match captured {
            None => None,
            Some(counter_value) => {
                let was_corrupted: bool = self.corrupted;
                let count: u16 = self.overflow_count;
                self.overflow_count = 0;
                self.corrupted = false;
                if was_corrupted {
                    return None;
                }
                let period: u32 = corrected_period(counter_value, count);
                if min_ticks <= period && period <= max_ticks {
                    self.signal_window.push(period);
                }
                Some(period)
            },
        }
    }
}

} // verus!
