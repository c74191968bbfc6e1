//! Period templates and the tolerance-based matcher.
//!
//! A template is a zero-terminated sequence of expected periods plus a
//! tolerance. The tolerance is an exact fraction in thousandths, so the
//! open-interval comparison `target * (1 - tol) < actual < target *
//! (1 + tol)` is decided by integer arithmetic with no rounding: for a
//! target of `1000` and a tolerance of `150` thousandths, `850` and
//! `1150` fall outside, `851` and `1149` inside.

use vstd::prelude::*;

use crate::window::WINDOW_SIZE;

verus! {

/// Whole denominator of the tolerance fraction: a tolerance of
/// `TOLERANCE_SCALE` thousandths is a fraction of one.
pub const TOLERANCE_SCALE: u32 = 1000;

/// The open-interval tolerance test: `actual` lies strictly between
/// `target * (1 - tol)` and `target * (1 + tol)`, with the tolerance
/// given in thousandths and the comparison done on exact integers.
pub open spec fn in_tolerance(target: u16, tolerance_milli: u32, actual: u32) -> bool {
    &&& (target as int) * (TOLERANCE_SCALE - tolerance_milli) < (actual as int) * (
    TOLERANCE_SCALE as int)
    &&& (actual as int) * (TOLERANCE_SCALE as int) < (target as int) * (TOLERANCE_SCALE
        + tolerance_milli)
}

proof fn lemma_scaled_product_bound(x: u64, y: u64)
    requires
        x <= 0xFFFF,
        y <= 2 * TOLERANCE_SCALE,
    ensures
        x * y <= 0xFFFF * 2 * (TOLERANCE_SCALE as int),
{
    assert(x * y <= 0xFFFF * 2 * (TOLERANCE_SCALE as int)) by (nonlinear_arith)
        requires
            x <= 0xFFFF,
            y <= 2 * TOLERANCE_SCALE,
    ;
}

/// One decodable symbol: an ordered, zero-terminated sequence of expected
/// periods and a tolerance fraction in thousandths. Immutable after
/// construction.
#[derive(Clone, Copy)]
pub struct PeriodPattern {
    periods: [u16; WINDOW_SIZE],
    size: u8,
    tolerance_milli: u32,
}

impl PeriodPattern {
    /// The stored period slots, terminator and trailing don't-cares
    /// included.
    pub closed spec fn periods_seq(self) -> Seq<u16> {
        self.periods@
    }

    /// Number of live entries: the index of the first zero period.
    pub closed spec fn spec_size(self) -> int {
        self.size as int
    }

    /// The tolerance fraction in thousandths.
    pub closed spec fn spec_tolerance_milli(self) -> u32 {
        self.tolerance_milli
    }

    /// Well-formed: `size` is the index of the first zero entry (or the
    /// full capacity when there is none), and the tolerance is at most
    /// the whole fraction.
    pub open spec fn wf(self) -> bool {
        &&& self.periods_seq().len() == WINDOW_SIZE
        &&& 0 <= self.spec_size() <= WINDOW_SIZE as int
        &&& forall|i: int| 0 <= i < self.spec_size() ==> self.periods_seq()[i] != 0
        &&& self.spec_size() < WINDOW_SIZE as int ==> self.periods_seq()[self.spec_size()] == 0
        &&& self.spec_tolerance_milli() <= TOLERANCE_SCALE
    }

    /// What it means for a window to match this template: the template is
    /// not empty, and every live entry finds a written (nonzero) sample
    /// within tolerance at its position. Entries past the terminator are
    /// don't-cares.
    pub open spec fn spec_matches(self, w: Seq<u32>) -> bool {
        &&& self.spec_size() > 0
        &&& forall|i: int|
            0 <= i < self.spec_size() ==> #[trigger] w[i] != 0 && in_tolerance(
                self.periods_seq()[i],
                self.spec_tolerance_milli(),
                w[i],
            )
    }

    /// An unused/empty template slot: no live entries, so it matches
    /// nothing.
    pub fn new_const() -> (p: PeriodPattern)
        ensures
            p.wf(),
            p.spec_size() == 0,
            p.spec_tolerance_milli() == 0,
            forall|i: int| 0 <= i < WINDOW_SIZE ==> p.periods_seq()[i] == 0,
    {
        PeriodPattern { periods: [0u16; WINDOW_SIZE], size: 0, tolerance_milli: 0 }
    }

    /// Build a template from its period array: the size is the index of
    /// the first zero entry. An array with no zero is a configuration
    /// defect and is excluded ahead of the call, as is a tolerance above
    /// the whole fraction.
    pub fn new(periods: [u16; WINDOW_SIZE], tolerance_milli: u32) -> (p: PeriodPattern)
        requires
            exists|i: int| 0 <= i < WINDOW_SIZE && periods@[i] == 0,
            tolerance_milli <= TOLERANCE_SCALE,
        ensures
            p.wf(),
            p.periods_seq() == periods@,
            p.spec_tolerance_milli() == tolerance_milli,
            p.spec_size() < WINDOW_SIZE as int,
            periods@[p.spec_size()] == 0,
            forall|i: int| 0 <= i < p.spec_size() ==> periods@[i] != 0,
    {
        for i in 0..WINDOW_SIZE
            invariant
                exists|k: int| 0 <= k < WINDOW_SIZE && periods@[k] == 0,
                tolerance_milli <= TOLERANCE_SCALE,
                forall|j: int| 0 <= j < i ==> periods@[j] != 0,
        {
            if periods[i] == 0 {
                return PeriodPattern { periods, size: i as u8, tolerance_milli };
            }
        }
        proof {
            assert(false);
        }
        PeriodPattern { periods, size: 0, tolerance_milli }
    }

    /// Runtime read of the number of live entries.
    pub fn size(&self) -> (s: u8)
        ensures
            s as int == self.spec_size(),
    {
        self.size
    }

    /// Runtime read of the tolerance fraction in thousandths.
    pub fn tolerance_milli(&self) -> (t: u32)
        ensures
            t == self.spec_tolerance_milli(),
    {
        self.tolerance_milli
    }

    /// Copy of the stored period array.
    pub fn periods(&self) -> (r: [u16; WINDOW_SIZE])
        ensures
            r@ == self.periods_seq(),
    {
        self.periods
    }

    /// The live entries in order, without the terminator: what a reader
    /// walking the template sees.
    pub fn live_periods(&self) -> (r: Vec<u16>)
        requires
            self.wf(),
        ensures
            r@ == self.periods_seq().take(self.spec_size()),
    {
        let mut r: Vec<u16> = Vec::new();
        let size: usize = self.size as usize;
        for i in 0..size
            invariant
                self.wf(),
                size == self.spec_size(),
                r@ =~= self.periods_seq().take(i as int),
        {
            r.push(self.periods[i]);
            proof {
                assert(r@ =~= self.periods_seq().take(i + 1));
            }
        }
        proof {
            assert(r@ =~= self.periods_seq().take(self.spec_size()));
        }
        r
    }

    /// Decide whether the window matches this template, scanning in
    /// order and failing fast: the first entry that finds an unwritten
    /// sample or one out of tolerance decides the answer, and a zero
    /// template entry ends the comparison with a match.
    pub fn match_window(&self, signal_pattern: &[u32; WINDOW_SIZE]) -> (r: bool)
        requires
            self.wf(),
        ensures
            r == self.spec_matches(signal_pattern@),
    {
        if self.size == 0 {
            return false;
        }
        for signal_index in 0..WINDOW_SIZE
            invariant
                self.wf(),
                self.spec_size() > 0,
                signal_index as int <= self.spec_size(),
                forall|j: int|
                    0 <= j < signal_index ==> #[trigger] signal_pattern@[j] != 0 && in_tolerance(
                        self.periods_seq()[j],
                        self.spec_tolerance_milli(),
                        signal_pattern@[j],
                    ),
        {
            let target_val: u16 = self.periods[signal_index];
            let signal_period: u32 = signal_pattern[signal_index];

            if target_val == 0 {
                proof {
                    assert(signal_index as int == self.spec_size());
                }
                return true;
            }
            proof {
                assert((signal_index as int) < self.spec_size());
            }
            if signal_period == 0 {
                return false;
            }
            let t: u64 = target_val as u64;
            let a: u64 = signal_period as u64;
            proof {
                lemma_scaled_product_bound(t, (TOLERANCE_SCALE - self.tolerance_milli) as u64);
                lemma_scaled_product_bound(t, (TOLERANCE_SCALE + self.tolerance_milli) as u64);
            }
            let low: u64 = t * ((TOLERANCE_SCALE - self.tolerance_milli) as u64);
            let high: u64 = t * ((TOLERANCE_SCALE + self.tolerance_milli) as u64);
            let scaled: u64 = a * (TOLERANCE_SCALE as u64);
            if !(low < scaled && scaled < high) {
                proof {
                    assert(!in_tolerance(
                        self.periods_seq()[signal_index as int],
                        self.spec_tolerance_milli(),
                        signal_pattern@[signal_index as int],
                    ));
                }
                return false;
            }
        }
        proof {
            assert(self.spec_size() == WINDOW_SIZE as int);
        }
        true
    }
}

impl Default for PeriodPattern {
    /// The empty template slot.
    fn default() -> (p: PeriodPattern)
        ensures
            p.wf(),
            p.spec_size() == 0,
    {
        PeriodPattern::new_const()
    }
}

/// Fail-fast: a window whose first sample is unwritten or out of
/// tolerance matches a non-empty template under no circumstances — the
/// values of the later samples play no part.
pub proof fn lemma_match_fail_fast(p: PeriodPattern, w: Seq<u32>)
    requires
        p.wf(),
        p.spec_size() > 0,
        w[0] == 0 || !in_tolerance(p.periods_seq()[0], p.spec_tolerance_milli(), w[0]),
    ensures
        !p.spec_matches(w),
{
}

/// No false sync: a window of all zeros — the cold-start state — matches
/// no template at all, however wide its tolerance; an empty template
/// matches nothing either.
pub proof fn lemma_no_false_sync(p: PeriodPattern, w: Seq<u32>)
    requires
        p.wf(),
        forall|i: int| 0 <= i < w.len() ==> w[i] == 0,
        w.len() == WINDOW_SIZE,
    ensures
        !p.spec_matches(w),
{
    if p.spec_size() > 0 {
        assert(w[0] == 0);
    }
}

} // verus!
