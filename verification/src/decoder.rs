//! The poll-side decoder: snapshot the window, evaluate every template,
//! report the matches and clear the matched regions.

use vstd::prelude::*;

use crate::pattern::PeriodPattern;
use crate::settings::PATTERN_CAPACITY;
use crate::settings::Settings;
use crate::window::SignalWindow;
use crate::window::WINDOW_SIZE;
use crate::window::covered;

verus! {

/// The template indices below `k` whose templates match the window `w`,
/// in declaration order.
pub open spec fn matched_upto(pats: Seq<PeriodPattern>, w: Seq<u32>, k: int) -> Seq<usize>
    decreases k,
{
    if k <= 0 {
        Seq::empty()
    } else if pats[k - 1].spec_matches(w) {
        matched_upto(pats, w, k - 1).push((k - 1) as usize)
    } else {
        matched_upto(pats, w, k - 1)
    }
}

/// All template indices whose templates match the window, in order.
pub open spec fn matched_indices(pats: Seq<PeriodPattern>, w: Seq<u32>) -> Seq<usize> {
    matched_upto(pats, w, PATTERN_CAPACITY as int)
}

/// Whether storage slot `j` is zeroed by the clears of one poll: some
/// template among the first `k` matches the window and its live span,
/// laid out from `start`, covers the slot.
pub open spec fn cleared_upto(
    pats: Seq<PeriodPattern>,
    w: Seq<u32>,
    start: int,
    k: int,
    j: int,
) -> bool {
    exists|i: int|
        0 <= i < k && (#[trigger] pats[i]).spec_matches(w) && covered(
            start,
            pats[i].spec_size(),
            j,
        )
}

/// One poll of the decoder.
///
/// When nothing was pushed since the last poll, the call does nothing
/// and reports no match. Otherwise it takes the window snapshot, clears
/// the dirty flag, evaluates every template slot in declaration order
/// against that one snapshot — matches are not mutually exclusive — and,
/// for each match, zeroes the template's live span starting at the
/// snapshot's start slot, so the same physical samples cannot trigger a
/// second, overlapping match on a later poll. The returned indices are
/// the matching template slots in order; by convention index zero is the
/// synchronization pattern.
pub fn process(settings: &Settings, window: &mut SignalWindow) -> (matched: Vec<usize>)
    requires
        settings.wf(),
        old(window).wf(),
    ensures
        final(window).wf(),
        final(window).cursor() == old(window).cursor(),
        !final(window).spec_dirty(),
        !old(window).spec_dirty() ==> *final(window) == *old(window) && matched@ == Seq::<
            usize,
        >::empty(),
        old(window).spec_dirty() ==> matched@ == matched_indices(
            settings.pats(),
            old(window).spec_window(),
        ) && forall|j: int|
            0 <= j < WINDOW_SIZE ==> final(window).buf()[j] == (if cleared_upto(
                settings.pats(),
                old(window).spec_window(),
                old(window).cursor(),
                PATTERN_CAPACITY as int,
                j,
            ) {
                0u32
            } else {
                old(window).buf()[j]
            }),
{
    let snap = window.snapshot_and_clear_dirty();
    match snap {
        None => Vec::new(),
        Some((current_window, window_start_index)) => {
            let mut matched: Vec<usize> = Vec::new();
            for i in 0..PATTERN_CAPACITY
                invariant
                    settings.wf(),
                    window.wf(),
                    window.cursor() == old(window).cursor(),
                    !window.spec_dirty(),
                    current_window@ == old(window).spec_window(),
                    window_start_index == old(window).cursor(),
                    matched@ == matched_upto(settings.pats(), current_window@, i as int),
                    forall|j: int|
                        0 <= j < WINDOW_SIZE ==> window.buf()[j] == (if cleared_upto(
                            settings.pats(),
                            current_window@,
                            window_start_index as int,
                            i as int,
                            j,
                        ) {
                            0u32
                        } else {
                            old(window).buf()[j]
                        }),
            {
                let pattern = settings.pattern_at(i);
                if pattern.match_window(&current_window) {
                    matched.push(i);
                    let ghost before = window.buf();
                    window.clear_region(window_start_index, pattern.size() as usize);
                    proof {
                        assert forall|j: int|
                            0 <= j < WINDOW_SIZE implies window.buf()[j] == (if cleared_upto(
                            settings.pats(),
                            current_window@,
                            window_start_index as int,
                            i + 1,
                            j,
                        ) {
                            0u32
                        } else {
                            old(window).buf()[j]
                        }) by {
                            if covered(
                                window_start_index as int,
                                settings.pats()[i as int].spec_size(),
                                j,
                            ) {
                                assert(cleared_upto(
                                    settings.pats(),
                                    current_window@,
                                    window_start_index as int,
                                    i + 1,
                                    j,
                                ));
                            } else {
                                assert(window.buf()[j] == before[j]);
                                assert(cleared_upto(
                                    settings.pats(),
                                    current_window@,
                                    window_start_index as int,
                                    i + 1,
                                    j,
                                ) == cleared_upto(
                                    settings.pats(),
                                    current_window@,
                                    window_start_index as int,
                                    i as int,
                                    j,
                                ));
                            }
                        }
                    }
                } else {
                    proof {
                        assert forall|j: int|
                            0 <= j < WINDOW_SIZE implies window.buf()[j] == (if cleared_upto(
                            settings.pats(),
                            current_window@,
                            window_start_index as int,
                            i + 1,
                            j,
                        ) {
                            0u32
                        } else {
                            old(window).buf()[j]
                        }) by {
                            assert(cleared_upto(
                                settings.pats(),
                                current_window@,
                                window_start_index as int,
                                i + 1,
                                j,
                            ) == cleared_upto(
                                settings.pats(),
                                current_window@,
                                window_start_index as int,
                                i as int,
                                j,
                            ));
                        }
                    }
                }
            }
            matched
        },
    }
}

} // verus!
