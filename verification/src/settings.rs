//! The template set: a fixed-capacity collection of period templates,
//! populated once at startup and read-only thereafter.

use vstd::prelude::*;

use crate::pattern::PeriodPattern;

verus! {

/// Greatest number of templates a set can hold. Adding beyond it is a
/// configuration defect, excluded ahead of the call.
pub const PATTERN_CAPACITY: usize = 8;

/// The template library the decoder evaluates on every poll. Slot zero
/// is by convention the synchronization pattern. A slot whose template
/// has no live entries counts as free.
pub struct Settings {
    current_patterns: [PeriodPattern; PATTERN_CAPACITY],
}

impl Settings {
    /// The stored templates, in declaration order.
    pub closed spec fn pats(self) -> Seq<PeriodPattern> {
        self.current_patterns@
    }

    pub open spec fn wf(self) -> bool {
        &&& self.pats().len() == PATTERN_CAPACITY
        &&& forall|i: int| 0 <= i < PATTERN_CAPACITY ==> (#[trigger] self.pats()[i]).wf()
    }

    /// Whether some slot is still free for `add_pattern`.
    pub open spec fn spec_has_free_slot(self) -> bool {
        exists|i: int| 0 <= i < PATTERN_CAPACITY && (#[trigger] self.pats()[i]).spec_size() == 0
    }

    /// Runtime check for a free slot.
    pub fn has_free_slot(&self) -> (r: bool)
        requires
            self.wf(),
        ensures
            r == self.spec_has_free_slot(),
    {
        for i in 0..PATTERN_CAPACITY
            invariant
                self.wf(),
                forall|j: int| 0 <= j < i ==> (#[trigger] self.pats()[j]).spec_size() != 0,
        {
            if self.current_patterns[i].size() == 0 {
                return true;
            }
        }
        false
    }

    /// Copy of the template in slot `i`.
    pub fn pattern_at(&self, i: usize) -> (p: PeriodPattern)
        requires
            i < PATTERN_CAPACITY,
        ensures
            p == self.pats()[i as int],
    {
        self.current_patterns[i]
    }

    /// Install `pattern` in the first free slot. A full set is a
    /// configuration defect and is excluded ahead of the call.
    pub fn add_pattern(&mut self, pattern: PeriodPattern)
        requires
            old(self).wf(),
            pattern.wf(),
            old(self).spec_has_free_slot(),
        ensures
            final(self).wf(),
            exists|k: int|
                0 <= k < PATTERN_CAPACITY && (forall|j: int|
                    0 <= j < k ==> (#[trigger] old(self).pats()[j]).spec_size() != 0) && (#[trigger] old(
                    self,
                ).pats()[k]).spec_size() == 0 && final(self).pats() == old(self).pats().update(
                    k,
                    pattern,
                ),
    {
        for i in 0..PATTERN_CAPACITY
            invariant
                self.wf(),
                pattern.wf(),
                *self == *old(self),
                old(self).spec_has_free_slot(),
                forall|j: int| 0 <= j < i ==> (#[trigger] self.pats()[j]).spec_size() != 0,
        {
            if self.current_patterns[i].size() == 0 {
                self.current_patterns[i] = pattern;
                proof {
                    assert(self.pats() =~= old(self).pats().update(i as int, pattern));
                }
                return ;
            }
        }
        proof {
            assert(false);
        }
    }
}

impl Default for Settings {
    /// An empty set: every slot free.
    fn default() -> (s: Settings)
        ensures
            s.wf(),
            forall|i: int| 0 <= i < PATTERN_CAPACITY ==> (#[trigger] s.pats()[i]).spec_size() == 0,
    {
        let empty: PeriodPattern = PeriodPattern::new_const();
        Settings { current_patterns: [empty; PATTERN_CAPACITY] }
    }
}

} // verus!
