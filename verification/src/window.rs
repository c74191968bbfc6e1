//! Fixed-capacity circular window of corrected periods.
//!
//! The window is the single piece of state shared between the capture
//! producer and the polling consumer. A slot holding `0` means "not yet
//! written since the last clear": `0` is never a valid corrected period,
//! so it doubles as the warm-up sentinel.

use vstd::prelude::*;

verus! {

/// Number of period slots in the circular window.
pub const WINDOW_SIZE: usize = 8;

/// The storage slot that position `i` of the logical (oldest-first)
/// window occupies, for a ring whose write cursor stands at `cursor`.
pub open spec fn slot_of(cursor: int, i: int) -> int {
    (cursor + i) % (WINDOW_SIZE as int)
}

/// The value that position `i` of the logical window reads from storage.
pub open spec fn raw_at(buf: Seq<u32>, cursor: int, i: int) -> u32 {
    buf[slot_of(cursor, i)]
}

/// The logical window is cut short at the first unwritten (zero) slot:
/// position `i` reads zero when some position at or before it does.
pub open spec fn truncated_at(buf: Seq<u32>, cursor: int, i: int) -> bool {
    exists|j: int| 0 <= j <= i && raw_at(buf, cursor, j) == 0
}

/// The logical window: the ring read oldest-first from `cursor`,
/// zero-padded from the first unwritten slot on.
pub open spec fn window_of(buf: Seq<u32>, cursor: int) -> Seq<u32> {
    Seq::new(
        WINDOW_SIZE as nat,
        |i: int|
            if truncated_at(buf, cursor, i) {
                0u32
            } else {
                raw_at(buf, cursor, i)
            },
    )
}

/// Whether storage slot `j` lies in the wrap-around span of `count`
/// slots that starts at `start`.
pub open spec fn covered(start: int, count: int, j: int) -> bool {
    exists|i: int| start <= i < start + count && #[trigger] (i % (WINDOW_SIZE as int)) == j
}

/// The buffer after zeroing the wrap-around span `[start, start + count)`.
pub open spec fn spec_clear(buf: Seq<u32>, start: int, count: int) -> Seq<u32> {
    Seq::new(
        WINDOW_SIZE as nat,
        |j: int|
            if covered(start, count, j) {
                0u32
            } else {
                buf[j]
            },
    )
}

/// One push: write `value` at the cursor and advance it by one, wrapping.
pub open spec fn spec_push(buf: Seq<u32>, cursor: int, value: u32) -> (Seq<u32>, int) {
    (buf.update(cursor, value), (cursor + 1) % (WINDOW_SIZE as int))
}

/// The ring state after pushing `values` in order.
pub open spec fn spec_push_all(buf: Seq<u32>, cursor: int, values: Seq<u32>) -> (Seq<u32>, int)
    decreases values.len(),
{
    if values.len() == 0 {
        (buf, cursor)
    } else {
        let stepped = spec_push(buf, cursor, values[0]);
        spec_push_all(stepped.0, stepped.1, values.drop_first())
    }
}

/// Circular buffer of the most recent corrected periods.
///
/// Written by `push` (capture context) and `clear_region` (poll context),
/// read by `get_window`; the surrounding application serializes those
/// calls under its mutual-exclusion primitive.
pub struct SignalWindow {
    buffer: [u32; WINDOW_SIZE],
    next_index: u8,
    dirty: bool,
}

impl SignalWindow {
    /// The stored slots, oldest-first order not applied.
    pub closed spec fn buf(self) -> Seq<u32> {
        self.buffer@
    }

    /// The write cursor: the slot the next push overwrites, which is also
    /// the oldest live slot.
    pub closed spec fn cursor(self) -> int {
        self.next_index as int
    }

    /// Whether the window has received a push since the consumer last
    /// took a snapshot.
    pub closed spec fn spec_dirty(self) -> bool {
        self.dirty
    }

    /// Runtime read of the dirty flag.
    pub fn is_dirty(&self) -> (d: bool)
        ensures
            d == self.spec_dirty(),
    {
        self.dirty
    }

    pub open spec fn wf(self) -> bool {
        &&& self.buf().len() == WINDOW_SIZE
        &&& 0 <= self.cursor() < WINDOW_SIZE as int
    }

    /// The logical window this state presents to the decoder.
    pub open spec fn spec_window(self) -> Seq<u32> {
        window_of(self.buf(), self.cursor())
    }

    /// A fresh window: every slot unwritten, cursor at zero, nothing new.
    pub fn new_const() -> (w: SignalWindow)
        ensures
            w.wf(),
            w.cursor() == 0,
            !w.spec_dirty(),
            forall|i: int| 0 <= i < WINDOW_SIZE ==> w.buf()[i] == 0,
    {
        SignalWindow { buffer: [0u32; WINDOW_SIZE], next_index: 0, dirty: false }
    }

    /// Write `value` at the cursor, advance the cursor, and mark the
    /// window dirty. Always succeeds: when the ring is full the oldest
    /// sample is overwritten.
    pub fn push(&mut self, value: u32)
        requires
            old(self).wf(),
        ensures
            final(self).wf(),
            final(self).buf() == old(self).buf().update(old(self).cursor(), value),
            final(self).cursor() == (old(self).cursor() + 1) % (WINDOW_SIZE as int),
            final(self).spec_dirty(),
    {
        let idx: usize = self.next_index as usize;
        self.buffer[idx] = value;
        self.next_index = (self.next_index + 1) % (WINDOW_SIZE as u8);
        self.dirty = true;
    }

    /// Copy out the logical window together with the storage index of its
    /// first (oldest) position. Slots from the first unwritten one on read
    /// zero; the start index is reported either way, so the caller can
    /// compute absolute slot positions for clearing.
    pub fn get_window(&self) -> (r: ([u32; WINDOW_SIZE], usize))
        requires
            self.wf(),
        ensures
            r.0@ == self.spec_window(),
            r.1 == self.cursor(),
    {
        let mut window: [u32; WINDOW_SIZE] = [0u32; WINDOW_SIZE];
        let window_start: usize = self.next_index as usize;
        for window_index in 0..WINDOW_SIZE
            invariant
                self.wf(),
                window_start == self.cursor(),
                window@.len() == WINDOW_SIZE,
                forall|j: int|
                    0 <= j < window_index ==> #[trigger] raw_at(self.buf(), window_start as int, j)
                        != 0,
                forall|j: int|
                    0 <= j < window_index ==> window@[j] == raw_at(
                        self.buf(),
                        window_start as int,
                        j,
                    ),
                forall|j: int| window_index <= j < WINDOW_SIZE ==> window@[j] == 0,
        {
            let value_index: usize = (window_start + window_index) % WINDOW_SIZE;
            let val: u32 = self.buffer[value_index];
            proof {
                assert(value_index as int == (window_start as int + window_index as int) % (
                WINDOW_SIZE as int));
                assert(val == raw_at(self.buf(), window_start as int, window_index as int));
            }
            if val == 0 {
                proof {
                    assert(raw_at(self.buf(), window_start as int, window_index as int) == 0);
                    assert forall|i: int| 0 <= i < WINDOW_SIZE implies window@[i]
                        == self.spec_window()[i] by {
                        if i < window_index {
                            assert forall|j: int|
                                0 <= j <= i implies raw_at(self.buf(), window_start as int, j)
                                != 0 by {}
                            assert(!truncated_at(self.buf(), window_start as int, i));
                        } else {
                            assert(truncated_at(self.buf(), window_start as int, i));
                        }
                    }
                    assert(window@ =~= self.spec_window());
                }
                return (window, window_start);
            } else {
                window[window_index] = val;
            }
        }
        proof {
            assert forall|i: int| 0 <= i < WINDOW_SIZE implies window@[i]
                == self.spec_window()[i] by {
                assert forall|j: int| 0 <= j <= i implies raw_at(self.buf(), window_start as int, j)
                    != 0 by {}
                assert(!truncated_at(self.buf(), window_start as int, i));
            }
            assert(window@ =~= self.spec_window());
        }
        (window, window_start)
    }

    /// Zero `count` slots starting at `start`, wrapping around the ring.
    /// The decoder uses this to invalidate the span that took part in a
    /// match, so the same physical samples cannot match again.
    pub fn clear_region(&mut self, start: usize, count: usize)
        requires
            old(self).wf(),
            start + count <= usize::MAX,
        ensures
            final(self).wf(),
            final(self).cursor() == old(self).cursor(),
            final(self).spec_dirty() == old(self).spec_dirty(),
            final(self).buf() == spec_clear(old(self).buf(), start as int, count as int),
    {
        let end: usize = start + count;
        for index in start..end
            invariant
                self.wf(),
                self.cursor() == old(self).cursor(),
                self.spec_dirty() == old(self).spec_dirty(),
                forall|j: int|
                    0 <= j < WINDOW_SIZE ==> self.buf()[j] == (if covered(
                        start as int,
                        index - start,
                        j,
                    ) {
                        0u32
                    } else {
                        old(self).buf()[j]
                    }),
        {
            let slot: usize = index % WINDOW_SIZE;
            self.buffer[slot] = 0;
            proof {
                assert forall|j: int|
                    0 <= j < WINDOW_SIZE implies self.buf()[j] == (if covered(
                    start as int,
                    index + 1 - start,
                    j,
                ) {
                    0u32
                } else {
                    old(self).buf()[j]
                }) by {
                    if j == slot as int {
                        assert((index as int) % (WINDOW_SIZE as int) == j);
                        assert(covered(start as int, index + 1 - start, j));
                    } else {
                        if covered(start as int, index + 1 - start, j) {
                            let i: int = choose|i: int|
                                start <= i < index + 1 && #[trigger] (i % (WINDOW_SIZE as int))
                                    == j;
                            assert(i != index);
                            assert(covered(start as int, index - start, j));
                        }
                        if covered(start as int, index - start, j) {
                            assert(covered(start as int, index + 1 - start, j));
                        }
                    }
                }
            }
        }
        proof {
            assert(self.buf() =~= spec_clear(old(self).buf(), start as int, count as int));
        }
    }

    /// The consumer's poll entry: when nothing was pushed since the last
    /// poll, report `None`; otherwise clear the dirty flag and hand out
    /// the logical window with its start index. The stored slots and the
    /// cursor are untouched either way.
    pub fn snapshot_and_clear_dirty(&mut self) -> (r: Option<([u32; WINDOW_SIZE], usize)>)
        requires
            old(self).wf(),
        ensures
            final(self).wf(),
            final(self).buf() == old(self).buf(),
            final(self).cursor() == old(self).cursor(),
            !final(self).spec_dirty(),
            !old(self).spec_dirty() ==> *final(self) == *old(self) && r is None,
            old(self).spec_dirty() ==> (r matches Some(pair) && pair.0@ == old(self).spec_window()
                && pair.1 == old(self).cursor()),
    {
        if self.dirty {
            self.dirty = false;
            Some(self.get_window())
        } else {
            None
        }
    }
}

/// Clear idempotence: clearing a span and then clearing the same span
/// again yields the same buffer state as clearing it once.
pub proof fn lemma_clear_region_idempotent(buf: Seq<u32>, start: int, count: int)
    requires
        buf.len() == WINDOW_SIZE,
    ensures
        spec_clear(spec_clear(buf, start, count), start, count) == spec_clear(buf, start, count),
{
    assert(spec_clear(spec_clear(buf, start, count), start, count) =~= spec_clear(
        buf,
        start,
        count,
    ));
}

/// Pushing preserves the shape of the ring: the buffer keeps its length
/// and the cursor stays in range.
pub proof fn lemma_push_all_shape(buf: Seq<u32>, cursor: int, values: Seq<u32>)
    requires
        buf.len() == WINDOW_SIZE,
        0 <= cursor < WINDOW_SIZE as int,
    ensures
        spec_push_all(buf, cursor, values).0.len() == WINDOW_SIZE,
        0 <= spec_push_all(buf, cursor, values).1 < WINDOW_SIZE as int,
    decreases values.len(),
{
    if values.len() > 0 {
        let stepped = spec_push(buf, cursor, values[0]);
        lemma_push_all_shape(stepped.0, stepped.1, values.drop_first());
    }
}

/// Pushing a sequence and then one more value is one push after pushing
/// the sequence.
pub proof fn lemma_push_all_snoc(buf: Seq<u32>, cursor: int, values: Seq<u32>, value: u32)
    ensures
        spec_push_all(buf, cursor, values.push(value)) == spec_push(
            spec_push_all(buf, cursor, values).0,
            spec_push_all(buf, cursor, values).1,
            value,
        ),
    decreases values.len(),
{
    if values.len() == 0 {
        let one = values.push(value);
        let stepped = spec_push(buf, cursor, value);
        assert(one[0] == value);
        assert(one.drop_first() =~= Seq::<u32>::empty());
        assert(spec_push_all(stepped.0, stepped.1, one.drop_first()) == stepped);
        assert(spec_push_all(buf, cursor, one) == stepped);
    } else {
        let stepped = spec_push(buf, cursor, values[0]);
        assert(values.push(value)[0] == values[0]);
        assert(values.push(value).drop_first() =~= values.drop_first().push(value));
        lemma_push_all_snoc(stepped.0, stepped.1, values.drop_first(), value);
    }
}

/// Pushing a concatenation is pushing the first part and then the second.
pub proof fn lemma_push_all_concat(buf: Seq<u32>, cursor: int, xs: Seq<u32>, ys: Seq<u32>)
    ensures
        spec_push_all(buf, cursor, xs + ys) == spec_push_all(
            spec_push_all(buf, cursor, xs).0,
            spec_push_all(buf, cursor, xs).1,
            ys,
        ),
    decreases xs.len(),
{
    if xs.len() == 0 {
        assert(xs + ys =~= ys);
    } else {
        let stepped = spec_push(buf, cursor, xs[0]);
        assert((xs + ys)[0] == xs[0]);
        assert((xs + ys).drop_first() =~= xs.drop_first() + ys);
        lemma_push_all_concat(stepped.0, stepped.1, xs.drop_first(), ys);
    }
}

/// After pushing at most `WINDOW_SIZE` values, the cursor has advanced by
/// their number, each pushed value sits at its chronological slot, and
/// every slot that none of them occupies is untouched.
pub proof fn lemma_push_all_fill(buf: Seq<u32>, cursor: int, values: Seq<u32>)
    requires
        buf.len() == WINDOW_SIZE,
        0 <= cursor < WINDOW_SIZE as int,
        values.len() <= WINDOW_SIZE,
    ensures
        spec_push_all(buf, cursor, values).0.len() == WINDOW_SIZE,
        spec_push_all(buf, cursor, values).1 == (cursor + values.len()) % (WINDOW_SIZE as int),
        forall|i: int|
            0 <= i < values.len() ==> spec_push_all(buf, cursor, values).0[#[trigger] slot_of(
                cursor,
                i,
            )] == values[i],
        forall|j: int|
            0 <= j < WINDOW_SIZE && (forall|i: int|
                0 <= i < values.len() ==> #[trigger] slot_of(cursor, i) != j) ==> spec_push_all(
                buf,
                cursor,
                values,
            ).0[j] == buf[j],
    decreases values.len(),
{
    lemma_push_all_shape(buf, cursor, values);
    if values.len() > 0 {
        let front = values.drop_last();
        let last = values.last();
        assert(values =~= front.push(last));
        lemma_push_all_fill(buf, cursor, front);
        lemma_push_all_snoc(buf, cursor, front, last);
        let mid = spec_push_all(buf, cursor, front);
        let full = spec_push_all(buf, cursor, values);
        assert(full.0 == mid.0.update(mid.1, last));
        assert(mid.1 == slot_of(cursor, front.len() as int));
        assert(full.1 == (cursor + values.len()) % (WINDOW_SIZE as int));
        assert forall|i: int| 0 <= i < values.len() implies full.0[#[trigger] slot_of(cursor, i)]
            == values[i] by {
            if i < front.len() {
                assert(slot_of(cursor, i) != slot_of(cursor, front.len() as int));
                assert(full.0[slot_of(cursor, i)] == mid.0[slot_of(cursor, i)]);
            }
        }
    }
}

/// Ring correctness: after `WINDOW_SIZE` or more pushes of valid
/// (nonzero) periods, the logical window holds exactly the last
/// `WINDOW_SIZE` pushed values in chronological order, and the cursor —
/// the start index that `get_window` reports — is the storage slot of
/// the oldest of those values.
pub proof fn lemma_ring_correctness(buf: Seq<u32>, cursor: int, values: Seq<u32>)
    requires
        buf.len() == WINDOW_SIZE,
        0 <= cursor < WINDOW_SIZE as int,
        values.len() >= WINDOW_SIZE,
        forall|i: int| 0 <= i < values.len() ==> values[i] != 0,
    ensures
        window_of(spec_push_all(buf, cursor, values).0, spec_push_all(buf, cursor, values).1)
            == values.subrange(values.len() - WINDOW_SIZE, values.len() as int),
        spec_push_all(buf, cursor, values).0[spec_push_all(buf, cursor, values).1]
            == values[values.len() - WINDOW_SIZE],
{
    let cut: int = values.len() - WINDOW_SIZE;
    let front = values.subrange(0, cut);
    let tail = values.subrange(cut, values.len() as int);
    assert(values =~= front + tail);
    lemma_push_all_concat(buf, cursor, front, tail);
    lemma_push_all_shape(buf, cursor, front);
    let mid = spec_push_all(buf, cursor, front);
    lemma_push_all_fill(mid.0, mid.1, tail);
    let full = spec_push_all(buf, cursor, values);
    assert(full == spec_push_all(mid.0, mid.1, tail));
    assert(full.1 == (mid.1 + WINDOW_SIZE) % (WINDOW_SIZE as int));
    assert(full.1 == mid.1);
    assert forall|i: int| 0 <= i < WINDOW_SIZE implies #[trigger] raw_at(full.0, full.1, i)
        == tail[i] by {
        assert(full.0[slot_of(mid.1, i)] == tail[i]);
    }
    assert forall|i: int| 0 <= i < WINDOW_SIZE implies window_of(full.0, full.1)[i]
        == tail[i] by {
        assert forall|j: int| 0 <= j <= i implies #[trigger] raw_at(full.0, full.1, j) != 0 by {
            assert(raw_at(full.0, full.1, j) == tail[j]);
            assert(tail[j] == values[cut + j]);
        }
        assert(!truncated_at(full.0, full.1, i));
    }
    assert(window_of(full.0, full.1) =~= tail);
    assert(full.0[full.1] == full.0[slot_of(full.1, 0)]);
    assert(raw_at(full.0, full.1, 0) == tail[0]);
}

/// Zero-sentinel: before the window has received `WINDOW_SIZE` pushes,
/// the slot at the write cursor is still unwritten, so the snapshot is
/// cut short at its very first position: every position of the logical
/// window reads zero. In particular every unwritten position reads zero
/// and no written value is returned ahead of an unwritten one.
pub proof fn lemma_zero_sentinel(values: Seq<u32>)
    requires
        values.len() < WINDOW_SIZE,
    ensures
        ({
            let fresh = Seq::new(WINDOW_SIZE as nat, |i: int| 0u32);
            let pushed = spec_push_all(fresh, 0, values);
            forall|i: int| 0 <= i < WINDOW_SIZE ==> window_of(pushed.0, pushed.1)[i] == 0
        }),
{
    let fresh = Seq::new(WINDOW_SIZE as nat, |i: int| 0u32);
    let pushed = spec_push_all(fresh, 0, values);
    lemma_push_all_fill(fresh, 0, values);
    assert(pushed.1 == (values.len() as int) % (WINDOW_SIZE as int));
    assert(pushed.1 == values.len() as int);
    assert forall|i: int| 0 <= i < values.len() implies #[trigger] slot_of(0, i)
        != values.len() as int by {
        assert(slot_of(0, i) == i);
    }
    assert(pushed.0[values.len() as int] == fresh[values.len() as int]);
    assert(raw_at(pushed.0, pushed.1, 0) == pushed.0[slot_of(pushed.1, 0)]);
    assert(slot_of(pushed.1, 0) == pushed.1);
    assert(raw_at(pushed.0, pushed.1, 0) == 0);
    assert forall|i: int| 0 <= i < WINDOW_SIZE implies window_of(pushed.0, pushed.1)[i] == 0 by {
        assert(truncated_at(pushed.0, pushed.1, i));
    }
}

} // verus!
