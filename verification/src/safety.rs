//! Hardware-independent safety helpers for the real-time output stage: the
//! stall detector that flags a frozen sensor frame counter (a blind-feedback
//! guard).

use vstd::prelude::*;

verus! {

/// Detects a stalled monotonic frame counter: a sensor task that has stopped
/// publishing new frames (link lost, sensor unpowered) leaves feedback blind.
/// [`observe`](Self::observe) is called once per real-time tick with the
/// latest counter value and returns whether the source is now considered
/// stale.
#[derive(Clone, Copy, Debug)]
pub struct StaleCounter {
    last: u32,
    ticks_since_change: u32,
    limit: u32,
}

impl StaleCounter {
    /// The counter value seen most recently.
    pub closed spec fn spec_last(self) -> u32 {
        self.last
    }

    /// Consecutive ticks (saturating) since the counter last changed.
    pub closed spec fn spec_unchanged(self) -> u32 {
        self.ticks_since_change
    }

    /// Unchanged ticks tolerated before the source is stale.
    pub closed spec fn spec_limit(self) -> u32 {
        self.limit
    }

    /// `limit` is the number of consecutive unchanged ticks tolerated before
    /// the source is flagged stale.
    pub fn new(limit: u32) -> (s: Self)
        ensures
            s.spec_last() == 0,
            s.spec_unchanged() == 0,
            s.spec_limit() == limit,
    {
        StaleCounter { last: 0, ticks_since_change: 0, limit }
    }

    /// Observe the current counter value; returns `true` if the source is
    /// now stale. A source that never advances from its initial value is
    /// flagged once `limit` unchanged ticks have elapsed.
    pub fn observe(&mut self, current: u32) -> (stale: bool)
        ensures
            final(self).spec_limit() == old(self).spec_limit(),
            final(self).spec_last() == current,
            current != old(self).spec_last() ==> final(self).spec_unchanged() == 0,
            current == old(self).spec_last() ==> final(self).spec_unchanged() == if old(
                self,
            ).spec_unchanged() == u32::MAX {
                u32::MAX as int
            } else {
                old(self).spec_unchanged() + 1
            },
            stale == (final(self).spec_unchanged() > old(self).spec_limit()),
    {
        if current != self.last {
            self.last = current;
            self.ticks_since_change = 0;
        } else {
            self.ticks_since_change = self.ticks_since_change.saturating_add(1);
        }
        self.ticks_since_change > self.limit
    }
}

/// Unchanged ticks after observing `values` from a counter whose last value
/// is `last` and which has seen `unchanged` unchanged ticks.
pub open spec fn unchanged_after(last: u32, unchanged: u32, values: Seq<u32>) -> u32
    decreases values.len(),
{
    if values.len() == 0 {
        unchanged
    } else {
        let before = unchanged_after(last, unchanged, values.drop_last());
        let previous = if values.len() == 1 {
            last
        } else {
            values[values.len() - 2]
        };
        if values.last() != previous {
            0
        } else if before == u32::MAX {
            u32::MAX
        } else {
            (before + 1) as u32
        }
    }
}

/// A frozen source is flagged exactly when it has repeated its last value
/// for more than `limit` ticks: observing the same value `n` times in a row
/// from a fresh detector leaves `n` unchanged ticks, so the detector
/// reports stale on the observation after the limit-th repeat and never
/// before.
pub proof fn lemma_frozen_source_count(last: u32, n: nat)
    requires
        n <= u32::MAX,
    ensures
        unchanged_after(last, 0, Seq::new(n, |i: int| last)) == n,
    decreases n,
{
    if n > 0 {
        let values = Seq::new(n, |i: int| last);
        assert(values.drop_last() =~= Seq::new((n - 1) as nat, |i: int| last));
        lemma_frozen_source_count(last, (n - 1) as nat);
    }
}

/// A source whose counter changes on every tick never accumulates unchanged
/// ticks.
pub proof fn lemma_advancing_source_never_stale(last: u32, unchanged: u32, values: Seq<u32>)
    requires
        values.len() > 0,
        values[0] != last,
        forall|i: int| 0 < i < values.len() ==> #[trigger] values[i] != values[i - 1],
    ensures
        unchanged_after(last, unchanged, values) == 0,
{
    if values.len() > 1 {
        assert(values.last() != values[values.len() - 2]);
    }
}

/// Length of the run of values equal to the last one at the end of
/// `values`.
pub open spec fn final_run(values: Seq<u32>) -> nat
    decreases values.len(),
{
    if values.len() == 0 {
        0
    } else if values.len() == 1 {
        1
    } else if values.last() == values[values.len() - 2] {
        final_run(values.drop_last()) + 1
    } else {
        1
    }
}

/// `n`, saturating at `u32::MAX`.
pub open spec fn saturated(n: int) -> u32 {
    if n >= u32::MAX {
        u32::MAX
    } else {
        n as u32
    }
}

/// Unchanged ticks of a fresh detector (last value 0) after observing
/// `values`: the final run of equal values less its first, or the whole
/// run when the counter never left its initial 0.
pub open spec fn unchanged_from_fresh(values: Seq<u32>) -> u32 {
    if final_run(values) == values.len() && values.last() == 0 {
        saturated(values.len() as int)
    } else {
        saturated(final_run(values) - 1)
    }
}

/// Stale detection over a call history: after `StaleCounter::new(limit)`
/// and `observe(c_1) .. observe(c_n)`, the unchanged-tick count is the
/// length of the final run of equal values less one (all `n` when every
/// value is the initial 0), saturating, and the last call reports stale
/// exactly when that count exceeds `limit`.
pub proof fn lemma_stale_after_history(values: Seq<u32>)
    requires
        values.len() >= 1,
    ensures
        unchanged_after(0, 0, values) == unchanged_from_fresh(values),
    decreases values.len(),
{
    let n = values.len();
    let d = values.drop_last();
    if n == 1 {
        assert(d.len() == 0);
        assert(unchanged_after(0, 0, d) == 0);
    } else {
        lemma_stale_after_history(d);
        lemma_final_run_positive(d);
        assert(d.last() == values[n - 2]);
        let before = unchanged_after(0, 0, d);
        if values.last() == values[n - 2] {
            assert(final_run(values) == final_run(d) + 1);
            assert(unchanged_after(0, 0, values) == if before == u32::MAX {
                u32::MAX
            } else {
                (before + 1) as u32
            });
        } else {
            assert(final_run(values) == 1);
            assert(unchanged_after(0, 0, values) == 0);
        }
    }
}

proof fn lemma_final_run_positive(values: Seq<u32>)
    requires
        values.len() >= 1,
    ensures
        1 <= final_run(values) <= values.len(),
    decreases values.len(),
{
    if values.len() > 1 {
        lemma_final_run_positive(values.drop_last());
    }
}

} // verus!
