//! Audio thread telemetry for latency and jitter monitoring.
//!
//! Tick durations are kept in a fixed-size ring buffer; a summary gives the
//! average, the maximum of the current window, the 95th percentile and the
//! cumulative number of ticks that went over budget.
use std::time::Duration;
use vstd::prelude::*;
use vstd::relations::{sorted_by, total_ordering};

verus! {

/// Ring buffer size for tick duration samples.
pub const TICK_BUFFER_SIZE: usize = 256;

/// What `Duration::as_micros` returns for a duration.
pub uninterp spec fn duration_micros(d: Duration) -> u128;

/// Calls `Duration::as_micros`; the contract only names its result: it is a
/// function of the duration alone.
#[verifier::external_body]
fn duration_as_micros(d: &Duration) -> (r: u128)
    ensures
        r == duration_micros(*d),
{
    d.as_micros()
}

/// The order used for percentiles.
pub open spec fn u32_leq() -> spec_fn(u32, u32) -> bool {
    |a: u32, b: u32| a <= b
}

/// Sum of a sequence of samples, as a mathematical integer.
pub open spec fn sum_of(s: Seq<u32>) -> int
    decreases s.len(),
{
    if s.len() == 0 {
        0
    } else {
        sum_of(s.drop_last()) + s.last()
    }
}

/// Index into the sorted window that `take_summary` reports as the 95th percentile.
pub open spec fn p95_index(n: nat) -> int {
    let raw = n * 95 / 100;
    let at_least_one = if raw >= 1 { raw as int } else { 1 };
    if at_least_one - 1 < n - 1 { at_least_one - 1 } else { n - 1 }
}

/// The 95th percentile of a non-empty window of samples.
pub open spec fn p95_of(s: Seq<u32>) -> u32 {
    s.sort_by(u32_leq())[p95_index(s.len())]
}

/// Largest of a sequence of samples; 0 for none.
pub open spec fn seq_max(s: Seq<u32>) -> u32
    decreases s.len(),
{
    if s.len() == 0 {
        0
    } else if s.last() > seq_max(s.drop_last()) {
        s.last()
    } else {
        seq_max(s.drop_last())
    }
}

/// How many of the samples exceeded the budget given with them.
pub open spec fn over_budget(samples: Seq<u32>, budgets: Seq<u32>) -> nat
    decreases samples.len(),
{
    if samples.len() == 0 {
        0
    } else {
        over_budget(samples.drop_last(), budgets.drop_last()) + (if samples.last() > budgets.last() { 1nat } else { 0nat })
    }
}

/// The microsecond count recorded for a duration: saturated to `u32::MAX`.
pub open spec fn micros_saturated(us: u128) -> u32 {
    if us < u32::MAX as u128 { us as u32 } else { u32::MAX }
}

/// Audio thread telemetry for performance monitoring.
///
/// Collects tick duration metrics in a fixed-size ring buffer.
pub struct AudioTelemetry {
    /// Ring buffer of tick durations in microseconds
    tick_durations_us: [u32; 256],
    /// Current write index in the ring buffer
    tick_idx: usize,
    /// Maximum tick duration observed in current window
    max_tick_us: u32,
    /// Count of ticks that exceeded the target budget
    overrun_count: u64,
    /// Number of samples collected (saturates at TICK_BUFFER_SIZE)
    sample_count: usize,
    /// Every duration recorded so far, oldest first
    history: Ghost<Seq<u32>>,
    /// The budget each of those durations was recorded with
    budget_history: Ghost<Seq<u32>>,
    /// Position in `history` where the current summary window began
    summary_start: Ghost<nat>,
}

impl AudioTelemetry {
    /// The slots that a summary reads: the first `sample_count` entries of the buffer.
    pub closed spec fn window(&self) -> Seq<u32> {
        self.tick_durations_us@.subrange(0, self.sample_count as int)
    }

    /// The whole ring buffer.
    pub closed spec fn buffer(&self) -> Seq<u32> {
        self.tick_durations_us@
    }

    /// Next slot to be written.
    pub closed spec fn write_index(&self) -> int {
        self.tick_idx as int
    }

    /// Number of samples held (at most `TICK_BUFFER_SIZE`).
    pub closed spec fn count(&self) -> nat {
        self.sample_count as nat
    }

    /// Largest duration seen since the last summary.
    pub closed spec fn max_tick(&self) -> u32 {
        self.max_tick_us
    }

    /// Ticks over budget since creation.
    pub closed spec fn overruns(&self) -> u64 {
        self.overrun_count
    }

    /// Every duration recorded since creation, oldest first.
    pub closed spec fn recorded(&self) -> Seq<u32> {
        self.history@
    }

    /// The budget each recorded duration was recorded with, oldest first.
    pub closed spec fn budgets(&self) -> Seq<u32> {
        self.budget_history@
    }

    /// The durations recorded since the last summary, oldest first.
    pub closed spec fn since_summary(&self) -> Seq<u32> {
        self.history@.subrange(self.summary_start@ as int, self.history@.len() as int)
    }

    /// Internal consistency of the ring buffer with the recorded history.
    pub closed spec fn wf(&self) -> bool {
        let h = self.history@;
        &&& self.budget_history@.len() == h.len()
        &&& self.overrun_count == over_budget(h, self.budget_history@)
        &&& self.summary_start@ <= h.len()
        &&& self.max_tick_us == seq_max(h.subrange(self.summary_start@ as int, h.len() as int))
        &&& self.tick_durations_us@.len() == TICK_BUFFER_SIZE
        &&& self.sample_count <= TICK_BUFFER_SIZE
        &&& self.tick_idx < TICK_BUFFER_SIZE
        &&& self.sample_count == (if h.len() < TICK_BUFFER_SIZE { h.len() } else { TICK_BUFFER_SIZE as nat })
        &&& self.tick_idx == h.len() % (TICK_BUFFER_SIZE as nat)
        &&& forall|k: int|
            #![trigger h[k]]
            0 <= k < h.len() && h.len() - (TICK_BUFFER_SIZE as int) <= k ==>
                self.tick_durations_us@[k % (TICK_BUFFER_SIZE as int)] == h[k]
    }

    /// Create a new telemetry collector.
    pub fn new() -> (t: Self)
        ensures
            t.wf(),
            t.count() == 0,
            t.write_index() == 0,
            t.max_tick() == 0,
            t.overruns() == 0,
            t.recorded() == Seq::<u32>::empty(),
            t.budgets() == Seq::<u32>::empty(),
            t.since_summary() == Seq::<u32>::empty(),
            t.buffer() == Seq::new(TICK_BUFFER_SIZE as nat, |i: int| 0u32),
    {
        let t = AudioTelemetry {
            tick_durations_us: [0u32; 256],
            tick_idx: 0,
            max_tick_us: 0,
            overrun_count: 0,
            sample_count: 0,
            history: Ghost(Seq::empty()),
            budget_history: Ghost(Seq::empty()),
            summary_start: Ghost(0),
        };
        assert(t.history@.subrange(0, 0) =~= Seq::<u32>::empty());
        assert(t.tick_durations_us@ =~= Seq::new(TICK_BUFFER_SIZE as nat, |i: int| 0u32));
        t
    }

    /// Record a tick duration given in microseconds. Call this at the end of each
    /// audio thread tick.
    #[verifier::rlimit(30)]
    pub fn record_micros(&mut self, us: u32, budget_us: u32)
        requires
            old(self).wf(),
            us > budget_us ==> old(self).overruns() < u64::MAX,
        ensures
            final(self).wf(),
            final(self).buffer() == old(self).buffer().update(old(self).write_index(), us),
            final(self).write_index() == (old(self).write_index() + 1) % (TICK_BUFFER_SIZE as int),
            final(self).count() == (if old(self).count() < TICK_BUFFER_SIZE { old(self).count() + 1 } else { old(self).count() }),
            final(self).max_tick() == (if us > old(self).max_tick() { us } else { old(self).max_tick() }),
            final(self).overruns() == (if us > budget_us { old(self).overruns() + 1 } else { old(self).overruns() as int }),
            final(self).recorded() == old(self).recorded().push(us),
            final(self).budgets() == old(self).budgets().push(budget_us),
            final(self).since_summary() == old(self).since_summary().push(us),
    {
        let ghost h = self.history@;
        let ghost bh = self.budget_history@;
        let ghost start = self.summary_start@;
        let idx = self.tick_idx;
        self.tick_durations_us[idx] = us;
        self.tick_idx = (self.tick_idx + 1) % TICK_BUFFER_SIZE;

        if self.sample_count < TICK_BUFFER_SIZE {
            self.sample_count += 1;
        }

        if us > self.max_tick_us {
            self.max_tick_us = us;
        }

        if us > budget_us {
            self.overrun_count += 1;
        }
        self.history = Ghost(h.push(us));
        self.budget_history = Ghost(bh.push(budget_us));
        proof {
            lemma_tallies_push(h, bh, start, us, budget_us);
            let nh = h.push(us);
            let n = TICK_BUFFER_SIZE as int;
            assert(nh.len() % (n as nat) == (h.len() + 1) % (n as nat));
            assert forall|k: int|
                #![trigger nh[k]]
                0 <= k < nh.len() && nh.len() - n <= k implies
                    self.tick_durations_us@[k % n] == nh[k] by {
                if k == h.len() {
                    assert(k % n == idx);
                } else {
                    assert(h[k] == nh[k]);
                    assert(k % n != idx as int) by {
                        assert(idx as int == (h.len() as int) % n);
                        assert(h.len() - n < k < h.len());
                    }
                }
            }
        }
    }

    /// Record a tick duration. Call this at the end of each audio thread tick.
    ///
    /// * `duration` - Time taken for the tick
    /// * `budget_us` - Target budget in microseconds (e.g., 500 for 0.5ms ticks)
    pub fn record(&mut self, duration: Duration, budget_us: u32)
        requires
            old(self).wf(),
            micros_saturated(duration_micros(duration)) > budget_us ==> old(self).overruns() < u64::MAX,
        ensures
            final(self).wf(),
            ({
                let us = micros_saturated(duration_micros(duration));
                &&& final(self).buffer() == old(self).buffer().update(old(self).write_index(), us)
                &&& final(self).write_index() == (old(self).write_index() + 1) % (TICK_BUFFER_SIZE as int)
                &&& final(self).count() == (if old(self).count() < TICK_BUFFER_SIZE { old(self).count() + 1 } else { old(self).count() })
                &&& final(self).max_tick() == (if us > old(self).max_tick() { us } else { old(self).max_tick() })
                &&& final(self).overruns() == (if us > budget_us { old(self).overruns() + 1 } else { old(self).overruns() as int })
                &&& final(self).recorded() == old(self).recorded().push(us)
                &&& final(self).budgets() == old(self).budgets().push(budget_us)
                &&& final(self).since_summary() == old(self).since_summary().push(us)
            }),
    {
        let micros = duration_as_micros(&duration);
        let us: u32 = if micros < u32::MAX as u128 { micros as u32 } else { u32::MAX };
        self.record_micros(us, budget_us);
    }

    /// Get a summary of collected metrics and reset the max for the next window.
    ///
    /// Returns (avg_tick_us, max_tick_us, p95_tick_us, overruns).
    pub fn take_summary(&mut self) -> (r: (u32, u32, u32, u64))
        requires
            old(self).wf(),
        ensures
            final(self).wf(),
            final(self).buffer() == old(self).buffer(),
            final(self).write_index() == old(self).write_index(),
            final(self).count() == old(self).count(),
            final(self).overruns() == old(self).overruns(),
            final(self).recorded() == old(self).recorded(),
            final(self).budgets() == old(self).budgets(),
            old(self).count() == 0 ==> r == (0u32, 0u32, 0u32, 0u64) && final(self).max_tick() == old(self).max_tick()
                && final(self).since_summary() == old(self).since_summary(),
            old(self).count() > 0 ==> {
                &&& r.0 == sum_of(old(self).window()) / (old(self).count() as int)
                &&& r.1 == old(self).max_tick()
                &&& r.2 == p95_of(old(self).window())
                &&& r.3 == old(self).overruns()
                &&& final(self).max_tick() == 0
                &&& final(self).since_summary() == Seq::<u32>::empty()
            },
    {
        if self.sample_count == 0 {
            return (0, 0, 0, 0);
        }
        let n = self.sample_count;
        let ghost w = self.window();

        // Calculate average
        let mut sum: u64 = 0;
        let mut i: usize = 0;
        while i < n
            invariant
                self.wf(),
                n == self.sample_count,
                w == self.window(),
                i <= n,
                sum == sum_of(w.subrange(0, i as int)),
                sum <= i * 0xffff_ffffu64,
            decreases n - i,
        {
            assert(w.subrange(0, i + 1).drop_last() =~= w.subrange(0, i as int));
            sum = sum + self.tick_durations_us[i] as u64;
            i = i + 1;
        }
        assert(w.subrange(0, n as int) =~= w);
        assert(sum / (n as u64) <= 0xffff_ffffu64) by (nonlinear_arith)
            requires
                sum <= n * 0xffff_ffffu64,
                n > 0,
        ;
        let avg = (sum / n as u64) as u32;

        // Calculate p95 (95th percentile)
        let mut sorted = self.tick_durations_us;
        sort_prefix(&mut sorted, n);
        proof {
            lemma_u32_leq_total();
            w.lemma_sort_by_ensures(u32_leq());
            vstd::seq_lib::lemma_sorted_unique(sorted@.subrange(0, n as int), w.sort_by(u32_leq()), u32_leq());
        }
        let raw = n * 95 / 100;
        let p95_idx = (if raw >= 1 { raw } else { 1 }) - 1;
        let p95 = sorted[if p95_idx < n - 1 { p95_idx } else { n - 1 }];

        let max = self.max_tick_us;
        let overruns = self.overrun_count;

        // Reset max for next window (keep overrun count cumulative)
        self.max_tick_us = 0;
        self.summary_start = Ghost(self.history@.len());
        assert(self.history@.subrange(self.history@.len() as int, self.history@.len() as int) =~= Seq::<u32>::empty());

        (avg, max, p95, overruns)
    }
}

/// The summary window holds the latest samples: while fewer than
/// `TICK_BUFFER_SIZE` ticks were recorded it is exactly the recorded
/// durations in order; after that it is full and the `k`-th recorded
/// duration, for each of the latest `TICK_BUFFER_SIZE` ticks, sits in slot
/// `k % TICK_BUFFER_SIZE`.
pub proof fn law_window_holds_latest(t: AudioTelemetry)
    requires
        t.wf(),
    ensures
        t.window().len() == t.count(),
        t.count() <= TICK_BUFFER_SIZE,
        t.recorded().len() < TICK_BUFFER_SIZE ==> t.window() == t.recorded(),
        t.recorded().len() >= TICK_BUFFER_SIZE ==> t.window().len() == TICK_BUFFER_SIZE,
        forall|k: int| #![trigger t.recorded()[k]]
            0 <= k < t.recorded().len() && t.recorded().len() - (TICK_BUFFER_SIZE as int) <= k
                ==> t.window()[k % (TICK_BUFFER_SIZE as int)] == t.recorded()[k],
{
    let h = t.history@;
    let n = TICK_BUFFER_SIZE as int;
    if h.len() < n {
        assert forall|k: int| 0 <= k < h.len() implies t.window()[k] == h[k] by {
            vstd::arithmetic::div_mod::lemma_small_mod(k as nat, n as nat);
        }
        assert(t.window() =~= h);
    }
    assert forall|k: int| #![trigger h[k]]
        0 <= k < h.len() && h.len() - n <= k implies t.window()[k % n] == h[k] by {
        vstd::arithmetic::div_mod::lemma_mod_bound(k, n);
        if h.len() < n {
            vstd::arithmetic::div_mod::lemma_small_mod(k as nat, n as nat);
        }
    }
}

/// What a summary reports is a tally of what was recorded: the maximum is the
/// largest duration recorded since the last summary (0 if none), and the
/// overrun count is the number of recorded ticks, since the collector was
/// created, that went over the budget they were recorded with. While no more
/// than `TICK_BUFFER_SIZE` ticks were recorded, the average and the 95th
/// percentile are taken over all of them.
pub proof fn law_summary_tallies_recorded(t: AudioTelemetry)
    requires
        t.wf(),
    ensures
        t.max_tick() == seq_max(t.since_summary()),
        t.overruns() == over_budget(t.recorded(), t.budgets()),
        t.recorded().len() <= TICK_BUFFER_SIZE ==> t.window() == t.recorded(),
{
    let h = t.history@;
    let n = TICK_BUFFER_SIZE as int;
    if h.len() <= n {
        assert forall|k: int| 0 <= k < h.len() implies t.window()[k] == h[k] by {
            vstd::arithmetic::div_mod::lemma_small_mod(k as nat, n as nat);
            assert(h[k] == t.tick_durations_us@[k % n]);
        }
        assert(t.window() =~= h);
    }
}

/// A second summary with no tick recorded in between reports what the first
/// one did, except the maximum, which the first summary reset: the window and
/// its size are those of the first, so the average and the 95th percentile
/// are the same, and the overrun count stays cumulative.
pub proof fn law_second_summary(t: AudioTelemetry, t1: AudioTelemetry)
    requires
        t.wf(),
        t1.wf(),
        t.count() > 0,
        t1.buffer() == t.buffer(),
        t1.count() == t.count(),
        t1.overruns() == t.overruns(),
        t1.max_tick() == 0,
    ensures
        t1.window() == t.window(),
        sum_of(t1.window()) / (t1.count() as int) == sum_of(t.window()) / (t.count() as int),
        p95_of(t1.window()) == p95_of(t.window()),
        t1.overruns() == t.overruns(),
        t1.max_tick() == 0,
{
    assert(t1.window() =~= t.window());
}

/// Recording one more sample extends both tallies by that sample.
proof fn lemma_tallies_push(h: Seq<u32>, bh: Seq<u32>, start: nat, us: u32, budget: u32)
    requires
        start <= h.len(),
    ensures
        seq_max(h.push(us).subrange(start as int, h.len() as int + 1)) == (if us > seq_max(h.subrange(start as int, h.len() as int)) { us } else { seq_max(h.subrange(start as int, h.len() as int)) }),
        over_budget(h.push(us), bh.push(budget)) == over_budget(h, bh) + (if us > budget { 1nat } else { 0nat }),
        h.push(us).subrange(start as int, h.len() as int + 1) == h.subrange(start as int, h.len() as int).push(us),
{
    assert(h.push(us).drop_last() =~= h);
    assert(bh.push(budget).drop_last() =~= bh);
    assert(h.push(us).subrange(start as int, h.len() as int + 1) =~= h.subrange(start as int, h.len() as int).push(us));
    assert(h.subrange(start as int, h.len() as int).push(us).drop_last() =~= h.subrange(start as int, h.len() as int));
}

/// `u32_leq` is a total order.
pub proof fn lemma_u32_leq_total()
    ensures
        total_ordering(u32_leq()),
{
    let r = u32_leq();
    assert(vstd::relations::reflexive(r));
    assert(vstd::relations::antisymmetric(r));
    assert(vstd::relations::transitive(r));
    assert(vstd::relations::strongly_connected(r));
}

/// Swapping two neighbouring elements keeps the multiset of a sequence.
proof fn lemma_swap_multiset(s: Seq<u32>, i: int)
    requires
        0 <= i,
        i + 1 < s.len(),
    ensures
        s.update(i, s[i + 1]).update(i + 1, s[i]).to_multiset() =~= s.to_multiset(),
{
    broadcast use vstd::seq_lib::group_to_multiset_ensures;
    broadcast use vstd::multiset::group_multiset_axioms;
    let a = s.subrange(0, i);
    let b = s.subrange(i + 2, s.len() as int);
    let x = s[i];
    let y = s[i + 1];
    let xy = Seq::<u32>::empty().push(x).push(y);
    let yx = Seq::<u32>::empty().push(y).push(x);
    assert(s =~= a + xy + b);
    let t = s.update(i, y).update(i + 1, x);
    assert(t =~= a + yx + b);
    vstd::seq_lib::lemma_multiset_commutative(a + xy, b);
    vstd::seq_lib::lemma_multiset_commutative(a, xy);
    vstd::seq_lib::lemma_multiset_commutative(a + yx, b);
    vstd::seq_lib::lemma_multiset_commutative(a, yx);
    assert(Seq::<u32>::empty().to_multiset() =~= vstd::multiset::Multiset::<u32>::empty());
    assert(xy.to_multiset() =~= yx.to_multiset());
}

/// Sort the first `n` slots of the buffer in place (insertion sort); the other
/// slots are left untouched.
fn sort_prefix(a: &mut [u32; 256], n: usize)
    requires
        n <= 256,
    ensures
        sorted_by(final(a)@.subrange(0, n as int), u32_leq()),
        final(a)@.subrange(0, n as int).to_multiset() == old(a)@.subrange(0, n as int).to_multiset(),
        final(a)@.subrange(n as int, 256) == old(a)@.subrange(n as int, 256),
{
    let ghost orig = a@;
    let mut i: usize = 1;
    if n == 0 {
        return;
    }
    while i < n
        invariant
            1 <= i <= n <= 256,
            a@.len() == 256,
            forall|p: int, q: int| 0 <= p < q < i ==> a@[p] <= a@[q],
            a@.subrange(0, n as int).to_multiset() == orig.subrange(0, n as int).to_multiset(),
            a@.subrange(n as int, 256) == orig.subrange(n as int, 256),
        decreases n - i,
    {
        let mut j: usize = i;
        while j > 0 && a[j - 1] > a[j]
            invariant
                1 <= i < n <= 256,
                j <= i,
                a@.len() == 256,
                forall|p: int, q: int| 0 <= p < q <= i && p != j && q != j ==> a@[p] <= a@[q],
                forall|q: int| j < q <= i ==> a@[j as int] <= a@[q],
                a@.subrange(0, n as int).to_multiset() == orig.subrange(0, n as int).to_multiset(),
                a@.subrange(n as int, 256) == orig.subrange(n as int, 256),
            decreases j,
        {
            let ghost before = a@;
            let x = a[j - 1];
            let y = a[j];
            a[j - 1] = y;
            a[j] = x;
            proof {
                let pre = before.subrange(0, n as int);
                lemma_swap_multiset(pre, j - 1);
                assert(a@.subrange(0, n as int) =~= pre.update(j - 1, pre[j as int]).update(j as int, pre[j - 1]));
                assert(a@.subrange(n as int, 256) =~= before.subrange(n as int, 256));
            }
            j = j - 1;
        }
        i = i + 1;
    }
}

} // verus!
