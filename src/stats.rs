//! Byte and drop counters, and the time-windowed history of snapshots from
//! which throughput is estimated.

use std::collections::VecDeque;
use vstd::prelude::*;

verus! {

/// Length of the rolling window of the history, in milliseconds.
pub const WINDOW_MS: u64 = 10_000;

/// One snapshot of the cumulative counters, taken at `time_ms`.
#[derive(Clone, Copy)]
pub struct Sample {
    pub time_ms: u64,
    pub rx_bytes: u64,
    pub tx_bytes: u64,
}

/// Which egress backend a transmission went through.
#[derive(Clone, Copy, PartialEq, Eq, Structural)]
pub enum EgressKind {
    VirtualInterface,
    PhysicalHandle,
}

/// The three outcomes of handing a frame to an egress backend.
#[derive(Clone, Copy, PartialEq, Eq, Structural)]
pub enum SendOutcome {
    Sent,
    Failed,
    NoResult,
}

/// Sums over the consecutive pairs of the history whose time advances.
#[derive(Clone, Copy)]
pub struct WindowTotals {
    pub rx_bytes: u128,
    pub tx_bytes: u128,
    pub elapsed_ms: u128,
}

/// `a + b`, held at `u64::MAX`.
pub open spec fn sat_add(a: u64, b: u64) -> u64 {
    if a as int + b as int > u64::MAX as int {
        u64::MAX
    } else {
        (a + b) as u64
    }
}

/// `b - a`, floored at zero.
pub open spec fn gain(a: u64, b: u64) -> int {
    if b > a {
        b - a
    } else {
        0
    }
}

/// Timestamps never decrease from the front of the history to its back.
pub open spec fn time_ordered(h: Seq<Sample>) -> bool {
    forall|i: int, j: int| 0 <= i <= j < h.len() ==> h[i].time_ms <= h[j].time_ms
}

/// Drops from the front every sample older than `window` at `now`, stopping
/// at the first one within it.
pub open spec fn prune(h: Seq<Sample>, now: u64, window: u64) -> Seq<Sample>
    decreases h.len(),
{
    if h.len() > 0 && now as int - h[0].time_ms as int > window as int {
        prune(h.drop_first(), now, window)
    } else {
        h
    }
}

/// The contribution of the pair `h[i - 1]`, `h[i]`: received bytes (`k == 0`),
/// transmitted bytes (`k == 1`) or elapsed milliseconds (`k == 2`). A pair
/// whose time does not advance contributes nothing.
pub open spec fn pair_term(h: Seq<Sample>, i: int, k: int) -> int {
    let a = h[i - 1];
    let b = h[i];
    if b.time_ms <= a.time_ms {
        0
    } else if k == 0 {
        gain(a.rx_bytes, b.rx_bytes)
    } else if k == 1 {
        gain(a.tx_bytes, b.tx_bytes)
    } else {
        b.time_ms - a.time_ms
    }
}

/// The sum of `pair_term` over the pairs among the first `n` samples.
pub open spec fn window_sum(h: Seq<Sample>, n: int, k: int) -> int
    decreases n,
{
    if n <= 1 {
        0
    } else {
        window_sum(h, n - 1, k) + pair_term(h, n - 1, k)
    }
}

/// The window totals of a history, or `None` when it holds fewer than two
/// samples or no time elapses between them.
pub open spec fn window_totals_spec(h: Seq<Sample>) -> Option<(int, int, int)> {
    if h.len() < 2 || window_sum(h, h.len() as int, 2) == 0 {
        None
    } else {
        Some(
            (
                window_sum(h, h.len() as int, 0),
                window_sum(h, h.len() as int, 1),
                window_sum(h, h.len() as int, 2),
            ),
        )
    }
}

proof fn lemma_window_sum_bounds(h: Seq<Sample>, n: int, k: int)
    requires
        n <= h.len(),
    ensures
        0 <= window_sum(h, n, k),
        n >= 1 ==> window_sum(h, n, k) <= (n - 1) * (u64::MAX as int),
    decreases n,
{
    if n > 1 {
        lemma_window_sum_bounds(h, n - 1, k);
    }
}

proof fn lemma_prune_suffix(h: Seq<Sample>, now: u64, window: u64)
    ensures
        exists|k: int|
            0 <= k <= h.len() && #[trigger] prune(h, now, window) == h.subrange(k, h.len() as int),
        prune(h, now, window).len() > 0 ==> now as int - prune(h, now, window)[0].time_ms as int
            <= window as int,
    decreases h.len(),
{
    if h.len() > 0 && now as int - h[0].time_ms as int > window as int {
        lemma_prune_suffix(h.drop_first(), now, window);
        let k = choose|k: int|
            0 <= k <= h.drop_first().len() && #[trigger] prune(h.drop_first(), now, window)
                == h.drop_first().subrange(k, h.drop_first().len() as int);
        assert(prune(h, now, window) == h.subrange(k + 1, h.len() as int));
    } else {
        assert(prune(h, now, window) == h.subrange(0, h.len() as int));
    }
}

/// Right after an update at `now`, no sample in the history is older than
/// the window.
pub proof fn lemma_update_within_window(h: Seq<Sample>, now: u64, rx_bytes: u64, tx_bytes: u64)
    requires
        time_ordered(h),
        h.len() > 0 ==> h.last().time_ms <= now,
    ensures
        forall|i: int|
            0 <= i < prune(h, now, WINDOW_MS).len() + 1 ==> now as int - (#[trigger] prune(
                h,
                now,
                WINDOW_MS,
            ).push(Sample { time_ms: now, rx_bytes, tx_bytes })[i]).time_ms as int
                <= WINDOW_MS as int,
{
    lemma_prune_suffix(h, now, WINDOW_MS);
    let p = prune(h, now, WINDOW_MS);
    let k = choose|k: int|
        0 <= k <= h.len() && #[trigger] prune(h, now, WINDOW_MS) == h.subrange(k, h.len() as int);
    assert forall|i: int| 0 <= i < p.len() + 1 implies now as int - (#[trigger] p.push(
        Sample { time_ms: now, rx_bytes, tx_bytes },
    )[i]).time_ms as int <= WINDOW_MS as int by {
        if i < p.len() {
            assert(p[0] == h[k]);
            assert(p[i] == h[k + i]);
        }
    }
}

/// The counters of a gateway and the history of their snapshots.
pub struct Stats {
    history: VecDeque<Sample>,
    rx_bytes: u64,
    tx_bytes: u64,
    drop_count: u64,
}

impl Stats {
    pub closed spec fn history(&self) -> Seq<Sample> {
        self.history@
    }

    pub closed spec fn rx(&self) -> u64 {
        self.rx_bytes
    }

    pub closed spec fn tx(&self) -> u64 {
        self.tx_bytes
    }

    pub closed spec fn drops(&self) -> u64 {
        self.drop_count
    }

    /// The history is in time order.
    pub open spec fn wf(&self) -> bool {
        time_ordered(self.history())
    }

    pub fn new() -> (r: Stats)
        ensures
            r.wf(),
            r.history().len() == 0,
            r.rx() == 0,
            r.tx() == 0,
            r.drops() == 0,
    {
        Stats { history: VecDeque::new(), rx_bytes: 0, tx_bytes: 0, drop_count: 0 }
    }

    /// Counts received bytes; the counter is held at its maximum.
    pub fn add_rx_bytes(&mut self, bytes: u64)
        ensures
            final(self).rx() == sat_add(old(self).rx(), bytes),
            final(self).tx() == old(self).tx(),
            final(self).drops() == old(self).drops(),
            final(self).history() == old(self).history(),
    {
        self.rx_bytes = self.rx_bytes.saturating_add(bytes);
    }

    /// Counts transmitted bytes; the counter is held at its maximum.
    pub fn add_tx_bytes(&mut self, bytes: u64)
        ensures
            final(self).tx() == sat_add(old(self).tx(), bytes),
            final(self).rx() == old(self).rx(),
            final(self).drops() == old(self).drops(),
            final(self).history() == old(self).history(),
    {
        self.tx_bytes = self.tx_bytes.saturating_add(bytes);
    }

    /// Counts one dropped frame; the counter is held at its maximum.
    pub fn add_drop(&mut self)
        ensures
            final(self).drops() == sat_add(old(self).drops(), 1),
            final(self).rx() == old(self).rx(),
            final(self).tx() == old(self).tx(),
            final(self).history() == old(self).history(),
    {
        self.drop_count = self.drop_count.saturating_add(1);
    }

    pub fn get_total_rx(&self) -> (r: u64)
        ensures
            r == self.rx(),
    {
        self.rx_bytes
    }

    pub fn get_total_tx(&self) -> (r: u64)
        ensures
            r == self.tx(),
    {
        self.tx_bytes
    }

    pub fn get_drop_count(&self) -> (r: u64)
        ensures
            r == self.drops(),
    {
        self.drop_count
    }

    /// The time of the newest sample, if any.
    pub fn latest_time_ms(&self) -> (r: Option<u64>)
        ensures
            self.history().len() == 0 ==> r.is_none(),
            self.history().len() > 0 ==> r == Some(self.history().last().time_ms),
    {
        let n = self.history.len();
        if n == 0 {
            None
        } else {
            Some(self.history[n - 1].time_ms)
        }
    }

    /// Accounts for the outcome of one transmission of `len` bytes. A sent
    /// frame counts as transmitted; a failure counts as a drop on the
    /// physical handle and is not counted on the virtual interface.
    pub fn record_send(&mut self, egress: EgressKind, outcome: SendOutcome, len: u64)
        ensures
            final(self).history() == old(self).history(),
            final(self).rx() == old(self).rx(),
            outcome == SendOutcome::Sent ==> final(self).tx() == sat_add(old(self).tx(), len)
                && final(self).drops() == old(self).drops(),
            outcome != SendOutcome::Sent ==> final(self).tx() == old(self).tx(),
            outcome != SendOutcome::Sent && egress == EgressKind::PhysicalHandle
                ==> final(self).drops() == sat_add(old(self).drops(), 1),
            outcome != SendOutcome::Sent && egress == EgressKind::VirtualInterface
                ==> final(self).drops() == old(self).drops(),
    {
        match outcome {
            SendOutcome::Sent => self.add_tx_bytes(len),
            _ => match egress {
                EgressKind::PhysicalHandle => self.add_drop(),
                EgressKind::VirtualInterface => {},
            },
        }
    }

    /// Appends the snapshot `(now_ms, rx_bytes, tx_bytes)` to the history,
    /// after pruning from the front the samples older than the window.
    pub fn update(&mut self, now_ms: u64, rx_bytes: u64, tx_bytes: u64)
        requires
            old(self).wf(),
            old(self).history().len() > 0 ==> old(self).history().last().time_ms <= now_ms,
        ensures
            final(self).wf(),
            final(self).history() == prune(old(self).history(), now_ms, WINDOW_MS).push(
                Sample { time_ms: now_ms, rx_bytes, tx_bytes },
            ),
            final(self).rx() == old(self).rx(),
            final(self).tx() == old(self).tx(),
            final(self).drops() == old(self).drops(),
    {
        proof {
            lemma_prune_suffix(self.history@, now_ms, WINDOW_MS);
        }
        while self.history.len() > 0
            invariant
                prune(self.history@, now_ms, WINDOW_MS) == prune(
                    old(self).history@,
                    now_ms,
                    WINDOW_MS,
                ),
                time_ordered(self.history@),
                self.history@.len() > 0 ==> self.history@.last().time_ms <= now_ms,
                self.rx_bytes == old(self).rx_bytes,
                self.tx_bytes == old(self).tx_bytes,
                self.drop_count == old(self).drop_count,
            ensures
                prune(self.history@, now_ms, WINDOW_MS) == self.history@,
                time_ordered(self.history@),
                self.history@.len() > 0 ==> self.history@.last().time_ms <= now_ms,
                self.rx_bytes == old(self).rx_bytes,
                self.tx_bytes == old(self).tx_bytes,
                self.drop_count == old(self).drop_count,
            decreases self.history@.len(),
        {
            let front_time = self.history[0].time_ms;
            if now_ms - front_time > WINDOW_MS {
                let ghost before = self.history@;
                self.history.pop_front();
                assert(self.history@ == before.drop_first());
            } else {
                break;
            }
        }
        let ghost pruned = self.history@;
        assert(pruned == prune(old(self).history@, now_ms, WINDOW_MS));
        self.history.push_back(Sample { time_ms: now_ms, rx_bytes, tx_bytes });
        assert(time_ordered(self.history@)) by {
            assert forall|i: int, j: int| 0 <= i <= j < self.history@.len() implies
                self.history@[i].time_ms <= self.history@[j].time_ms by {
                if j == pruned.len() && i < j {
                    assert(pruned[i].time_ms <= pruned.last().time_ms);
                }
            }
        }
    }

    /// The sums over the history of the byte gains and the elapsed time,
    /// or `None` when fewer than two samples are held or no time elapses.
    pub fn window_totals(&self) -> (r: Option<WindowTotals>)
        ensures
            match window_totals_spec(self.history()) {
                None => r.is_none(),
                Some((rx, tx, dt)) => r.is_some() && r.unwrap().rx_bytes == rx
                    && r.unwrap().tx_bytes == tx && r.unwrap().elapsed_ms == dt,
            },
    {
        let n = self.history.len();
        if n < 2 {
            return None;
        }
        let ghost h = self.history@;
        let mut rx: u128 = 0;
        let mut tx: u128 = 0;
        let mut dt: u128 = 0;
        let mut i: usize = 1;
        while i < n
            invariant
                h == self.history@,
                n == h.len(),
                1 <= i <= n,
                rx == window_sum(h, i as int, 0),
                tx == window_sum(h, i as int, 1),
                dt == window_sum(h, i as int, 2),
            decreases n - i,
        {
            proof {
                lemma_window_sum_bounds(h, i + 1, 0);
                lemma_window_sum_bounds(h, i + 1, 1);
                lemma_window_sum_bounds(h, i + 1, 2);
                assert((i as int) * (u64::MAX as int) <= (usize::MAX as int) * (u64::MAX as int))
                    by (nonlinear_arith)
                    requires
                        i <= usize::MAX,
                ;
            }
            let older = self.history[i - 1];
            let newer = self.history[i];
            if newer.time_ms > older.time_ms {
                if newer.rx_bytes > older.rx_bytes {
                    rx = rx + (newer.rx_bytes - older.rx_bytes) as u128;
                }
                if newer.tx_bytes > older.tx_bytes {
                    tx = tx + (newer.tx_bytes - older.tx_bytes) as u128;
                }
                dt = dt + (newer.time_ms - older.time_ms) as u128;
            }
            i += 1;
        }
        if dt == 0 {
            None
        } else {
            Some(WindowTotals { rx_bytes: rx, tx_bytes: tx, elapsed_ms: dt })
        }
    }
}

} // verus!
