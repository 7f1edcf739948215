//! Deadline-based round-robin scheduler of the network partition.
//!
//! Its windows live in `SLOTS` fixed slots; a window is due once its next
//! instant has come.

use crate::scheduler::lemma_cyclic_index;
use crate::time::Duration;
use crate::types::VirtualLinkId;
use vstd::prelude::*;

verus! {

broadcast use crate::time::lemma_duration_view_injective;

/// A scheduler for virtual links.
pub trait Scheduler {
    /// The scheduler can be asked at `current_time`.
    spec fn can_schedule(&self, current_time: Duration) -> bool;

    /// Gets the next virtual link that is allowed to transmit one message to
    /// the network, or `None` if no link is allowed to transmit a frame at
    /// the moment.
    fn next(&mut self, current_time: Duration) -> (r: Option<VirtualLinkId>)
        requires
            old(self).can_schedule(current_time),
    ;
}

/// The deadline of a window in which a virtual link is to be scheduled next.
#[derive(Debug, Copy, Clone)]
pub struct Window {
    /// Virtual link this window belongs to.
    pub vl: VirtualLinkId,
    /// Period to schedule the window at.
    pub period: Duration,
    /// The next instant at which this window should be scheduled.
    pub next: Duration,
}

impl Window {
    /// The window is due at `current_time`: its next instant has come.
    pub fn is_due(&self, current_time: Duration) -> (b: bool)
        ensures
            b <==> self.next@ <= current_time@,
    {
        self.next.le(&current_time)
    }
}

/// The next instant of a window scheduled at `now`: one period later, or
/// `now` itself where that sum does not fit in a `Duration`.
pub open spec fn next_instant(now: nat, period: nat) -> nat {
    if now + period <= crate::time::MAX_NANOS {
        now + period
    } else {
        now
    }
}

/// A scheduler that uses simple round-robin scheduling together with
/// deadlines for every virtual link.
#[derive(Debug, Clone)]
pub struct DeadlineRrScheduler<const SLOTS: usize> {
    /// The slot that was scheduled last.
    pub last_window: usize,
    /// The windows inside of the round-robin schedule.
    pub windows: Vec<Window>,
}

impl<const SLOTS: usize> DeadlineRrScheduler<SLOTS> {
    /// At most `SLOTS` windows, and the last scheduled slot is a slot.
    pub open spec fn wf(&self) -> bool {
        &&& self.windows.len() <= SLOTS
        &&& SLOTS == 0 || self.last_window < SLOTS
    }

    /// The slot visited in the `k`-th step of a round that starts after the
    /// last scheduled slot.
    pub open spec fn candidate(&self, k: int) -> int {
        (self.last_window + k) % (SLOTS as int)
    }

    /// The first step, from `k` on, that visits a slot without a window or
    /// a due window, or `SLOTS + 1` where there is none.
    pub open spec fn first_stop_from(&self, now: nat, k: int) -> int
        decreases SLOTS + 1 - k,
    {
        if k > SLOTS || k < 1 {
            SLOTS + 1
        } else if self.candidate(k) >= self.windows.len() || self.windows@[self.candidate(
            k,
        )].next@ <= now {
            k
        } else {
            self.first_stop_from(now, k + 1)
        }
    }

    /// The first step of a round that stops.
    pub open spec fn first_stop(&self, now: nat) -> int {
        self.first_stop_from(now, 1)
    }

    /// A round at `now` reaches only slots that hold a window.
    pub open spec fn round_in_bounds(&self, now: nat) -> bool {
        let k = self.first_stop(now);
        k > SLOTS || self.candidate(k) < self.windows.len()
    }

    /// Creates a new scheduler without windows.
    pub fn new() -> (s: Self)
        ensures
            s.wf(),
            s.last_window == 0,
            s.windows@ == Seq::<Window>::empty(),
    {
        DeadlineRrScheduler { last_window: 0, windows: Vec::new() }
    }

    /// Adds a window for `vl` that is due one `period` after the beginning of
    /// time. Fails where all `SLOTS` slots are taken.
    pub fn insert(&mut self, vl: VirtualLinkId, period: Duration) -> (r: Result<(), ()>)
        requires
            old(self).wf(),
        ensures
            final(self).wf(),
            final(self).last_window == old(self).last_window,
            old(self).windows.len() < SLOTS ==> r is Ok && final(self).windows@ == old(
                self,
            ).windows@.push(Window { vl, period, next: period }),
            old(self).windows.len() >= SLOTS ==> r is Err && final(self).windows@ == old(
                self,
            ).windows@,
    {
        if self.windows.len() >= SLOTS {
            return Err(());
        }
        self.windows.push(Window { vl, period, next: period });
        Ok(())
    }

    /// Clears the schedule.
    pub fn clear(&mut self)
        requires
            old(self).wf(),
        ensures
            final(self).wf(),
            final(self).last_window == old(self).last_window,
            final(self).windows@ == Seq::<Window>::empty(),
    {
        self.windows.clear();
    }

    /// Tells whether a round at `current_time` reaches only slots that hold
    /// a window, as `next` asks.
    pub fn round_stays_in_bounds(&self, current_time: Duration) -> (b: bool)
        requires
            self.wf(),
        ensures
            b == self.round_in_bounds(current_time@),
    {
        let mut j: usize = 0;
        while j < SLOTS
            invariant
                self.wf(),
                0 <= j <= SLOTS,
                self.first_stop(current_time@) == self.first_stop_from(current_time@, j + 1),
            decreases SLOTS - j,
        {
            let i = j + 1;
            let step = i % SLOTS;
            let last = self.last_window;
            let next_window = if step >= SLOTS - last {
                step - (SLOTS - last)
            } else {
                last + step
            };
            proof {
                lemma_cyclic_index(last as int, i as int, SLOTS as int);
                lemma_first_stop_from_ge(*self, current_time@, i + 1);
            }
            if next_window >= self.windows.len() {
                return false;
            }
            if self.windows[next_window].is_due(current_time) {
                return true;
            }
            j = j + 1;
        }
        true
    }

    /// Schedules the virtual link of the first window of a round over the
    /// slots that is due at `current_time`.
    ///
    /// The round starts after the slot scheduled last. The chosen slot
    /// becomes the last scheduled one and its window is next due one period
    /// after `current_time`. Where no window is due, nothing changes and
    /// `None` is returned.
    pub fn next(&mut self, current_time: Duration) -> (r: Option<VirtualLinkId>)
        requires
            old(self).wf(),
            old(self).round_in_bounds(current_time@),
        ensures
            final(self).wf(),
            ({
                let k = old(self).first_stop(current_time@);
                if k > SLOTS {
                    r is None && *final(self) == *old(self)
                } else {
                    let idx = old(self).candidate(k);
                    let w = old(self).windows@[idx];
                    &&& r == Some(w.vl)
                    &&& final(self).last_window == idx
                    &&& final(self).windows.len() == old(self).windows.len()
                    &&& final(self).windows@[idx].vl == w.vl
                    &&& final(self).windows@[idx].period == w.period
                    &&& final(self).windows@[idx].next@ == next_instant(
                        current_time@,
                        w.period@,
                    )
                    &&& forall|j: int|
                        0 <= j < old(self).windows.len() && j != idx
                            ==> #[trigger] final(self).windows@[j] == old(self).windows@[j]
                }
            }),
    {
        let ghost start = *self;
        let mut j: usize = 0;
        while j < SLOTS
            invariant
                *self == start,
                start == *old(self),
                start.wf(),
                start.round_in_bounds(current_time@),
                0 <= j <= SLOTS,
                start.first_stop(current_time@) == start.first_stop_from(current_time@, j + 1),
            decreases SLOTS - j,
        {
            let i = j + 1;
            let step = i % SLOTS;
            let last = self.last_window;
            let next_window = if step >= SLOTS - last {
                step - (SLOTS - last)
            } else {
                last + step
            };
            proof {
                lemma_cyclic_index(last as int, i as int, SLOTS as int);
                lemma_first_stop_from_ge(start, current_time@, i + 1);
            }
            let window = self.windows[next_window];
            if window.is_due(current_time) {
                self.last_window = next_window;
                let next = match current_time.checked_add(&window.period) {
                    Some(t) => t,
                    None => current_time,
                };
                self.windows.set(next_window, Window { vl: window.vl, period: window.period, next });
                return Some(window.vl);
            }
            j = j + 1;
        }
        None
    }
}

/// The first stop from `k` on is not before `k`.
proof fn lemma_first_stop_from_ge<const SLOTS: usize>(
    s: DeadlineRrScheduler<SLOTS>,
    now: nat,
    k: int,
)
    requires
        1 <= k <= SLOTS + 1,
    ensures
        s.first_stop_from(now, k) >= k,
    decreases SLOTS + 1 - k,
{
    if k <= SLOTS && !(s.candidate(k) >= s.windows.len() || s.windows@[s.candidate(k)].next@
        <= now) {
        lemma_first_stop_from_ge(s, now, k + 1);
    }
}

/// Where a round stops at a step from `k` on, the slot of that step holds
/// no window or a due one.
proof fn lemma_first_stop_from_stops<const SLOTS: usize>(
    s: DeadlineRrScheduler<SLOTS>,
    now: nat,
    k: int,
)
    requires
        1 <= k,
    ensures
        s.first_stop_from(now, k) <= SLOTS ==> ({
            let c = s.candidate(s.first_stop_from(now, k));
            c >= s.windows.len() || s.windows@[c].next@ <= now
        }),
    decreases SLOTS + 1 - k,
{
    if k <= SLOTS && !(s.candidate(k) >= s.windows.len() || s.windows@[s.candidate(k)].next@
        <= now) {
        lemma_first_stop_from_stops(s, now, k + 1);
    }
}

/// Every step from `k` on before the round stops visits a slot that holds
/// a window that is not due.
proof fn lemma_before_stop<const SLOTS: usize>(
    s: DeadlineRrScheduler<SLOTS>,
    now: nat,
    k: int,
    j: int,
)
    requires
        1 <= k <= j,
        j < s.first_stop_from(now, k),
        j <= SLOTS,
    ensures
        s.candidate(j) < s.windows.len(),
        now < s.windows@[s.candidate(j)].next@,
    decreases j - k,
{
    if j > k {
        lemma_before_stop(s, now, k + 1, j);
    }
}

/// The window that `next` schedules is due at that time, and every slot
/// that the round visits before it holds a window that is not due.
pub proof fn lemma_next_picks_due_window<const SLOTS: usize>(s: DeadlineRrScheduler<SLOTS>, now: nat)
    requires
        s.wf(),
        s.round_in_bounds(now),
        s.first_stop(now) <= SLOTS,
    ensures
        0 <= s.candidate(s.first_stop(now)) < s.windows.len(),
        s.windows@[s.candidate(s.first_stop(now))].next@ <= now,
        forall|j: int| 1 <= j < s.first_stop(now) ==> now < (#[trigger] s.windows@[s.candidate(j)]).next@,
{
    lemma_first_stop_from_stops(s, now, 1);
    lemma_first_stop_from_ge(s, now, 1);
    assert forall|j: int| 1 <= j < s.first_stop(now) implies now < (#[trigger] s.windows@[s.candidate(j)]).next@ by {
        lemma_before_stop(s, now, 1, j);
    }
}

/// A window that `next` schedules at `now` is next due one period later,
/// where that instant fits in a `Duration`.
pub proof fn lemma_next_instant_after_period(now: nat, period: nat)
    requires
        now + period <= crate::time::MAX_NANOS,
    ensures
        next_instant(now, period) == now + period,
{
}

impl<const SLOTS: usize> Scheduler for DeadlineRrScheduler<SLOTS> {
    open spec fn can_schedule(&self, current_time: Duration) -> bool {
        self.wf() && self.round_in_bounds(current_time@)
    }

    fn next(&mut self, current_time: Duration) -> (r: Option<VirtualLinkId>)
        ensures
            final(self).wf(),
            ({
                let k = old(self).first_stop(current_time@);
                if k > SLOTS {
                    r is None && *final(self) == *old(self)
                } else {
                    let idx = old(self).candidate(k);
                    let w = old(self).windows@[idx];
                    &&& r == Some(w.vl)
                    &&& final(self).last_window == idx
                    &&& final(self).windows.len() == old(self).windows.len()
                    &&& final(self).windows@[idx].vl == w.vl
                    &&& final(self).windows@[idx].period == w.period
                    &&& final(self).windows@[idx].next@ == next_instant(
                        current_time@,
                        w.period@,
                    )
                    &&& forall|j: int|
                        0 <= j < old(self).windows.len() && j != idx
                            ==> #[trigger] final(self).windows@[j] == old(self).windows@[j]
                }
            }),
    {
        DeadlineRrScheduler::next(self, current_time)
    }
}

} // verus!
