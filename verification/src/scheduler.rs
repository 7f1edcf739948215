//! Deadline-based round-robin scheduling of virtual links.

use crate::time::{Duration, MAX_NANOS};
use crate::types::VirtualLinkId;
use vstd::prelude::*;

verus! {

broadcast use crate::time::lemma_duration_view_injective;

/// Gets the next virtual link that is scheduled.
/// To be implemented by the concrete scheduler implementation.
pub trait Scheduler {
    /// The scheduler can be asked at `current_time` without overflowing a
    /// deadline.
    spec fn can_schedule(&self, current_time: Duration) -> bool;

    /// Get the next scheduled virtual link, if one is to be scheduled at the
    /// current time.
    fn schedule_next(&mut self, current_time: &Duration) -> (r: Option<VirtualLinkId>)
        requires
            old(self).can_schedule(*current_time),
    ;
}

/// The deadline of a window in which a virtual link is to be scheduled next.
#[derive(Debug, Clone, Copy)]
pub struct Window {
    /// Virtual link this window belongs to.
    pub vl: VirtualLinkId,
    /// Period to schedule the window at.
    pub period: Duration,
    /// The last instant at which this window was scheduled.
    pub last: Duration,
}

/// The window `w` is due at `now`: its period has passed since it was last
/// scheduled.
pub open spec fn due(w: Window, now: nat) -> bool {
    w.last@ + w.period@ <= now
}

/// The end of the period of `w` fits in a `Duration`.
pub open spec fn end_fits(w: Window) -> bool {
    w.last@ + w.period@ <= MAX_NANOS
}

/// How far a clock may run ahead of a window's deadline before the reading
/// is ignored: fifteen seconds.
pub open spec fn clock_slack() -> nat {
    15_000_000_000
}

/// The clock reads `now`, more than fifteen seconds past the deadline of
/// `w`; such a reading is ignored.
pub open spec fn implausible(w: Window, now: nat) -> bool {
    now >= clock_slack() && now - clock_slack() > w.last@ + w.period@
}

impl Window {
    /// The window is due at `current_time`.
    pub fn is_due(&self, current_time: &Duration) -> (b: bool)
        requires
            end_fits(*self),
        ensures
            b <==> due(*self, current_time@),
    {
        self.last.add(&self.period).le(current_time)
    }
}

/// A scheduler that uses simple round-robin scheduling together with
/// deadlines for every virtual link.
///
/// A virtual link may be scheduled at multiple intervals, although this may
/// not make much sense, depending on which requirements on jitter this has.
#[derive(Debug, Clone)]
pub struct DeadlineRrScheduler<const SLOTS: usize> {
    /// The window that was scheduled last.
    pub last_window: usize,
    /// The windows inside of the round-robin schedule.
    pub windows: Vec<Window>,
}

impl<const SLOTS: usize> DeadlineRrScheduler<SLOTS> {
    /// At most `SLOTS` windows, and the last scheduled one is one of them.
    pub open spec fn wf(&self) -> bool {
        &&& self.windows.len() <= SLOTS
        &&& self.windows.len() == 0 || self.last_window < self.windows.len()
    }

    /// The position of the window visited in the `k`-th step of a round that
    /// starts after the last scheduled window.
    pub open spec fn candidate(&self, k: int) -> int {
        (self.last_window + k) % (self.windows.len() as int)
    }

    /// The first step, from `k` on, whose window is due at `now`, or
    /// `self.windows.len() + 1` where there is none up to a whole round.
    pub open spec fn first_due_from(&self, now: nat, k: int) -> int
        decreases self.windows.len() + 1 - k,
    {
        if k > self.windows.len() || k < 1 {
            self.windows.len() + 1
        } else if due(self.windows@[self.candidate(k)], now) {
            k
        } else {
            self.first_due_from(now, k + 1)
        }
    }

    /// The first step of a round whose window is due at `now`.
    pub open spec fn first_due(&self, now: nat) -> int {
        self.first_due_from(now, 1)
    }

    /// Every window that a round visits before it stops at a due window has
    /// a deadline that fits in a `Duration`.
    pub open spec fn round_fits(&self, now: nat) -> bool {
        forall|k: int|
            1 <= k <= self.windows.len() && k <= self.first_due(now) ==> end_fits(
                #[trigger] self.windows@[self.candidate(k)],
            )
    }

    /// The position of the window that a round at `now` schedules: the first
    /// one that is due, unless the clock lies more than fifteen seconds past
    /// its deadline. `None` where no window is scheduled.
    pub open spec fn pick(&self, now: nat) -> Option<int> {
        let k = self.first_due(now);
        if self.windows.len() == 0 || k > self.windows.len() || implausible(
            self.windows@[self.candidate(k)],
            now,
        ) {
            None
        } else {
            Some(self.candidate(k))
        }
    }

    /// Constructs a scheduler with a window for each pair of virtual link and
    /// period in `vls`, each one period after `start` from being due.
    pub fn try_new(vls: &[(VirtualLinkId, Duration)], start: &Duration) -> (r: Result<
        Self,
        crate::config::RouterConfigError,
    >)
        requires
            vls@.len() <= SLOTS,
            forall|i: int| 0 <= i < vls@.len() ==> start@ + (#[trigger] vls@[i]).1@ <= MAX_NANOS,
        ensures
            r matches Ok(s) && s.wf() && s.last_window == 0 && s.windows.len() == vls@.len()
                && forall|i: int|
                0 <= i < vls@.len() ==> (#[trigger] s.windows@[i]).vl == vls@[i].0
                    && s.windows@[i].period == vls@[i].1 && s.windows@[i].last@ == start@
                    + vls@[i].1@,
    {
        let mut windows: Vec<Window> = Vec::new();
        let mut i: usize = 0;
        while i < vls.len()
            invariant
                0 <= i <= vls@.len(),
                vls@.len() <= SLOTS,
                forall|j: int| 0 <= j < vls@.len() ==> start@ + (#[trigger] vls@[j]).1@ <= MAX_NANOS,
                windows.len() == i,
                forall|j: int|
                    0 <= j < i ==> (#[trigger] windows@[j]).vl == vls@[j].0 && windows@[j].period
                        == vls@[j].1 && windows@[j].last@ == start@ + vls@[j].1@,
            decreases vls@.len() - i,
        {
            let (vl, period) = vls[i];
            let w = Window { vl, period, last: start.add(&period) };
            windows.push(w);
            i = i + 1;
        }
        Ok(DeadlineRrScheduler { last_window: 0, windows })
    }

    /// Schedules the virtual link of the first window of a round-robin round
    /// that is due at `current_time`.
    ///
    /// The round starts after the window that was scheduled last. The chosen
    /// window becomes the last scheduled one and its last instant becomes
    /// `current_time`. Where no window is due, or the time lies more than
    /// fifteen seconds past the deadline of the due window, nothing changes
    /// and `None` is returned.
    pub fn schedule_next(&mut self, current_time: &Duration) -> (r: Option<VirtualLinkId>)
        requires
            old(self).wf(),
            old(self).round_fits(current_time@),
        ensures
            final(self).wf(),
            match old(self).pick(current_time@) {
                None => r is None && *final(self) == *old(self),
                Some(idx) => {
                    let w = old(self).windows@[idx];
                    &&& r == Some(w.vl)
                    &&& final(self).last_window == idx
                    &&& final(self).windows@ == old(self).windows@.update(
                        idx,
                        Window { last: *current_time, ..w },
                    )
                },
            },
    {
        let len = self.windows.len();
        if len == 0 {
            return None;
        }
        let ghost start = *self;
        let mut j: usize = 0;
        while j < len
            invariant
                *self == start,
                start == *old(self),
                start.wf(),
                start.windows.len() == len,
                len > 0,
                start.round_fits(current_time@),
                0 <= j <= len,
                forall|k: int| 1 <= k <= j ==> !due(
                    #[trigger] start.windows@[start.candidate(k)],
                    current_time@,
                ),
            decreases len - j,
        {
            let i = j + 1;
            let step = i % len;
            let last = self.last_window;
            let next_window = if step >= len - last {
                step - (len - last)
            } else {
                last + step
            };
            proof {
                lemma_cyclic_index(last as int, i as int, len as int);
                lemma_first_due(start, current_time@, i as int);
                lemma_first_due_from_ge(start, current_time@, i + 1);
            }
            let window = self.windows[next_window];
            if window.is_due(current_time) {
                match current_time.checked_sub(&Duration::from_secs(15)) {
                    Some(t) => {
                        if window.last.add(&window.period).lt(&t) {
                            return None;
                        }
                    },
                    None => {},
                }
                self.last_window = next_window;
                let w2 = Window { vl: window.vl, period: window.period, last: *current_time };
                self.windows.set(next_window, w2);
                return Some(window.vl);
            }
            j = j + 1;
        }
        proof {
            lemma_none_due(start, current_time@);
        }
        None
    }
}

impl<const SLOTS: usize> Scheduler for DeadlineRrScheduler<SLOTS> {
    open spec fn can_schedule(&self, current_time: Duration) -> bool {
        self.wf() && self.round_fits(current_time@)
    }

    fn schedule_next(&mut self, current_time: &Duration) -> (r: Option<VirtualLinkId>)
        ensures
            final(self).wf(),
            match old(self).pick(current_time@) {
                None => r is None && *final(self) == *old(self),
                Some(idx) => {
                    let w = old(self).windows@[idx];
                    &&& r == Some(w.vl)
                    &&& final(self).last_window == idx
                    &&& final(self).windows@ == old(self).windows@.update(
                        idx,
                        Window { last: *current_time, ..w },
                    )
                },
            },
    {
        DeadlineRrScheduler::schedule_next(self, current_time)
    }
}

impl<const SLOTS: usize> DeadlineRrScheduler<SLOTS> {
    /// Tells whether a round at `current_time` reaches only windows whose
    /// deadline fits in a `Duration`.
    pub fn fits_round(&self, current_time: &Duration) -> (b: bool)
        requires
            self.wf(),
        ensures
            b == self.round_fits(current_time@),
    {
        let len = self.windows.len();
        if len == 0 {
            return true;
        }
        let mut j: usize = 0;
        while j < len
            invariant
                self.wf(),
                len == self.windows.len(),
                len > 0,
                0 <= j <= len,
                forall|m: int|
                    1 <= m <= j && m <= self.first_due(current_time@) ==> end_fits(
                        #[trigger] self.windows@[self.candidate(m)],
                    ),
                forall|m: int| 1 <= m <= j ==> !due(
                    #[trigger] self.windows@[self.candidate(m)],
                    current_time@,
                ),
            decreases len - j,
        {
            let k = j + 1;
            let step = k % len;
            let last = self.last_window;
            let idx = if step >= len - last {
                step - (len - last)
            } else {
                last + step
            };
            proof {
                lemma_cyclic_index(last as int, k as int, len as int);
                lemma_first_due(*self, current_time@, k as int);
                lemma_first_due_from_ge(*self, current_time@, k + 1);
            }
            let w = self.windows[idx];
            let fits = match w.last.checked_add(&w.period) {
                Some(_) => true,
                None => false,
            };
            if !fits {
                return false;
            }
            if w.is_due(current_time) {
                return true;
            }
            j = j + 1;
        }
        proof {
            lemma_none_due(*self, current_time@);
        }
        true
    }
}

/// The `i`-th step after `last` in a cycle of `len` positions, computed
/// without overflow.
pub(crate) proof fn lemma_cyclic_index(last: int, i: int, len: int)
    requires
        0 <= last < len,
        i >= 0,
    ensures
        (if i % len >= len - last {
            i % len - (len - last)
        } else {
            last + i % len
        }) == (last + i) % len,
{
    vstd::arithmetic::div_mod::lemma_add_mod_noop(last, i, len);
    vstd::arithmetic::div_mod::lemma_small_mod(last as nat, len as nat);
    let s = i % len;
    if s >= len - last {
        vstd::arithmetic::div_mod::lemma_mod_sub_multiples_vanish(last + s, len);
        vstd::arithmetic::div_mod::lemma_small_mod((last + s - len) as nat, len as nat);
    } else {
        vstd::arithmetic::div_mod::lemma_small_mod((last + s) as nat, len as nat);
    }
}

/// Where no window of the first `i - 1` steps is due and the `i`-th one
/// is, the first due step is `i`.
proof fn lemma_first_due<const SLOTS: usize>(s: DeadlineRrScheduler<SLOTS>, now: nat, i: int)
    requires
        1 <= i <= s.windows.len(),
        forall|k: int| 1 <= k < i ==> !due(#[trigger] s.windows@[s.candidate(k)], now),
    ensures
        due(s.windows@[s.candidate(i)], now) ==> s.first_due(now) == i,
        !due(s.windows@[s.candidate(i)], now) ==> s.first_due(now) == s.first_due_from(now, i + 1),
{
    lemma_first_due_from(s, now, 1, i);
}

proof fn lemma_first_due_from<const SLOTS: usize>(
    s: DeadlineRrScheduler<SLOTS>,
    now: nat,
    k: int,
    i: int,
)
    requires
        1 <= k <= i <= s.windows.len(),
        forall|j: int| 1 <= j < i ==> !due(#[trigger] s.windows@[s.candidate(j)], now),
    ensures
        s.first_due_from(now, k) == s.first_due_from(now, i),
        due(s.windows@[s.candidate(i)], now) ==> s.first_due_from(now, i) == i,
        !due(s.windows@[s.candidate(i)], now) ==> s.first_due_from(now, i) == s.first_due_from(
            now,
            i + 1,
        ),
    decreases i - k,
{
    if k < i {
        assert(!due(s.windows@[s.candidate(k)], now));
        lemma_first_due_from(s, now, k + 1, i);
    }
}

/// The first due step from `k` on is not before `k`.
proof fn lemma_first_due_from_ge<const SLOTS: usize>(
    s: DeadlineRrScheduler<SLOTS>,
    now: nat,
    k: int,
)
    requires
        1 <= k <= s.windows.len() + 1,
    ensures
        s.first_due_from(now, k) >= k,
    decreases s.windows.len() + 1 - k,
{
    if k <= s.windows.len() && !due(s.windows@[s.candidate(k)], now) {
        lemma_first_due_from_ge(s, now, k + 1);
    }
}

/// Where no window of a whole round is due, the first due step lies past
/// the round.
proof fn lemma_none_due<const SLOTS: usize>(s: DeadlineRrScheduler<SLOTS>, now: nat)
    requires
        s.windows.len() > 0,
        forall|k: int|
            1 <= k <= s.windows.len() ==> !due(#[trigger] s.windows@[s.candidate(k)], now),
    ensures
        s.first_due(now) == s.windows.len() + 1,
{
    lemma_first_due_from(s, now, 1, s.windows.len() as int);
}

/// The first due step from `k` on is due, and no step from `k` up to it
/// is.
proof fn lemma_first_due_from_is_first<const SLOTS: usize>(
    s: DeadlineRrScheduler<SLOTS>,
    now: nat,
    k: int,
)
    requires
        1 <= k,
    ensures
        s.first_due_from(now, k) <= s.windows.len() ==> k <= s.first_due_from(now, k) && due(
            s.windows@[s.candidate(s.first_due_from(now, k))],
            now,
        ),
        forall|j: int|
            k <= j < s.first_due_from(now, k) && j <= s.windows.len() ==> !due(
                #[trigger] s.windows@[s.candidate(j)],
                now,
            ),
    decreases s.windows.len() + 1 - k,
{
    if k <= s.windows.len() && !due(s.windows@[s.candidate(k)], now) {
        lemma_first_due_from_is_first(s, now, k + 1);
    }
}

/// The window that a round schedules is due at that time, and no window
/// that the round visits before it, after the window scheduled last, is.
pub proof fn lemma_picked_window_is_due<const SLOTS: usize>(s: DeadlineRrScheduler<SLOTS>, now: nat)
    requires
        s.wf(),
        s.pick(now) is Some,
    ensures
        s.pick(now)->0 == s.candidate(s.first_due(now)),
        0 <= s.pick(now)->0 < s.windows.len(),
        due(s.windows@[s.pick(now)->0], now),
        forall|k: int| 1 <= k < s.first_due(now) ==> !due(#[trigger] s.windows@[s.candidate(k)], now),
{
    lemma_first_due_from_is_first(s, now, 1);
}

/// Where no window is due, a round schedules nothing.
pub proof fn lemma_nothing_due_nothing_picked<const SLOTS: usize>(
    s: DeadlineRrScheduler<SLOTS>,
    now: nat,
)
    requires
        s.wf(),
        forall|i: int| 0 <= i < s.windows.len() ==> !due(#[trigger] s.windows@[i], now),
    ensures
        s.pick(now) is None,
{
    lemma_first_due_from_is_first(s, now, 1);
    if s.windows.len() > 0 && s.first_due(now) <= s.windows.len() {
        let c = s.candidate(s.first_due(now));
        assert(0 <= c < s.windows.len());
        assert(!due(s.windows@[c], now));
    }
}

/// A window scheduled at `t` is not due again before one period has passed.
pub proof fn lemma_scheduled_window_waits(w: Window, t: Duration, now: nat)
    requires
        now < t@ + w.period@,
    ensures
        !due(Window { last: t, ..w }, now),
{
}

/// A slot inside the round-robin scheduler.
#[derive(Debug, Clone, Copy)]
pub struct DeadlineRrSlot {
    /// Virtual link to schedule in this slot.
    pub vl: VirtualLinkId,
    /// Period after which to schedule this slot again after the last time it
    /// has been scheduled.
    pub period: Duration,
}

/// The time returned by the system was invalid.
#[derive(Clone, Debug, PartialEq, Eq, Structural)]
pub struct InvalidTimeError;

/// Source for the system time.
pub trait TimeSource {
    /// Gets the current system time.
    fn get_time(&self) -> (r: Result<Duration, InvalidTimeError>);
}

/// Schedule error type.
#[derive(Clone, Debug, PartialEq, Eq, Structural)]
pub enum ScheduleErrorKind {
    /// The system time was not normal.
    SystemTime(InvalidTimeError),
}

/// An error occured when scheduling a virtual link.
#[derive(Clone, Debug, PartialEq, Eq, Structural)]
pub struct ScheduleError {
    /// What went wrong.
    pub kind: ScheduleErrorKind,
}

impl From<InvalidTimeError> for ScheduleError {
    fn from(value: InvalidTimeError) -> (r: ScheduleError) {
        ScheduleError { kind: ScheduleErrorKind::SystemTime(value) }
    }
}

impl vstd::std_specs::convert::FromSpecImpl<InvalidTimeError> for ScheduleError {
    open spec fn obeys_from_spec() -> bool {
        true
    }

    open spec fn from_spec(v: InvalidTimeError) -> ScheduleError {
        ScheduleError { kind: ScheduleErrorKind::SystemTime(v) }
    }
}

} // verus!
