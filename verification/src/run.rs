//! The decisions of the router's main loop: when to fetch a configuration,
//! when to reconfigure, and when to forward.
//!
//! The loop itself, which reads the configuration port and the clock and
//! moves the messages, runs around these steps.

use crate::config::{VirtualLinkConfig, VirtualLinkView, VirtualLinksConfig};
use crate::error::Error;
use crate::map::{seq_get, seq_has, BoundedMap, MapKey};
use crate::network::PayloadSize;
use crate::reconfigure::{cfg_error_from, reconfigured, CfgError, Configurator, Resources};
use crate::router::{routes_of, Route, RouteTable};
use crate::scheduler::{DeadlineRrScheduler, InvalidTimeError, ScheduleError, ScheduleErrorKind, Window};
use crate::time::Duration;
use crate::types::VirtualLinkId;
use vstd::prelude::*;

verus! {

/// Two virtual link configurations are the same map: as many entries, and
/// each entry of `a` is an entry of `b`.
pub open spec fn same_links(
    a: Seq<(u32, VirtualLinkView)>,
    b: Seq<(u32, VirtualLinkView)>,
) -> bool {
    &&& a.len() == b.len()
    &&& forall|i: int|
        0 <= i < a.len() ==> seq_has(b, (#[trigger] a[i]).0) && seq_get(b, a[i].0) == a[i].1
}

/// Tells whether two virtual links have the same source, destinations and
/// period.
pub fn same_link<const D: usize>(a: &VirtualLinkConfig<D>, b: &VirtualLinkConfig<D>) -> (r: bool)
    ensures
        r == (a@ == b@),
{
    if !a.src.same_key(&b.src) || a.dsts.len() != b.dsts.len() {
        proof {
            if a@ == b@ {
                assert(a@.dsts.len() == b@.dsts.len());
            }
        }
        return false;
    }
    let mut i: usize = 0;
    while i < a.dsts.len()
        invariant
            a.dsts.len() == b.dsts.len(),
            0 <= i <= a.dsts.len(),
            forall|j: int| 0 <= j < i ==> (#[trigger] a.dsts@[j])@ == b.dsts@[j]@,
        decreases a.dsts.len() - i,
    {
        if !a.dsts[i].same_key(&b.dsts[i]) {
            proof {
                if a@ == b@ {
                    assert(a@.dsts[i as int] == b@.dsts[i as int]);
                }
            }
            return false;
        }
        i = i + 1;
    }
    let same_period = a.period.le(&b.period) && b.period.le(&a.period);
    proof {
        assert(a@.dsts =~= b@.dsts);
    }
    same_period
}

/// Tells whether two virtual link configurations hold the same virtual
/// links, in whatever order.
pub fn same_links_config<const I: usize, const O: usize>(
    a: &VirtualLinksConfig<I, O>,
    b: &VirtualLinksConfig<I, O>,
) -> (r: bool)
    requires
        a.wf(),
        b.wf(),
    ensures
        r == same_links(a@, b@),
{
    if a.entries.len() != b.entries.len() {
        return false;
    }
    let mut i: usize = 0;
    while i < a.entries.len()
        invariant
            a.wf(),
            b.wf(),
            a@.len() == b@.len(),
            0 <= i <= a@.len(),
            forall|j: int|
                0 <= j < i ==> seq_has(b@, (#[trigger] a@[j]).0) && seq_get(b@, a@[j].0)
                    == a@[j].1,
        decreases a@.len() - i,
    {
        let key = &a.entries[i].0;
        assert(a@[i as int].0 == key@);
        match b.find(key) {
            None => {
                return false;
            },
            Some(k) => {
                assert(b@[k as int].1 == b.entries@[k as int].1@);
                assert(a@[i as int].1 == a.entries@[i as int].1@);
                if !same_link(&a.entries[i].1, &b.entries[k].1) {
                    return false;
                }
            },
        }
        i = i + 1;
    }
    true
}

/// `after` and `a` are what a round of the main loop makes of `before`,
/// with the resources `res` and the configuration `fetched`, if one was
/// fetched: the round counter moves on; in a round that fetches, a fetched
/// configuration that differs from the one in force reconfigures the
/// scheduler and, where its routes are accepted, becomes the configuration
/// in force with its route table; and the loop forwards where there is a
/// route table.
pub open spec fn stepped<const IN: usize, const OUT: usize>(
    before: RunState<IN, OUT>,
    res: (Seq<(Seq<char>, PayloadSize)>, Seq<(Seq<char>, PayloadSize)>),
    fetched: Option<Result<VirtualLinksConfig<IN, OUT>, CfgError>>,
    after: RunState<IN, OUT>,
    a: RunAction,
) -> bool {
    &&& after.timer == (before.timer + 1) % 0x10000
    &&& a == (if after.routes is Some {
        RunAction::Forward
    } else {
        RunAction::Idle
    })
    &&& match fetched {
        Some(Ok(c)) if before.timer == 0 && !same_links(c@, before.cfg@) => {
            &&& reconfigured(before.scheduler, c@, after.scheduler)
            &&& match cfg_error_from(c@, res.0, res.1, 0) {
                Some(_) => after.cfg@ == before.cfg@ && after.routes == before.routes,
                None => after.cfg@ == c@ && (after.routes matches Some(t) && t.routes@
                    == routes_of(c@, res.0, res.1)),
            }
        },
        _ => after.cfg@ == before.cfg@ && after.routes == before.routes && after.scheduler
            == before.scheduler,
    }
}

/// What the main loop does after a step.
#[derive(Debug, Clone, Copy, PartialEq, Eq, Structural)]
pub enum RunAction {
    /// Forward the next scheduled virtual link.
    Forward,
    /// Nothing to forward: no configuration was taken yet.
    Idle,
}

/// The state of the router's main loop.
#[derive(Debug)]
pub struct RunState<const IN: usize, const OUT: usize> {
    /// Counts the rounds; a configuration is fetched where it is zero.
    pub timer: u32,
    /// The configuration that is in force.
    pub cfg: VirtualLinksConfig<IN, OUT>,
    /// The route table of that configuration, once there is one.
    pub routes: Option<RouteTable<IN, OUT>>,
    /// Decides which virtual link is forwarded next.
    pub scheduler: DeadlineRrScheduler<IN>,
}

impl<const IN: usize, const OUT: usize> RunState<IN, OUT> {
    /// The configuration is well formed, as are the route table and the
    /// scheduler.
    pub open spec fn wf(&self) -> bool {
        &&& self.cfg.wf()
        &&& self.scheduler.wf()
        &&& (self.routes matches Some(t) ==> t.routes.wf())
    }

    /// The state before the first round: no virtual link, no route table
    /// and a scheduler without windows.
    pub fn new() -> (s: Self)
        ensures
            s.wf(),
            s.timer == 0,
            s.cfg@ == Seq::<(u32, VirtualLinkView)>::empty(),
            s.routes is None,
            s.scheduler.windows@ == Seq::<Window>::empty(),
    {
        let scheduler = match DeadlineRrScheduler::<IN>::try_new(&[], &Duration::zero()) {
            Ok(s) => s,
            Err(_) => DeadlineRrScheduler { last_window: 0, windows: Vec::new() },
        };
        proof {
            assert(scheduler.windows@ =~= Seq::<Window>::empty());
        }
        RunState { timer: 0, cfg: BoundedMap::new(), routes: None, scheduler }
    }

    /// A configuration is fetched in this round: every 65536 rounds,
    /// starting with the first.
    pub fn wants_config(&self) -> (b: bool)
        ensures
            b == (self.timer == 0),
    {
        self.timer == 0
    }

    /// One round of the main loop, given the configuration that was
    /// fetched, if one was.
    ///
    /// In a round that fetches, a fetched configuration that differs from
    /// the one in force reconfigures the scheduler and the route table;
    /// where its routes are refused, the configuration in force and its
    /// route table stay. Then the round counter moves on, and the loop
    /// forwards where there is a route table.
    pub fn run_step(
        &mut self,
        resources: &Resources<IN, OUT>,
        fetched: Option<Result<VirtualLinksConfig<IN, OUT>, CfgError>>,
    ) -> (a: RunAction)
        requires
            old(self).wf(),
            resources.wf(),
            fetched matches Some(Ok(c)) ==> c.wf(),
        ensures
            final(self).wf(),
            stepped(*old(self), (resources.inputs@, resources.outputs@), fetched, *final(self), a),
    {
        if self.timer == 0 {
            if let Some(Ok(c)) = fetched {
                if !same_links_config(&c, &self.cfg) {
                    if let Ok(t) = Configurator::reconfigure(resources, &mut self.scheduler, &c) {
                        self.routes = Some(t);
                        self.cfg = c;
                    }
                }
            }
        }
        let next: u64 = (self.timer as u64 + 1) % 0x10000;
        self.timer = next as u32;
        match self.routes {
            Some(_) => RunAction::Forward,
            None => RunAction::Idle,
        }
    }

    /// Tells whether a scheduling round at `current_time` stays within the
    /// range of a `Duration`, as `forward_at` asks.
    pub fn can_forward_at(&self, current_time: &Duration) -> (b: bool)
        requires
            self.wf(),
        ensures
            b == self.scheduler.round_fits(current_time@),
    {
        self.scheduler.fits_round(current_time)
    }

    /// Decides what to forward at the time that the time source read.
    ///
    /// An invalid time is a scheduling error and changes nothing. Otherwise
    /// the scheduler picks the virtual link, if any, and its route is handed
    /// back; a virtual link without a route is a routing error.
    pub fn forward_at(&mut self, time: Result<Duration, InvalidTimeError>) -> (r: Result<
        Option<(VirtualLinkId, Route)>,
        Error,
    >)
        requires
            old(self).wf(),
            old(self).routes is Some,
            time matches Ok(t) ==> old(self).scheduler.round_fits(t@),
        ensures
            final(self).wf(),
            final(self).timer == old(self).timer,
            final(self).cfg@ == old(self).cfg@,
            final(self).routes == old(self).routes,
            match time {
                Err(e) => r == Err::<Option<(VirtualLinkId, Route)>, Error>(
                    Error::Schedule(ScheduleError { kind: ScheduleErrorKind::SystemTime(e) }),
                ) && final(self).scheduler == old(self).scheduler,
                Ok(t) => match old(self).scheduler.pick(t@) {
                    None => r == Ok::<Option<(VirtualLinkId, Route)>, Error>(None)
                        && final(self).scheduler == old(self).scheduler,
                    Some(idx) => {
                        let w = old(self).scheduler.windows@[idx];
                        let routes = old(self).routes->Some_0.routes@;
                        &&& seq_has(routes, w.vl@) ==> (r matches Ok(Some((vl, route))) && vl
                            == w.vl && route@ == seq_get(routes, w.vl@))
                        &&& !seq_has(routes, w.vl@) ==> r == Err::<
                            Option<(VirtualLinkId, Route)>,
                            Error,
                        >(Error::Route(crate::router::RouteError::InvalidVl))
                        &&& final(self).scheduler.last_window == idx
                        &&& final(self).scheduler.windows@ == old(self).scheduler.windows@.update(
                            idx,
                            Window { last: t, ..w },
                        )
                    },
                },
            },
    {
        let t = match time {
            Ok(t) => t,
            Err(e) => {
                return Err(Error::Schedule(ScheduleError { kind: ScheduleErrorKind::SystemTime(e) }));
            },
        };
        match self.scheduler.schedule_next(&t) {
            None => Ok(None),
            Some(vl) => match &self.routes {
                Some(table) => match table.route(&vl) {
                    Ok(route) => Ok(Some((vl, route))),
                    Err(e) => Err(Error::Route(e)),
                },
                None => Ok(None),
            },
        }
    }
}
/// A new configuration takes effect whatever was in force before: in a
/// round that fetches, a fetched configuration `c` that differs from the one
/// in force and whose routes are accepted becomes the configuration in
/// force, with its own route table, the scheduler gets a window for each of
/// its virtual links, in order, with its period, and the loop forwards.
pub proof fn lemma_new_configuration_applies<const IN: usize, const OUT: usize>(
    before: RunState<IN, OUT>,
    res: (Seq<(Seq<char>, PayloadSize)>, Seq<(Seq<char>, PayloadSize)>),
    c: VirtualLinksConfig<IN, OUT>,
    after: RunState<IN, OUT>,
    a: RunAction,
)
    requires
        stepped(before, res, Some(Ok(c)), after, a),
        before.timer == 0,
        !same_links(c@, before.cfg@),
        cfg_error_from(c@, res.0, res.1, 0) is None,
    ensures
        after.cfg@ == c@,
        after.routes matches Some(t) && t.routes@ == routes_of(c@, res.0, res.1),
        a == RunAction::Forward,
        c@.len() > 0 ==> after.scheduler.windows.len() == c@.len() && forall|i: int|
            0 <= i < c@.len() ==> (#[trigger] after.scheduler.windows@[i]).vl@ == c@[i].0
                && after.scheduler.windows@[i].period@ == c@[i].1.period,
{
    if c@.len() > 0 {
        assert forall|i: int| 0 <= i < c@.len() implies (#[trigger] after.scheduler.windows@[
            i
        ]).vl@ == c@[i].0 && after.scheduler.windows@[i].period@ == c@[i].1.period by {
            assert(reconfigured(before.scheduler, c@, after.scheduler));
        }
    }
}

/// The main loop over many rounds, from its first state on: in round `k` it
/// fetches a configuration exactly where `k` is a multiple of 65536; once
/// it has a route table it keeps one; and it forwards, once per round, in
/// exactly the rounds that end with a route table.
pub proof fn lemma_run_rounds<const IN: usize, const OUT: usize>(
    states: Seq<RunState<IN, OUT>>,
    actions: Seq<RunAction>,
    fetched: Seq<Option<Result<VirtualLinksConfig<IN, OUT>, CfgError>>>,
    res: (Seq<(Seq<char>, PayloadSize)>, Seq<(Seq<char>, PayloadSize)>),
)
    requires
        states.len() == actions.len() + 1,
        fetched.len() == actions.len(),
        states[0].timer == 0,
        forall|i: int|
            0 <= i < actions.len() ==> stepped(
                #[trigger] states[i],
                res,
                fetched[i],
                states[i + 1],
                actions[i],
            ),
    ensures
        forall|k: int| 0 <= k < states.len() ==> (#[trigger] states[k]).timer == k % 0x10000,
        forall|k: int| 0 <= k < states.len() ==> ((#[trigger] states[k]).timer == 0 <==> k % 65536 == 0),
        forall|i: int, j: int|
            0 <= i <= j < states.len() && (#[trigger] states[i]).routes is Some ==> (
            #[trigger] states[j]).routes is Some,
        forall|i: int|
            0 <= i < actions.len() ==> (#[trigger] actions[i] == RunAction::Forward
                <==> states[i + 1].routes is Some),
    decreases actions.len(),
{
    if actions.len() > 0 {
        let n = actions.len() - 1;
        let s2 = states.take(n + 1);
        let a2 = actions.take(n);
        let f2 = fetched.take(n);
        assert forall|i: int| 0 <= i < a2.len() implies stepped(
            #[trigger] s2[i],
            res,
            f2[i],
            s2[i + 1],
            a2[i],
        ) by {
            assert(stepped(states[i], res, fetched[i], states[i + 1], actions[i]));
        }
        lemma_run_rounds(s2, a2, f2, res);
        assert(stepped(states[n], res, fetched[n], states[n + 1], actions[n]));
        assert(s2[n] == states[n]);
        assert(states[n + 1].timer == (n + 1) % 0x10000) by {
            assert(states[n].timer == n % 0x10000);
            vstd::arithmetic::div_mod::lemma_add_mod_noop(n, 1, 0x10000);
            vstd::arithmetic::div_mod::lemma_mod_twice(n, 0x10000);
            vstd::arithmetic::div_mod::lemma_small_mod(1, 0x10000);
        }
        assert forall|k: int| 0 <= k < states.len() implies (#[trigger] states[k]).timer == k
            % 0x10000 by {
            if k <= n {
                assert(s2[k] == states[k]);
            }
        }
        assert forall|i: int, j: int|
            0 <= i <= j < states.len() && (#[trigger] states[i]).routes is Some implies (
            #[trigger] states[j]).routes is Some by {
            if j <= n {
                assert(s2[i] == states[i] && s2[j] == states[j]);
            } else if i <= n {
                assert(s2[i] == states[i] && s2[n] == states[n]);
            }
        }
        assert forall|i: int| 0 <= i < actions.len() implies (#[trigger] actions[i]
            == RunAction::Forward <==> states[i + 1].routes is Some) by {
            assert(stepped(states[i], res, fetched[i], states[i + 1], actions[i]));
        }
    }
}

} // verus!
