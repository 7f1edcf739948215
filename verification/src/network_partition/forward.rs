//! The decisions of the forwarder of the network partition: which virtual
//! links take a frame that came from the network, and which virtual link
//! sends its local message to the network next.

use crate::network_partition::scheduler::DeadlineRrScheduler;
use crate::scheduler::InvalidTimeError;
use crate::time::Duration;
use crate::types::{NetworkInterfaceId, VirtualLinkId};
use vstd::prelude::*;

verus! {

/// The positions, in increasing order, of the first `n` entries of `links`
/// that are `vl`.
pub open spec fn positions_of(links: Seq<VirtualLinkId>, vl: VirtualLinkId, n: int) -> Seq<int>
    decreases n,
{
    if n <= 0 {
        Seq::empty()
    } else if links[n - 1] == vl {
        positions_of(links, vl, n - 1).push(n - 1)
    } else {
        positions_of(links, vl, n - 1)
    }
}

/// The first position of `vl` in `links`, where it occurs.
pub open spec fn first_position(links: Seq<VirtualLinkId>, vl: VirtualLinkId) -> Option<int> {
    let p = positions_of(links, vl, links.len() as int);
    if p.len() > 0 {
        Some(p[0])
    } else {
        None
    }
}

/// The virtual link that a round of `s` at `now` schedules, if any.
pub open spec fn scheduled<const SLOTS: usize>(s: DeadlineRrScheduler<SLOTS>, now: nat) -> Option<
    VirtualLinkId,
> {
    let k = s.first_stop(now);
    if k > SLOTS {
        None
    } else {
        Some(s.windows@[s.candidate(k)].vl)
    }
}

/// `after` is the scheduler `before` after a round at `now`: where a window
/// is scheduled it becomes the last scheduled slot and is next due one
/// period after `now`, and every other window stays as it was.
pub open spec fn scheduled_state<const SLOTS: usize>(
    before: DeadlineRrScheduler<SLOTS>,
    now: nat,
    after: DeadlineRrScheduler<SLOTS>,
) -> bool {
    let k = before.first_stop(now);
    if k > SLOTS {
        after == before
    } else {
        let idx = before.candidate(k);
        let w = before.windows@[idx];
        &&& after.last_window == idx
        &&& after.windows.len() == before.windows.len()
        &&& after.windows@[idx].vl == w.vl
        &&& after.windows@[idx].period == w.period
        &&& after.windows@[idx].next@ == crate::network_partition::scheduler::next_instant(
            now,
            w.period@,
        )
        &&& forall|j: int|
            0 <= j < before.windows.len() && j != idx ==> #[trigger] after.windows@[j]
                == before.windows@[j]
    }
}

/// The positions, in increasing order, of the virtual links of `links`
/// whose id is `vl`: those that take a frame of `vl` from the network.
pub fn links_for(links: &[VirtualLinkId], vl: VirtualLinkId) -> (r: Vec<usize>)
    ensures
        r@.map_values(|i: usize| i as int) == positions_of(links@, vl, links@.len() as int),
{
    let mut r: Vec<usize> = Vec::new();
    let mut i: usize = 0;
    while i < links.len()
        invariant
            0 <= i <= links@.len(),
            r@.map_values(|k: usize| k as int) == positions_of(links@, vl, i as int),
        decreases links@.len() - i,
    {
        let ghost prev = r@;
        if links[i] == vl {
            r.push(i);
            proof {
                assert(r@.map_values(|k: usize| k as int) =~= prev.map_values(|k: usize| k as int).push(
                    i as int,
                ));
            }
        }
        i = i + 1;
    }
    r
}

/// The positions, in increasing order, of the first `n` interfaces of
/// `interfaces` whose id is one of `connects`.
pub open spec fn connected_positions(
    connects: Seq<NetworkInterfaceId>,
    interfaces: Seq<NetworkInterfaceId>,
    n: int,
) -> Seq<int>
    decreases n,
{
    if n <= 0 {
        Seq::empty()
    } else if connects.contains(interfaces[n - 1]) {
        connected_positions(connects, interfaces, n - 1).push(n - 1)
    } else {
        connected_positions(connects, interfaces, n - 1)
    }
}

/// Tells whether `id` is one of `connects`.
fn connects_to(connects: &[NetworkInterfaceId], id: NetworkInterfaceId) -> (b: bool)
    ensures
        b == connects@.contains(id),
{
    let mut i: usize = 0;
    while i < connects.len()
        invariant
            0 <= i <= connects@.len(),
            forall|k: int| 0 <= k < i ==> connects@[k] != id,
        decreases connects@.len() - i,
    {
        if connects[i] == id {
            assert(connects@[i as int] == id);
            return true;
        }
        i = i + 1;
    }
    false
}

/// The positions, in increasing order, of the interfaces of `interfaces`
/// that a virtual link connected to the interfaces `connects` sends on.
pub fn interfaces_for(connects: &[NetworkInterfaceId], interfaces: &[NetworkInterfaceId]) -> (r: Vec<
    usize,
>)
    ensures
        r@.map_values(|i: usize| i as int) == connected_positions(
            connects@,
            interfaces@,
            interfaces@.len() as int,
        ),
{
    let mut r: Vec<usize> = Vec::new();
    let mut i: usize = 0;
    while i < interfaces.len()
        invariant
            0 <= i <= interfaces@.len(),
            r@.map_values(|k: usize| k as int) == connected_positions(connects@, interfaces@, i as int),
        decreases interfaces@.len() - i,
    {
        let ghost prev = r@;
        if connects_to(connects, interfaces[i]) {
            r.push(i);
            proof {
                assert(r@.map_values(|k: usize| k as int) =~= prev.map_values(|k: usize| k as int).push(
                    i as int,
                ));
            }
        }
        i = i + 1;
    }
    r
}

/// What a forwarding round does, as positions of virtual links and
/// interfaces.
#[derive(Debug)]
pub struct RoundPlan {
    /// For each interface, in order, the positions of the virtual links
    /// that take the frame it received.
    pub remote: Vec<Vec<usize>>,
    /// The virtual link that sends its local message to the network, with
    /// the positions of the interfaces that it is sent on.
    pub local: Option<(usize, Vec<usize>)>,
}

/// The decisions of the forwarder: its scheduler, the id of each of its
/// virtual links with the interfaces that it connects to, and the ids of
/// the interfaces, in order.
#[derive(Debug)]
pub struct Forwarder<const SLOTS: usize> {
    /// Decides which virtual link sends to the network next.
    pub scheduler: DeadlineRrScheduler<SLOTS>,
    /// The id of each virtual link.
    pub links: Vec<VirtualLinkId>,
    /// The interfaces that each virtual link sends on.
    pub connects: Vec<Vec<NetworkInterfaceId>>,
    /// The id of each interface.
    pub interfaces: Vec<NetworkInterfaceId>,
}

impl<const SLOTS: usize> Forwarder<SLOTS> {
    /// The scheduler is well formed and every virtual link has its set of
    /// interfaces.
    pub open spec fn wf(&self) -> bool {
        &&& self.scheduler.wf()
        &&& self.connects.len() == self.links.len()
    }

    /// The interfaces that the virtual link at position `p` sends on.
    pub open spec fn connects_of(&self, p: int) -> Seq<NetworkInterfaceId> {
        self.connects@[p]@
    }

    /// A forwarder with the scheduler `scheduler`, the virtual links `links`
    /// that send on the interfaces `connects`, link by link, and the
    /// interfaces `interfaces`.
    pub fn new(
        scheduler: DeadlineRrScheduler<SLOTS>,
        links: Vec<VirtualLinkId>,
        connects: Vec<Vec<NetworkInterfaceId>>,
        interfaces: Vec<NetworkInterfaceId>,
    ) -> (f: Self)
        ensures
            f.scheduler == scheduler,
            f.links@ == links@,
            f.connects@ == connects@,
            f.interfaces@ == interfaces@,
    {
        Forwarder { scheduler, links, connects, interfaces }
    }

    /// The positions of the virtual links that take a frame of `vl` that
    /// came from the network.
    pub fn receivers(&self, vl: VirtualLinkId) -> (r: Vec<usize>)
        ensures
            r@.map_values(|i: usize| i as int) == positions_of(self.links@, vl, self.links@.len() as int),
    {
        links_for(self.links.as_slice(), vl)
    }

    /// Decides, at the time that the clock read, which virtual link sends
    /// its local message to the network: an invalid time changes nothing
    /// and sends nothing; otherwise the scheduler picks a virtual link, and
    /// the first virtual link with its id sends, where there is one.
    pub fn local_to_send(&mut self, time: Result<Duration, InvalidTimeError>) -> (r: Option<usize>)
        requires
            old(self).scheduler.wf(),
            time matches Ok(t) ==> old(self).scheduler.round_in_bounds(t@),
        ensures
            final(self).links@ == old(self).links@,
            final(self).connects@ == old(self).connects@,
            final(self).interfaces@ == old(self).interfaces@,
            final(self).scheduler.wf(),
            r matches Some(p) ==> p < old(self).links@.len(),
            time is Err ==> r is None && final(self).scheduler == old(self).scheduler,
            time matches Ok(t) ==> {
                &&& scheduled_state(old(self).scheduler, t@, final(self).scheduler)
                &&& r == match scheduled(old(self).scheduler, t@) {
                    None => None,
                    Some(v) => match first_position(old(self).links@, v) {
                        None => None::<usize>,
                        Some(p) => Some(p as usize),
                    },
                }
            },
    {
        let t = match time {
            Ok(t) => t,
            Err(_) => {
                return None;
            },
        };
        let next = match self.scheduler.next(t) {
            Some(v) => v,
            None => {
                return None;
            },
        };
        let found = links_for(self.links.as_slice(), next);
        proof {
            let p = positions_of(self.links@, next, self.links@.len() as int);
            lemma_positions_in_range(self.links@, next, self.links@.len() as int);
            assert(found@.len() == p.len());
            if p.len() > 0 {
                assert(found@.map_values(|i: usize| i as int)[0] == p[0]);
            }
        }
        if found.len() > 0 {
            Some(found[0])
        } else {
            None
        }
    }

    /// One forwarding round, given the virtual link of the frame that each
    /// interface received, in order (`None` where it received none), and
    /// the time that the clock read.
    ///
    /// Each received frame goes to every virtual link with its id. Then the
    /// virtual link that `local_to_send` picks sends its local message on
    /// every interface that it connects to.
    pub fn forward(
        &mut self,
        received: &[Option<VirtualLinkId>],
        time: Result<Duration, InvalidTimeError>,
    ) -> (r: RoundPlan)
        requires
            old(self).wf(),
            time matches Ok(t) ==> old(self).scheduler.round_in_bounds(t@),
        ensures
            final(self).wf(),
            final(self).links@ == old(self).links@,
            final(self).connects@ == old(self).connects@,
            final(self).interfaces@ == old(self).interfaces@,
            r.remote@.len() == received@.len(),
            forall|i: int|
                0 <= i < received@.len() ==> (#[trigger] r.remote@[i])@.map_values(|k: usize| k as int)
                    == match received@[i] {
                    None => Seq::<int>::empty(),
                    Some(vl) => positions_of(old(self).links@, vl, old(self).links@.len() as int),
                },
            time is Err ==> r.local is None && final(self).scheduler == old(self).scheduler,
            time matches Ok(t) ==> {
                &&& scheduled_state(old(self).scheduler, t@, final(self).scheduler)
                &&& match scheduled(old(self).scheduler, t@) {
                    None => r.local is None,
                    Some(v) => match first_position(old(self).links@, v) {
                        None => r.local is None,
                        Some(p) => r.local matches Some((q, ifs)) && q == p && ifs@.map_values(
                            |k: usize| k as int,
                        ) == connected_positions(
                            old(self).connects_of(p),
                            old(self).interfaces@,
                            old(self).interfaces@.len() as int,
                        ),
                    },
                }
            },
    {
        let mut remote: Vec<Vec<usize>> = Vec::new();
        let mut i: usize = 0;
        while i < received.len()
            invariant
                0 <= i <= received@.len(),
                remote@.len() == i,
                forall|j: int|
                    0 <= j < i ==> (#[trigger] remote@[j])@.map_values(|k: usize| k as int)
                        == match received@[j] {
                        None => Seq::<int>::empty(),
                        Some(vl) => positions_of(self.links@, vl, self.links@.len() as int),
                    },
            decreases received@.len() - i,
        {
            let targets = match received[i] {
                None => {
                    let e: Vec<usize> = Vec::new();
                    assert(e@.map_values(|k: usize| k as int) =~= Seq::<int>::empty());
                    e
                },
                Some(vl) => self.receivers(vl),
            };
            remote.push(targets);
            i = i + 1;
        }
        let ghost before = *self;
        let ghost tm = time;
        let picked = self.local_to_send(time);
        let local = match picked {
            None => None,
            Some(p) => {
                let ifs = interfaces_for(self.connects[p].as_slice(), self.interfaces.as_slice());
                proof {
                    assert(self.connects@[p as int]@ == before.connects_of(p as int));
                    if let Ok(t) = tm {
                        if let Some(v) = scheduled(before.scheduler, t@) {
                            if let Some(q) = first_position(before.links@, v) {
                                lemma_positions_in_range(before.links@, v, before.links@.len() as int);
                                assert(q == p as int);
                            }
                        }
                    }
                }
                Some((p, ifs))
            },
        };
        RoundPlan { remote, local }
    }
}

/// Every position of `vl` among the first `n` entries of `links` is one of
/// those entries, and holds `vl`.
pub proof fn lemma_positions_in_range(links: Seq<VirtualLinkId>, vl: VirtualLinkId, n: int)
    requires
        n <= links.len(),
    ensures
        forall|k: int|
            0 <= k < positions_of(links, vl, n).len() ==> 0 <= #[trigger] positions_of(
                links,
                vl,
                n,
            )[k] < n && links[positions_of(links, vl, n)[k]] == vl,
    decreases n,
{
    if n > 0 {
        lemma_positions_in_range(links, vl, n - 1);
        let prev = positions_of(links, vl, n - 1);
        let cur = positions_of(links, vl, n);
        if links[n - 1] == vl {
            assert forall|k: int| 0 <= k < cur.len() implies 0 <= #[trigger] cur[k] < n && links[cur[k]]
                == vl by {
                if k < prev.len() {
                    assert(cur[k] == prev[k]);
                }
            }
        }
    }
}

} // verus!
