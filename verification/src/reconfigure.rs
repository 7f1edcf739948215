//! Reconfiguration of the router from a collection of named inputs and
//! outputs.

use crate::config::{valid_port_name, PortName, VirtualLinksConfig};
use crate::map::{seq_get, seq_has, seq_insert, seq_pos, BoundedMap};
use crate::network::PayloadSize;
use crate::router::{mtu_mismatch, routes_of, Endpoint, RouteTable, StateBuilder};
use crate::scheduler::DeadlineRrScheduler;
use crate::time::{Duration, MAX_NANOS};
use crate::types::VirtualLinkId;
use vstd::prelude::*;

verus! {

/// An error in a configuration that the configurator applies.
#[derive(Clone, Copy, Debug, PartialEq, Eq, Structural)]
pub enum CfgError {
    /// The source of a virtual link is no input.
    InvalidInput,
    /// A destination of a virtual link is no output.
    InvalidOutput,
    /// A virtual link cannot be routed.
    InvalidVl,
    /// Insufficient storage for configuration
    Storage,
    /// Invalid configuration format
    Format,
}

impl CfgError {
    /// A sentence that describes the error.
    pub fn message(&self) -> (s: &'static str)
        ensures
            *self == CfgError::InvalidInput ==> s@ == "Invalid router input"@,
            *self == CfgError::InvalidOutput ==> s@ == "Invalid router output"@,
            *self == CfgError::InvalidVl ==> s@ == "Invalid virtual link"@,
            *self == CfgError::Storage ==> s@ == "Insufficient storage for configuration"@,
            *self == CfgError::Format ==> s@ == "Invalid configuration format"@,
    {
        match self {
            CfgError::InvalidInput => "Invalid router input",
            CfgError::InvalidOutput => "Invalid router output",
            CfgError::InvalidVl => "Invalid virtual link",
            CfgError::Storage => "Insufficient storage for configuration",
            CfgError::Format => "Invalid configuration format",
        }
    }
}

/// Collection of inputs and outputs, by name, with their MTUs.
///
/// Use this to pass resources like ports into the router.
#[derive(Debug)]
pub struct Resources<const I: usize, const O: usize> {
    /// The inputs.
    pub inputs: BoundedMap<PortName, PayloadSize, I>,
    /// The outputs.
    pub outputs: BoundedMap<PortName, PayloadSize, O>,
}

impl<const I: usize, const O: usize> Resources<I, O> {
    /// Both maps are well formed.
    pub open spec fn wf(&self) -> bool {
        self.inputs.wf() && self.outputs.wf()
    }

    /// Creates a new empty resource collection.
    pub fn new() -> (r: Self)
        ensures
            r.wf(),
            r.inputs@ == Seq::<(Seq<char>, PayloadSize)>::empty(),
            r.outputs@ == Seq::<(Seq<char>, PayloadSize)>::empty(),
    {
        Resources { inputs: BoundedMap::new(), outputs: BoundedMap::new() }
    }

    /// Retrieves an input.
    pub fn get_input(&self, name: &str) -> (r: Option<Endpoint>)
        requires
            self.wf(),
            valid_port_name(name@),
        ensures
            seq_has(self.inputs@, name@) ==> (r matches Some(e) && e@ == (name@, seq_get(self.inputs@, name@))),
            !seq_has(self.inputs@, name@) ==> r is None,
    {
        let key = match PortName::from_str(name) {
            Ok(k) => k,
            Err(_) => {
                return None;
            },
        };
        match self.inputs.find(&key) {
            Some(k) => {
                assert(self.inputs@[k as int].1 == self.inputs.entries@[k as int].1);
                Some(Endpoint { name: key, mtu: self.inputs.entries[k].1 })
            },
            None => None,
        }
    }

    /// Retrieves an output.
    pub fn get_output(&self, name: &str) -> (r: Option<Endpoint>)
        requires
            self.wf(),
            valid_port_name(name@),
        ensures
            seq_has(self.outputs@, name@) ==> (r matches Some(e) && e@ == (name@, seq_get(self.outputs@, name@))),
            !seq_has(self.outputs@, name@) ==> r is None,
    {
        let key = match PortName::from_str(name) {
            Ok(k) => k,
            Err(_) => {
                return None;
            },
        };
        match self.outputs.find(&key) {
            Some(k) => {
                assert(self.outputs@[k as int].1 == self.outputs.entries@[k as int].1);
                Some(Endpoint { name: key, mtu: self.outputs.entries[k].1 })
            },
            None => None,
        }
    }

    /// Inserts an input of MTU `mtu`; an input of that name gets the new
    /// MTU. Fails with `Storage` where the inputs are full.
    pub fn insert_input(&mut self, name: &str, mtu: PayloadSize) -> (r: Result<(), CfgError>)
        requires
            old(self).wf(),
            valid_port_name(name@),
        ensures
            final(self).wf(),
            final(self).outputs@ == old(self).outputs@,
            (seq_has(old(self).inputs@, name@) || old(self).inputs@.len() < I) ==> r is Ok
                && final(self).inputs@ == seq_insert(old(self).inputs@, name@, mtu),
            !(seq_has(old(self).inputs@, name@) || old(self).inputs@.len() < I) ==> r
                == Err::<(), CfgError>(CfgError::Storage) && final(self).inputs@ == old(self).inputs@,
    {
        let key = match PortName::from_str(name) {
            Ok(k) => k,
            Err(_) => {
                return Err(CfgError::Storage);
            },
        };
        match self.inputs.insert(key, mtu) {
            Ok(_) => Ok(()),
            Err(_) => Err(CfgError::Storage),
        }
    }

    /// Inserts an output of MTU `mtu`; an output of that name gets the new
    /// MTU. Fails with `Storage` where the outputs are full.
    pub fn insert_output(&mut self, name: &str, mtu: PayloadSize) -> (r: Result<(), CfgError>)
        requires
            old(self).wf(),
            valid_port_name(name@),
        ensures
            final(self).wf(),
            final(self).inputs@ == old(self).inputs@,
            (seq_has(old(self).outputs@, name@) || old(self).outputs@.len() < O) ==> r is Ok
                && final(self).outputs@ == seq_insert(old(self).outputs@, name@, mtu),
            !(seq_has(old(self).outputs@, name@) || old(self).outputs@.len() < O) ==> r
                == Err::<(), CfgError>(CfgError::Storage) && final(self).outputs@ == old(self).outputs@,
    {
        let key = match PortName::from_str(name) {
            Ok(k) => k,
            Err(_) => {
                return Err(CfgError::Storage);
            },
        };
        match self.outputs.insert(key, mtu) {
            Ok(_) => Ok(()),
            Err(_) => Err(CfgError::Storage),
        }
    }

    /// The same inputs and outputs in a collection of other capacities.
    pub fn grow<const I2: usize, const O2: usize>(self) -> (r: Resources<I2, O2>)
        requires
            self.wf(),
            self.inputs@.len() <= I2,
            self.outputs@.len() <= O2,
        ensures
            r.wf(),
            r.inputs@ == self.inputs@,
            r.outputs@ == self.outputs@,
    {
        Resources {
            inputs: BoundedMap { entries: self.inputs.entries },
            outputs: BoundedMap { entries: self.outputs.entries },
        }
    }
}

/// The error that the virtual link `v` gives the configurator: its source
/// is no input, a destination is no output, or an output has another MTU
/// than the input.
pub open spec fn cfg_vl_error(
    ins: Seq<(Seq<char>, PayloadSize)>,
    outs: Seq<(Seq<char>, PayloadSize)>,
    v: crate::config::VirtualLinkView,
) -> Option<CfgError> {
    if !seq_has(ins, v.src) {
        Some(CfgError::InvalidInput)
    } else if exists|k: int| 0 <= k < v.dsts.len() && !seq_has(outs, #[trigger] v.dsts[k]) {
        Some(CfgError::InvalidOutput)
    } else if exists|k: int|
        0 <= k < v.dsts.len() && seq_get(outs, #[trigger] v.dsts[k]) != seq_get(ins, v.src) {
        Some(CfgError::InvalidVl)
    } else {
        None
    }
}

/// The error of the first virtual link of `vls`, from position `i` on, that
/// gives the configurator one.
pub open spec fn cfg_error_from(
    vls: Seq<(u32, crate::config::VirtualLinkView)>,
    ins: Seq<(Seq<char>, PayloadSize)>,
    outs: Seq<(Seq<char>, PayloadSize)>,
    i: int,
) -> Option<CfgError>
    decreases vls.len() - i,
{
    if i < 0 || i >= vls.len() {
        None
    } else {
        match cfg_vl_error(ins, outs, vls[i].1) {
            Some(e) => Some(e),
            None => cfg_error_from(vls, ins, outs, i + 1),
        }
    }
}

/// `after` is the scheduler `before` reconfigured for the virtual links
/// `vls`: unchanged where there are none, and otherwise a window for each of
/// them, in order, due one period after the beginning of time.
pub open spec fn reconfigured<const I: usize>(
    before: DeadlineRrScheduler<I>,
    vls: Seq<(u32, crate::config::VirtualLinkView)>,
    after: DeadlineRrScheduler<I>,
) -> bool {
    if vls.len() == 0 {
        after == before
    } else {
        &&& after.wf()
        &&& after.last_window == 0
        &&& after.windows.len() == vls.len()
        &&& forall|i: int|
            0 <= i < vls.len() ==> {
                let w = #[trigger] after.windows@[i];
                &&& w.vl@ == vls[i].0
                &&& w.period@ == vls[i].1.period
                &&& w.last@ == vls[i].1.period
            }
    }
}

/// Configurator
#[derive(Debug, Clone, Copy)]
pub struct Configurator;

impl Configurator {
    /// Reconfigures the router for the virtual links of `cfg`: gives the
    /// scheduler a window for each of them, in order, due one period after
    /// the beginning of time, and returns their route table, as
    /// `route_table` builds it.
    ///
    /// Where `cfg` holds no virtual link the scheduler is left as it is. The
    /// scheduler is reconfigured before the routes are checked, so it keeps
    /// its new windows where a route is refused.
    pub fn reconfigure<const I: usize, const O: usize>(
        resources: &Resources<I, O>,
        scheduler: &mut DeadlineRrScheduler<I>,
        cfg: &VirtualLinksConfig<I, O>,
    ) -> (r: Result<RouteTable<I, O>, CfgError>)
        requires
            resources.wf(),
            cfg.wf(),
        ensures
            reconfigured(*old(scheduler), cfg@, *final(scheduler)),
            match cfg_error_from(cfg@, resources.inputs@, resources.outputs@, 0) {
                Some(e) => r == Err::<RouteTable<I, O>, CfgError>(e),
                None => r matches Ok(t) && t.routes.wf() && t.routes@ == routes_of(
                    cfg@,
                    resources.inputs@,
                    resources.outputs@,
                ),
            },
    {
        if cfg.entries.len() > 0 {
            let ghost vls = cfg@;
            let mut slots: Vec<(VirtualLinkId, Duration)> = Vec::new();
            let mut i: usize = 0;
            while i < cfg.entries.len()
                invariant
                    vls == cfg@,
                    cfg.wf(),
                    0 <= i <= vls.len(),
                    slots.len() == i,
                    forall|k: int|
                        0 <= k < i ==> (#[trigger] slots@[k]).0@ == vls[k].0 && slots@[k].1@
                            == vls[k].1.period && slots@[k].1@ <= MAX_NANOS,
                decreases vls.len() - i,
            {
                let period = cfg.entries[i].1.period;
                let nanos: u128 = period.as_nanos();
                assert(period@ == nanos && nanos <= MAX_NANOS);
                slots.push((cfg.entries[i].0, period));
                i = i + 1;
            }
            let start = Duration::zero();
            proof {
                assert forall|k: int| 0 <= k < slots@.len() implies start@ + (
                #[trigger] slots@[k]).1@ <= MAX_NANOS by {}
            }
            match DeadlineRrScheduler::<I>::try_new(slots.as_slice(), &start) {
                Ok(s) => {
                    *scheduler = s;
                },
                Err(_) => {
                    return Err(CfgError::Storage);
                },
            }
        }
        Self::route_table(resources, cfg)
    }

    /// The route table of the virtual links of `cfg` over the inputs and
    /// outputs of `resources`.
    ///
    /// Each virtual link, in order, must have a source among the inputs and
    /// destinations among the outputs, each with the MTU of the source.
    pub fn route_table<const I: usize, const O: usize>(
        resources: &Resources<I, O>,
        cfg: &VirtualLinksConfig<I, O>,
    ) -> (r: Result<RouteTable<I, O>, CfgError>)
        requires
            resources.wf(),
            cfg.wf(),
        ensures
            match cfg_error_from(cfg@, resources.inputs@, resources.outputs@, 0) {
                Some(e) => r == Err::<RouteTable<I, O>, CfgError>(e),
                None => r matches Ok(t) && t.routes.wf() && t.routes@ == routes_of(
                    cfg@,
                    resources.inputs@,
                    resources.outputs@,
                ),
            },
    {
        let ghost ins = resources.inputs@;
        let ghost outs = resources.outputs@;
        let ghost vls = cfg@;
        let mut b: StateBuilder<I, O> = StateBuilder::new();
        let mut i: usize = 0;
        while i < cfg.entries.len()
            invariant
                cfg.wf(),
                resources.wf(),
                vls == cfg@,
                ins == resources.inputs@,
                outs == resources.outputs@,
                0 <= i <= vls.len(),
                b.vls.wf(),
                b.vls@ == routes_of(vls.take(i as int), ins, outs),
                cfg_error_from(vls, ins, outs, 0) == cfg_error_from(vls, ins, outs, i as int),
            decreases vls.len() - i,
        {
            let vl = &cfg.entries[i].0;
            let c = &cfg.entries[i].1;
            let ghost v = vls[i as int].1;
            assert(v == c@);
            let input_mtu = match resources.inputs.find(&c.src) {
                Some(k) => {
                    assert(ins[k as int].1 == resources.inputs.entries@[k as int].1);
                    resources.inputs.entries[k].1
                },
                None => {
                    proof {
                        assert(cfg_vl_error(ins, outs, v) == Some(CfgError::InvalidInput));
                        assert(cfg_error_from(vls, ins, outs, i as int) == Some(CfgError::InvalidInput));
                    }
                    return Err(CfgError::InvalidInput);
                },
            };
            assert(input_mtu == seq_get(ins, v.src));
            let mut outputs: Vec<Endpoint> = Vec::new();
            let mut j: usize = 0;
            while j < c.dsts.len()
                invariant
                    vls == cfg@,
                    0 <= i < vls.len(),
                    c == &cfg.entries[i as int].1,
                    v == c@,
                    resources.wf(),
                    ins == resources.inputs@,
                    outs == resources.outputs@,
                    seq_has(ins, v.src),
                    0 <= j <= c.dsts.len(),
                    outputs.len() == j,
                    outputs@.map_values(|e: Endpoint| e@) == v.dsts.take(j as int).map_values(
                        |d: Seq<char>| (d, seq_get(outs, d)),
                    ),
                    forall|k: int| 0 <= k < j ==> seq_has(outs, #[trigger] v.dsts[k]),
                    cfg_error_from(vls, ins, outs, 0) == cfg_error_from(vls, ins, outs, i as int),
                decreases c.dsts.len() - j,
            {
                let d = &c.dsts[j];
                assert(v.dsts[j as int] == d@);
                let mtu = match resources.outputs.find(d) {
                    Some(k) => {
                        assert(outs[k as int].1 == resources.outputs.entries@[k as int].1);
                        resources.outputs.entries[k].1
                    },
                    None => {
                        proof {
                            assert(!seq_has(outs, v.dsts[j as int]));
                            assert(cfg_vl_error(ins, outs, v) == Some(CfgError::InvalidOutput));
                            assert(cfg_error_from(vls, ins, outs, i as int) == Some(CfgError::InvalidOutput));
                        }
                        return Err(CfgError::InvalidOutput);
                    },
                };
                assert(mtu == seq_get(outs, d@));
                let ghost prev = outputs@;
                outputs.push(Endpoint { name: d.clone(), mtu });
                proof {
                    let f = |e: Endpoint| e@;
                    let g = |d: Seq<char>| (d, seq_get(outs, d));
                    assert(v.dsts.take(j + 1) =~= v.dsts.take(j as int).push(d@));
                    assert(outputs@ =~= prev.push(outputs@[j as int]));
                    assert(outputs@.map_values(f) =~= prev.map_values(f).push((d@, mtu)));
                    assert(v.dsts.take(j + 1).map_values(g) =~= v.dsts.take(j as int).map_values(g).push((d@, mtu)));
                }
                j = j + 1;
            }
            let ghost route = crate::router::route_of(ins, outs, v);
            proof {
                assert(v.dsts.take(c.dsts.len() as int) =~= v.dsts);
                if seq_has(b.vls@, vl@) {
                    let p = seq_pos(b.vls@, vl@);
                    assert(vls[p].0 != vls[i as int].0);
                }
            }
            let input = Endpoint { name: c.src.clone(), mtu: input_mtu };
            match b.route(vl, input, outputs) {
                Ok(()) => {},
                Err(_) => {
                    proof {
                        assert(mtu_mismatch(route.outputs, input_mtu));
                        let k = choose|k: int| 0 <= k < route.outputs.len() && (#[trigger] route.outputs[k]).1 != input_mtu;
                        assert(seq_get(outs, v.dsts[k]) != seq_get(ins, v.src));
                        assert(cfg_vl_error(ins, outs, v) == Some(CfgError::InvalidVl));
                        assert(cfg_error_from(vls, ins, outs, i as int) == Some(CfgError::InvalidVl));
                    }
                    return Err(CfgError::InvalidVl);
                },
            }
            proof {
                assert(!mtu_mismatch(route.outputs, input_mtu));
                assert forall|k: int| 0 <= k < v.dsts.len() implies seq_get(outs, #[trigger] v.dsts[k]) == seq_get(ins, v.src) by {
                    assert(route.outputs[k].1 == input_mtu);
                }
                assert(cfg_vl_error(ins, outs, v) is None);
                assert(routes_of(vls.take(i + 1), ins, outs) =~= routes_of(vls.take(i as int), ins, outs).push((vl@, route)));
            }
            i = i + 1;
        }
        proof {
            assert(vls.take(vls.len() as int) =~= vls);
        }
        match b.build() {
            Ok(t) => Ok(t),
            Err(_) => Err(CfgError::Storage),
        }
    }
}

} // verus!
