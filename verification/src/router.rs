//! Route tables of the router and the checks made while building them.
//!
//! The router forwards each virtual link from its input to its outputs. An
//! input or output is a hypervisor port or a network interface; the library
//! knows it by its name and its maximum transfer unit, and the platform code
//! holds the port or driver behind the name.

use crate::config::{
    InterfacesConfig, PortConfig, PortName, PortsConfig, RouterConfigError, VirtualLinksConfig,
};
use crate::map::{lemma_seq_pos_unique, seq_get, seq_has, seq_pos, seq_unique, BoundedMap, MapKey};
use crate::error::Error;
use crate::network::{InterfaceError, NetworkInterface, PayloadSize, PlatformNetworkInterface};
use crate::ports::PortError;
use crate::reconfigure::Resources;
use crate::scheduler::{DeadlineRrScheduler, InvalidTimeError, ScheduleError, ScheduleErrorKind, Window};
use crate::time::{Duration, MAX_NANOS};
use crate::types::VirtualLinkId;
use vstd::prelude::*;

verus! {

/// The kind of a hypervisor port used by the router.
#[derive(Debug, Clone, Copy, PartialEq, Eq, Structural)]
pub enum PortKind {
    /// Sampling port destination: an input.
    SamplingIn,
    /// Sampling port source: an output.
    SamplingOut,
    /// Queuing port receiver: an input.
    QueuingIn,
    /// Queuing port sender: an output.
    QueuingOut,
}

/// Messages of a port of this kind enter the router.
pub open spec fn is_input_kind(k: PortKind) -> bool {
    k is SamplingIn || k is QueuingIn
}

/// A network interface of the router.
#[derive(Debug, Clone, Copy, PartialEq, Eq, Structural)]
pub struct InterfaceResource {
    /// Maximum transfer unit.
    pub mtu: PayloadSize,
}

impl View for InterfaceResource {
    type V = InterfaceResource;

    open spec fn view(&self) -> InterfaceResource {
        *self
    }
}

/// A hypervisor port of the router.
#[derive(Debug, Clone, Copy, PartialEq, Eq, Structural)]
pub struct PortResource {
    /// Direction and kind of the port.
    pub kind: PortKind,
    /// Maximum message size.
    pub mtu: PayloadSize,
}

impl View for PortResource {
    type V = PortResource;

    open spec fn view(&self) -> PortResource {
        *self
    }
}

/// The resources used by the router: its network interfaces and its
/// hypervisor ports, by name.
#[derive(Debug)]
pub struct RouterResources<const IFS: usize, const PORTS: usize> {
    /// Network interfaces.
    pub net_ifs: BoundedMap<PortName, InterfaceResource, IFS>,
    /// Hypervisor ports.
    pub ports: BoundedMap<PortName, PortResource, PORTS>,
}

/// The kind of port that `cfg` configures.
pub open spec fn kind_of(cfg: PortConfig) -> PortKind {
    match cfg {
        PortConfig::SamplingIn(_) => PortKind::SamplingIn,
        PortConfig::SamplingOut(_) => PortKind::SamplingOut,
        PortConfig::QueuingIn(_) => PortKind::QueuingIn,
        PortConfig::QueuingOut(_) => PortKind::QueuingOut,
    }
}

/// The message size that `cfg` configures.
pub open spec fn msg_size_of(cfg: PortConfig) -> u32 {
    match cfg {
        PortConfig::SamplingIn(c) => c.msg_size,
        PortConfig::SamplingOut(c) => c.msg_size,
        PortConfig::QueuingIn(c) => c.msg_size,
        PortConfig::QueuingOut(c) => c.msg_size,
    }
}

/// `ports` describes the configured ports `cfg`: one port for each, in
/// order, with its name, of its kind and with its message size as MTU.
pub open spec fn describes_ports(
    cfg: Seq<(Seq<char>, PortConfig)>,
    ports: Seq<(Seq<char>, PortResource)>,
) -> bool {
    &&& ports.len() == cfg.len()
    &&& forall|i: int|
        0 <= i < cfg.len() ==> #[trigger] ports[i] == (
            cfg[i].0,
            PortResource { kind: kind_of(cfg[i].1), mtu: msg_size_of(cfg[i].1) as usize },
        )
}

/// Each configured port keeps its direction: a sampling port destination
/// or a queuing port receiver is described as an input of the router, a
/// sampling port source or a queuing port sender as an output, each of the
/// kind it is configured as and with its configured message size as MTU.
pub proof fn lemma_ports_keep_direction(
    cfg: Seq<(Seq<char>, PortConfig)>,
    ports: Seq<(Seq<char>, PortResource)>,
)
    requires
        describes_ports(cfg, ports),
    ensures
        forall|i: int|
            0 <= i < cfg.len() ==> (#[trigger] ports[i]).0 == cfg[i].0 && match cfg[i].1 {
                PortConfig::SamplingIn(c) => ports[i].1 == (PortResource {
                    kind: PortKind::SamplingIn,
                    mtu: c.msg_size as usize,
                }) && is_input_kind(ports[i].1.kind),
                PortConfig::SamplingOut(c) => ports[i].1 == (PortResource {
                    kind: PortKind::SamplingOut,
                    mtu: c.msg_size as usize,
                }) && !is_input_kind(ports[i].1.kind),
                PortConfig::QueuingIn(c) => ports[i].1 == (PortResource {
                    kind: PortKind::QueuingIn,
                    mtu: c.msg_size as usize,
                }) && is_input_kind(ports[i].1.kind),
                PortConfig::QueuingOut(c) => ports[i].1 == (PortResource {
                    kind: PortKind::QueuingOut,
                    mtu: c.msg_size as usize,
                }) && !is_input_kind(ports[i].1.kind),
            },
{
}

impl<const IFS: usize, const PORTS: usize> RouterResources<IFS, PORTS> {
    /// Both maps are well formed.
    pub open spec fn wf(&self) -> bool {
        self.net_ifs.wf() && self.ports.wf()
    }

    /// Describes the resources that the configuration asks for: one network
    /// interface for each configured interface, with its MTU, and one port
    /// for each configured port, of its kind and with its message size as
    /// MTU.
    pub fn create(interfaces_cfg: &InterfacesConfig<IFS>, ports_cfg: &PortsConfig<PORTS>) -> (r:
        Self)
        requires
            interfaces_cfg.wf(),
            ports_cfg.wf(),
        ensures
            r.wf(),
            r.net_ifs@.len() == interfaces_cfg@.len(),
            forall|i: int|
                0 <= i < interfaces_cfg@.len() ==> #[trigger] r.net_ifs@[i] == (
                interfaces_cfg@[i].0,
                InterfaceResource { mtu: interfaces_cfg@[i].1.mtu },
            ),
            describes_ports(ports_cfg@, r.ports@),
    {
        let mut net_ifs: Vec<(PortName, InterfaceResource)> = Vec::new();
        let mut i: usize = 0;
        while i < interfaces_cfg.entries.len()
            invariant
                0 <= i <= interfaces_cfg.entries.len(),
                interfaces_cfg.wf(),
                net_ifs.len() == i,
                forall|j: int|
                    0 <= j < i ==> (#[trigger] net_ifs@[j]).0@ == interfaces_cfg@[j].0 && net_ifs@[j].1
                        == (InterfaceResource { mtu: interfaces_cfg@[j].1.mtu }),
            decreases interfaces_cfg.entries.len() - i,
        {
            let name = interfaces_cfg.entries[i].0.clone();
            let mtu = interfaces_cfg.entries[i].1.mtu;
            net_ifs.push((name, InterfaceResource { mtu }));
            i = i + 1;
        }
        let mut ports: Vec<(PortName, PortResource)> = Vec::new();
        let mut i: usize = 0;
        while i < ports_cfg.entries.len()
            invariant
                0 <= i <= ports_cfg.entries.len(),
                ports_cfg.wf(),
                ports.len() == i,
                forall|j: int|
                    0 <= j < i ==> (#[trigger] ports@[j]).0@ == ports_cfg@[j].0 && ports@[j].1
                        == (PortResource {
                        kind: kind_of(ports_cfg@[j].1),
                        mtu: msg_size_of(ports_cfg@[j].1) as usize,
                    }),
            decreases ports_cfg.entries.len() - i,
        {
            let name = ports_cfg.entries[i].0.clone();
            let cfg = ports_cfg.entries[i].1;
            let (kind, size) = match cfg {
                PortConfig::SamplingIn(c) => (PortKind::SamplingIn, c.msg_size),
                PortConfig::SamplingOut(c) => (PortKind::SamplingOut, c.msg_size),
                PortConfig::QueuingIn(c) => (PortKind::QueuingIn, c.msg_size),
                PortConfig::QueuingOut(c) => (PortKind::QueuingOut, c.msg_size),
            };
            ports.push((name, PortResource { kind, mtu: size as usize }));
            i = i + 1;
        }
        let r = RouterResources {
            net_ifs: BoundedMap { entries: net_ifs },
            ports: BoundedMap { entries: ports },
        };
        proof {
            assert forall|a: int, b: int| 0 <= a < b < r.net_ifs@.len() implies (
            #[trigger] r.net_ifs@[a]).0 != (#[trigger] r.net_ifs@[b]).0 by {
                assert(interfaces_cfg@[a].0 != interfaces_cfg@[b].0);
            }
            assert forall|a: int, b: int| 0 <= a < b < r.ports@.len() implies (
            #[trigger] r.ports@[a]).0 != (#[trigger] r.ports@[b]).0 by {
                assert(ports_cfg@[a].0 != ports_cfg@[b].0);
            }
        }
        r
    }
}

/// An input or output of the router, by name, with its maximum transfer
/// unit.
#[derive(Debug)]
pub struct Endpoint {
    /// The name of the port or interface.
    pub name: PortName,
    /// Maximum transfer unit.
    pub mtu: PayloadSize,
}

impl View for Endpoint {
    type V = (Seq<char>, PayloadSize);

    open spec fn view(&self) -> (Seq<char>, PayloadSize) {
        (self.name@, self.mtu)
    }
}

impl Clone for Endpoint {
    fn clone(&self) -> (e: Self)
        ensures
            e@ == self@,
    {
        Endpoint { name: self.name.clone(), mtu: self.mtu }
    }
}

/// Where a virtual link comes from and where it goes.
#[derive(Debug)]
pub struct Route {
    /// The input the virtual link is read from.
    pub input: Endpoint,
    /// The outputs it is written to, in order.
    pub outputs: Vec<Endpoint>,
}

/// What a route holds, as plain values.
pub struct RouteView {
    /// Name and MTU of the input.
    pub input: (Seq<char>, PayloadSize),
    /// Names and MTUs of the outputs, in order.
    pub outputs: Seq<(Seq<char>, PayloadSize)>,
}

impl View for Route {
    type V = RouteView;

    open spec fn view(&self) -> RouteView {
        RouteView { input: self.input@, outputs: self.outputs@.map_values(|e: Endpoint| e@) }
    }
}

/// A copy of a sequence of endpoints.
fn clone_endpoints(v: &Vec<Endpoint>) -> (r: Vec<Endpoint>)
    ensures
        r@.map_values(|e: Endpoint| e@) == v@.map_values(|e: Endpoint| e@),
        r.len() == v.len(),
{
    let mut r: Vec<Endpoint> = Vec::new();
    let mut i: usize = 0;
    while i < v.len()
        invariant
            0 <= i <= v.len(),
            r.len() == i,
            forall|j: int| 0 <= j < i ==> (#[trigger] r@[j])@ == v@[j]@,
        decreases v.len() - i,
    {
        r.push(v[i].clone());
        i = i + 1;
    }
    proof {
        assert(r@.map_values(|e: Endpoint| e@) =~= v@.map_values(|e: Endpoint| e@));
    }
    r
}

impl Clone for Route {
    fn clone(&self) -> (r: Self)
        ensures
            r@ == self@,
    {
        Route { input: self.input.clone(), outputs: clone_endpoints(&self.outputs) }
    }
}

/// The route table of the router: a route for each virtual link.
#[derive(Debug)]
pub struct RouteTable<const I: usize, const O: usize> {
    /// The routes by virtual link id.
    pub routes: BoundedMap<VirtualLinkId, Route, I>,
}

/// An error occured while routing a message.
#[derive(Clone, Debug, PartialEq, Eq, Structural)]
pub enum RouteError {
    /// Invalid virtual link
    InvalidVl,
}

impl<const I: usize, const O: usize> RouteTable<I, O> {
    /// The route of virtual link `vl`, or `InvalidVl` where there is none.
    pub fn route(&self, vl: &VirtualLinkId) -> (r: Result<Route, RouteError>)
        requires
            self.routes.wf(),
        ensures
            seq_has(self.routes@, vl@) ==> (r matches Ok(route) && route@ == seq_get(
                self.routes@,
                vl@,
            )),
            !seq_has(self.routes@, vl@) ==> r == Err::<Route, RouteError>(RouteError::InvalidVl),
    {
        match self.routes.find(vl) {
            Some(i) => Ok(self.routes.entries[i].1.clone()),
            None => Err(RouteError::InvalidVl),
        }
    }
}

/// Builds the routes of a router.
#[derive(Debug)]
pub struct StateBuilder<const I: usize, const O: usize> {
    /// The routes added so far, by virtual link id.
    pub vls: BoundedMap<VirtualLinkId, Route, I>,
}

/// Some output of `outputs` has another MTU than `mtu`.
pub open spec fn mtu_mismatch(outputs: Seq<(Seq<char>, PayloadSize)>, mtu: PayloadSize) -> bool {
    exists|k: int| 0 <= k < outputs.len() && (#[trigger] outputs[k]).1 != mtu
}

impl<const I: usize, const O: usize> StateBuilder<I, O> {
    /// A builder without routes.
    pub fn new() -> (b: Self)
        ensures
            b.vls.wf(),
            b.vls@ == Seq::<(u32, RouteView)>::empty(),
    {
        StateBuilder { vls: BoundedMap::new() }
    }

    /// Adds the route of virtual link `vl` from `input` to `outputs`.
    ///
    /// Fails with `VirtualLink` where the virtual link has a route, with
    /// `Destination` where an output has another MTU than the input, and
    /// with `Storage` where the builder is full.
    pub fn route(&mut self, vl: &VirtualLinkId, input: Endpoint, outputs: Vec<Endpoint>) -> (r:
        Result<(), RouterConfigError>)
        requires
            old(self).vls.wf(),
        ensures
            final(self).vls.wf(),
            ({
                let before = old(self).vls@;
                let route = RouteView {
                    input: input@,
                    outputs: outputs@.map_values(|e: Endpoint| e@),
                };
                if seq_has(before, vl@) {
                    r == Err::<(), RouterConfigError>(RouterConfigError::VirtualLink)
                        && final(self).vls@ == before
                } else if mtu_mismatch(route.outputs, input.mtu) {
                    r == Err::<(), RouterConfigError>(RouterConfigError::Destination)
                        && final(self).vls@ == before
                } else if before.len() >= I {
                    r == Err::<(), RouterConfigError>(RouterConfigError::Storage)
                        && final(self).vls@ == before
                } else {
                    r is Ok && final(self).vls@ == before.push((vl@, route))
                }
            }),
    {
        if self.vls.contains_key(vl) {
            return Err(RouterConfigError::VirtualLink);
        }
        let input_msg_size = input.mtu;
        let mut k: usize = 0;
        while k < outputs.len()
            invariant
                0 <= k <= outputs.len(),
                *self == *old(self),
                self.vls.wf(),
                !seq_has(self.vls@, vl@),
                input_msg_size == input.mtu,
                forall|j: int| 0 <= j < k ==> (#[trigger] outputs@[j]).mtu == input_msg_size,
            decreases outputs.len() - k,
        {
            if outputs[k].mtu != input_msg_size {
                proof {
                    let ov = outputs@.map_values(|e: Endpoint| e@);
                    assert(ov[k as int].1 != input_msg_size);
                }
                return Err(RouterConfigError::Destination);
            }
            k = k + 1;
        }
        proof {
            let ov = outputs@.map_values(|e: Endpoint| e@);
            assert forall|j: int| 0 <= j < ov.len() implies (#[trigger] ov[j]).1 == input_msg_size by {
                assert(outputs@[j].mtu == input_msg_size);
            }
        }
        match self.vls.insert(*vl, Route { input, outputs }) {
            Ok(_) => Ok(()),
            Err(_) => Err(RouterConfigError::Storage),
        }
    }

    /// The route table holding the routes added so far.
    pub fn build(&self) -> (r: Result<RouteTable<I, O>, RouterConfigError>)
        requires
            self.vls.wf(),
        ensures
            r matches Ok(t) && t.routes.wf() && t.routes@ == self.vls@,
    {
        let mut routes: BoundedMap<VirtualLinkId, Route, I> = BoundedMap::new();
        let mut i: usize = 0;
        while i < self.vls.entries.len()
            invariant
                self.vls.wf(),
                0 <= i <= self.vls.entries.len(),
                routes.wf(),
                routes@ == self.vls@.subrange(0, i as int),
            decreases self.vls.entries.len() - i,
        {
            let id = self.vls.entries[i].0;
            if routes.contains_key(&id) {
                proof {
                    let k = seq_pos(routes@, id@);
                    assert(self.vls@[k].0 != self.vls@[i as int].0);
                }
                return Err(RouterConfigError::Destination);
            }
            let route = self.vls.entries[i].1.clone();
            let _ = routes.insert(id, route);
            proof {
                assert(self.vls@.subrange(0, i + 1) =~= self.vls@.subrange(0, i as int).push(
                    self.vls@[i as int],
                ));
            }
            i = i + 1;
        }
        proof {
            assert(self.vls@.subrange(0, self.vls.entries.len() as int) =~= self.vls@);
        }
        Ok(RouteTable { routes })
    }
}

/// The inputs or outputs that the interfaces give: every interface is both.
pub open spec fn if_endpoints(ifs: Seq<(Seq<char>, InterfaceResource)>) -> Seq<
    (Seq<char>, PayloadSize),
> {
    ifs.map_values(|e: (Seq<char>, InterfaceResource)| (e.0, e.1.mtu))
}

/// The inputs (where `input` holds) or outputs that the ports of `ports`
/// give, in order.
pub open spec fn port_endpoints(ports: Seq<(Seq<char>, PortResource)>, input: bool) -> Seq<
    (Seq<char>, PayloadSize),
>
    decreases ports.len(),
{
    if ports.len() == 0 {
        Seq::empty()
    } else {
        let rest = port_endpoints(ports.drop_last(), input);
        if is_input_kind(ports.last().1.kind) == input {
            rest.push((ports.last().0, ports.last().1.mtu))
        } else {
            rest
        }
    }
}

/// The inputs known once the interfaces and the first `j` ports are taken
/// in.
pub open spec fn inputs_before(
    ifs: Seq<(Seq<char>, InterfaceResource)>,
    ports: Seq<(Seq<char>, PortResource)>,
    j: int,
) -> Seq<(Seq<char>, PayloadSize)> {
    if_endpoints(ifs) + port_endpoints(ports.take(j), true)
}

/// The outputs known once the interfaces and the first `j` ports are taken
/// in.
pub open spec fn outputs_before(
    ifs: Seq<(Seq<char>, InterfaceResource)>,
    ports: Seq<(Seq<char>, PortResource)>,
    j: int,
) -> Seq<(Seq<char>, PayloadSize)> {
    if_endpoints(ifs) + port_endpoints(ports.take(j), false)
}

/// How often virtual links of `vls` use `s` as their source.
pub open spec fn count_src(vls: Seq<(u32, crate::config::VirtualLinkView)>, s: Seq<char>) -> nat
    decreases vls.len(),
{
    if vls.len() == 0 {
        0
    } else {
        count_src(vls.drop_last(), s) + if vls.last().1.src == s {
            1nat
        } else {
            0nat
        }
    }
}

/// How often `d` occurs in `ds`.
pub open spec fn count_in(ds: Seq<Seq<char>>, d: Seq<char>) -> nat
    decreases ds.len(),
{
    if ds.len() == 0 {
        0
    } else {
        count_in(ds.drop_last(), d) + if ds.last() == d {
            1nat
        } else {
            0nat
        }
    }
}

/// How often virtual links of `vls` use `d` as a destination.
pub open spec fn count_dst(vls: Seq<(u32, crate::config::VirtualLinkView)>, d: Seq<char>) -> nat
    decreases vls.len(),
{
    if vls.len() == 0 {
        0
    } else {
        count_dst(vls.drop_last(), d) + count_in(vls.last().1.dsts, d)
    }
}

/// The destination `d` is used twice, or is no output.
pub open spec fn dst_bad(
    vls: Seq<(u32, crate::config::VirtualLinkView)>,
    outs: Seq<(Seq<char>, PayloadSize)>,
    d: Seq<char>,
) -> bool {
    count_dst(vls, d) > 1 || !seq_has(outs, d)
}

/// The error that the virtual link `v` of `vls` gives, where it gives one:
/// its source is shared or is no input, a destination is shared or is no
/// output, or an output has another MTU than the input.
pub open spec fn vl_error(
    vls: Seq<(u32, crate::config::VirtualLinkView)>,
    ins: Seq<(Seq<char>, PayloadSize)>,
    outs: Seq<(Seq<char>, PayloadSize)>,
    v: crate::config::VirtualLinkView,
) -> Option<RouterConfigError> {
    if count_src(vls, v.src) > 1 || !seq_has(ins, v.src) {
        Some(RouterConfigError::Source)
    } else if exists|k: int| 0 <= k < v.dsts.len() && dst_bad(vls, outs, #[trigger] v.dsts[k]) {
        Some(RouterConfigError::Destination)
    } else if exists|k: int|
        0 <= k < v.dsts.len() && seq_get(outs, #[trigger] v.dsts[k]) != seq_get(ins, v.src) {
        Some(RouterConfigError::VirtualLink)
    } else {
        None
    }
}

/// The route that the configuration `v` of a virtual link gives.
pub open spec fn route_of(
    ins: Seq<(Seq<char>, PayloadSize)>,
    outs: Seq<(Seq<char>, PayloadSize)>,
    v: crate::config::VirtualLinkView,
) -> RouteView {
    RouteView {
        input: (v.src, seq_get(ins, v.src)),
        outputs: v.dsts.map_values(|d: Seq<char>| (d, seq_get(outs, d))),
    }
}

impl<const I: usize, const O: usize> RouteTable<I, O> {
    /// The error of the first port, from position `j` on, that cannot be
    /// taken in: its name is taken, or the inputs or outputs are full.
    pub open spec fn ports_error_from(
        ifs: Seq<(Seq<char>, InterfaceResource)>,
        ports: Seq<(Seq<char>, PortResource)>,
        j: int,
    ) -> Option<RouterConfigError>
        decreases ports.len() - j,
    {
        if j < 0 || j >= ports.len() {
            None
        } else if is_input_kind(ports[j].1.kind) {
            let ins = inputs_before(ifs, ports, j);
            if seq_has(ins, ports[j].0) {
                Some(RouterConfigError::Source)
            } else if ins.len() >= I {
                Some(RouterConfigError::Storage)
            } else {
                Self::ports_error_from(ifs, ports, j + 1)
            }
        } else {
            let outs = outputs_before(ifs, ports, j);
            if seq_has(outs, ports[j].0) {
                Some(RouterConfigError::Destination)
            } else if outs.len() >= O {
                Some(RouterConfigError::Storage)
            } else {
                Self::ports_error_from(ifs, ports, j + 1)
            }
        }
    }

    /// The error that taking in the resources gives, where it gives one.
    pub open spec fn resources_error(
        ifs: Seq<(Seq<char>, InterfaceResource)>,
        ports: Seq<(Seq<char>, PortResource)>,
    ) -> Option<RouterConfigError> {
        if ifs.len() > I || ifs.len() > O {
            Some(RouterConfigError::Storage)
        } else {
            Self::ports_error_from(ifs, ports, 0)
        }
    }
}

impl<const I: usize, const O: usize> RouteTable<I, O> {
    /// Takes in the interfaces and then the ports of `resources` as inputs and
    /// outputs, in order.
    fn endpoints<const IFS: usize, const PORTS: usize>(
        resources: &RouterResources<IFS, PORTS>,
    ) -> (r: Result<Resources<I, O>, RouterConfigError>)
        requires
            resources.wf(),
        ensures
            ({
                let ifs = resources.net_ifs@;
                let ports = resources.ports@;
                match Self::resources_error(ifs, ports) {
                    Some(e) => r == Err::<Resources<I, O>, RouterConfigError>(e),
                    None => r matches Ok(eps) && eps.inputs.wf() && eps.outputs.wf()
                        && eps.inputs@ == inputs_before(ifs, ports, ports.len() as int)
                        && eps.outputs@ == outputs_before(ifs, ports, ports.len() as int),
                }
            }),
    {
        let ghost ifs = resources.net_ifs@;
        let ghost ports = resources.ports@;
        let mut inputs: BoundedMap<PortName, PayloadSize, I> = BoundedMap::new();
        let mut outputs: BoundedMap<PortName, PayloadSize, O> = BoundedMap::new();
        let mut k: usize = 0;
        while k < resources.net_ifs.entries.len()
            invariant
                resources.wf(),
                ifs == resources.net_ifs@,
                ports == resources.ports@,
                0 <= k <= ifs.len(),
                k <= I,
                k <= O,
                inputs.wf(),
                outputs.wf(),
                inputs@ == if_endpoints(ifs.take(k as int)),
                outputs@ == if_endpoints(ifs.take(k as int)),
            decreases ifs.len() - k,
        {
            let name = resources.net_ifs.entries[k].0.clone();
            let mtu = resources.net_ifs.entries[k].1.mtu;
            proof {
                assert(if_endpoints(ifs.take(k + 1)) =~= if_endpoints(ifs.take(k as int)).push(
                    (name@, mtu),
                ));
                if seq_has(inputs@, name@) {
                    let p = seq_pos(inputs@, name@);
                    assert(ifs[p].0 != ifs[k as int].0);
                }
            }
            match inputs.insert(name.clone(), mtu) {
                Err(_) => {
                    return Err(RouterConfigError::Storage);
                },
                Ok(Some(_)) => {
                    return Err(RouterConfigError::Interface);
                },
                Ok(None) => {},
            }
            match outputs.insert(name, mtu) {
                Err(_) => {
                    return Err(RouterConfigError::Storage);
                },
                Ok(Some(_)) => {
                    return Err(RouterConfigError::Interface);
                },
                Ok(None) => {},
            }
            k = k + 1;
        }
        proof {
            assert(ifs.take(ifs.len() as int) =~= ifs);
            assert(ports.take(0) =~= Seq::<(Seq<char>, PortResource)>::empty());
            assert(inputs@ =~= inputs_before(ifs, ports, 0));
            assert(outputs@ =~= outputs_before(ifs, ports, 0));
        }
        let mut j: usize = 0;
        while j < resources.ports.entries.len()
            invariant
                resources.wf(),
                ifs == resources.net_ifs@,
                ports == resources.ports@,
                ifs.len() <= I,
                ifs.len() <= O,
                0 <= j <= ports.len(),
                inputs.wf(),
                outputs.wf(),
                inputs@ == inputs_before(ifs, ports, j as int),
                outputs@ == outputs_before(ifs, ports, j as int),
                Self::ports_error_from(ifs, ports, 0) == Self::ports_error_from(ifs, ports, j as int),
            decreases ports.len() - j,
        {
            let name = resources.ports.entries[j].0.clone();
            let p = resources.ports.entries[j].1;
            proof {
                assert(ports.take(j + 1).drop_last() =~= ports.take(j as int));
                assert(ports.take(j + 1).last() == ports[j as int]);
            }
            if p.kind == PortKind::SamplingIn || p.kind == PortKind::QueuingIn {
                match inputs.insert(name, p.mtu) {
                    Err(_) => {
                        return Err(RouterConfigError::Storage);
                    },
                    Ok(Some(_)) => {
                        return Err(RouterConfigError::Source);
                    },
                    Ok(None) => {},
                }
                proof {
                    assert(inputs_before(ifs, ports, j + 1) =~= inputs_before(
                        ifs,
                        ports,
                        j as int,
                    ).push((ports[j as int].0, ports[j as int].1.mtu)));
                    assert(outputs_before(ifs, ports, j + 1) =~= outputs_before(
                        ifs,
                        ports,
                        j as int,
                    ));
                }
            } else {
                match outputs.insert(name, p.mtu) {
                    Err(_) => {
                        return Err(RouterConfigError::Storage);
                    },
                    Ok(Some(_)) => {
                        return Err(RouterConfigError::Destination);
                    },
                    Ok(None) => {},
                }
                proof {
                    assert(outputs_before(ifs, ports, j + 1) =~= outputs_before(
                        ifs,
                        ports,
                        j as int,
                    ).push((ports[j as int].0, ports[j as int].1.mtu)));
                    assert(inputs_before(ifs, ports, j + 1) =~= inputs_before(
                        ifs,
                        ports,
                        j as int,
                    ));
                }
            }
            j = j + 1;
        }
        proof {
            assert(ports.take(ports.len() as int) =~= ports);
        }
        Ok(Resources { inputs, outputs })
    }
}


/// The error of the first virtual link of `vls`, from position `i` on, that
/// gives one.
pub open spec fn vls_error_from(
    vls: Seq<(u32, crate::config::VirtualLinkView)>,
    ins: Seq<(Seq<char>, PayloadSize)>,
    outs: Seq<(Seq<char>, PayloadSize)>,
    i: int,
) -> Option<RouterConfigError>
    decreases vls.len() - i,
{
    if i < 0 || i >= vls.len() {
        None
    } else {
        match vl_error(vls, ins, outs, vls[i].1) {
            Some(e) => Some(e),
            None => vls_error_from(vls, ins, outs, i + 1),
        }
    }
}

/// The routes that the virtual links of `vls` give, in order.
pub open spec fn routes_of(
    vls: Seq<(u32, crate::config::VirtualLinkView)>,
    ins: Seq<(Seq<char>, PayloadSize)>,
    outs: Seq<(Seq<char>, PayloadSize)>,
) -> Seq<(u32, RouteView)> {
    vls.map_values(|e: (u32, crate::config::VirtualLinkView)| (e.0, route_of(ins, outs, e.1)))
}

/// Whether more than one virtual link of `vls` has the source `src`.
fn src_shared<const I: usize, const O: usize>(vls: &VirtualLinksConfig<I, O>, src: &PortName) -> (b:
    bool)
    ensures
        b == (count_src(vls@, src@) > 1),
{
    let mut n: usize = 0;
    let mut i: usize = 0;
    while i < vls.entries.len()
        invariant
            0 <= i <= vls.entries.len(),
            n == (if count_src(vls@.take(i as int), src@) < 2 {
                count_src(vls@.take(i as int), src@)
            } else {
                2
            }),
        decreases vls.entries.len() - i,
    {
        proof {
            assert(vls@.take(i + 1).drop_last() =~= vls@.take(i as int));
        }
        if vls.entries[i].1.src.same_key(src) && n < 2 {
            n = n + 1;
        }
        i = i + 1;
    }
    proof {
        assert(vls@.take(vls.entries.len() as int) =~= vls@);
    }
    n > 1
}

/// Whether the virtual links of `vls` use `d` as a destination more than
/// once.
fn dst_shared<const I: usize, const O: usize>(vls: &VirtualLinksConfig<I, O>, d: &PortName) -> (b:
    bool)
    ensures
        b == (count_dst(vls@, d@) > 1),
{
    let mut n: usize = 0;
    let mut i: usize = 0;
    while i < vls.entries.len()
        invariant
            0 <= i <= vls.entries.len(),
            n == (if count_dst(vls@.take(i as int), d@) < 2 {
                count_dst(vls@.take(i as int), d@)
            } else {
                2
            }),
        decreases vls.entries.len() - i,
    {
        let dsts = &vls.entries[i].1.dsts;
        let ghost ds = vls@[i as int].1.dsts;
        let ghost before = count_dst(vls@.take(i as int), d@);
        let mut j: usize = 0;
        while j < dsts.len()
            invariant
                0 <= i < vls.entries.len(),
                dsts == &vls.entries[i as int].1.dsts,
                ds == vls@[i as int].1.dsts,
                ds == dsts@.map_values(|p: PortName| p@),
                0 <= j <= dsts.len(),
                n == (if before + count_in(ds.take(j as int), d@) < 2 {
                    before + count_in(ds.take(j as int), d@)
                } else {
                    2
                }),
            decreases dsts.len() - j,
        {
            proof {
                assert(ds.take(j + 1).drop_last() =~= ds.take(j as int));
                assert(ds[j as int] == dsts@[j as int]@);
            }
            if dsts[j].same_key(d) && n < 2 {
                n = n + 1;
            }
            j = j + 1;
        }
        proof {
            assert(ds.take(dsts.len() as int) =~= ds);
            assert(vls@.take(i + 1).drop_last() =~= vls@.take(i as int));
        }
        i = i + 1;
    }
    proof {
        assert(vls@.take(vls.entries.len() as int) =~= vls@);
    }
    n > 1
}

impl<const I: usize, const O: usize> RouteTable<I, O> {
    /// The error that building a route table of the virtual links `vls` over
    /// the interfaces `ifs` and the ports `ports` gives, where it gives one.
    pub open spec fn build_error(
        vls: Seq<(u32, crate::config::VirtualLinkView)>,
        ifs: Seq<(Seq<char>, InterfaceResource)>,
        ports: Seq<(Seq<char>, PortResource)>,
    ) -> Option<RouterConfigError> {
        match Self::resources_error(ifs, ports) {
            Some(e) => Some(e),
            None => vls_error_from(
                vls,
                inputs_before(ifs, ports, ports.len() as int),
                outputs_before(ifs, ports, ports.len() as int),
                0,
            ),
        }
    }

    /// The routes of a route table built of the virtual links `vls` over the
    /// interfaces `ifs` and the ports `ports`.
    pub open spec fn build_routes(
        vls: Seq<(u32, crate::config::VirtualLinkView)>,
        ifs: Seq<(Seq<char>, InterfaceResource)>,
        ports: Seq<(Seq<char>, PortResource)>,
    ) -> Seq<(u32, RouteView)> {
        routes_of(
            vls,
            inputs_before(ifs, ports, ports.len() as int),
            outputs_before(ifs, ports, ports.len() as int),
        )
    }

    /// Builds the route table of the virtual links of `virtual_links_cfg`
    /// over the interfaces and ports of `resources`.
    ///
    /// The interfaces and then the ports are taken in as inputs and outputs
    /// (an interface is both). Then each virtual link, in order, must have a
    /// source that no other virtual link uses and that is an input, and
    /// destinations that no virtual link uses twice and that are outputs,
    /// each with the MTU of the source.
    pub fn build<const IFS: usize, const PORTS: usize>(
        virtual_links_cfg: &VirtualLinksConfig<I, O>,
        resources: &RouterResources<IFS, PORTS>,
    ) -> (r: Result<RouteTable<I, O>, RouterConfigError>)
        requires
            virtual_links_cfg.wf(),
            resources.wf(),
        ensures
            match Self::build_error(virtual_links_cfg@, resources.net_ifs@, resources.ports@) {
                Some(e) => r == Err::<RouteTable<I, O>, RouterConfigError>(e),
                None => r matches Ok(t) && t.routes.wf() && t.routes@ == Self::build_routes(
                    virtual_links_cfg@,
                    resources.net_ifs@,
                    resources.ports@,
                ),
            },
    {
        let eps = match Self::endpoints(resources) {
            Ok(eps) => eps,
            Err(e) => {
                return Err(e);
            },
        };
        let ghost ifs = resources.net_ifs@;
        let ghost ports = resources.ports@;
        let ghost ins = inputs_before(ifs, ports, ports.len() as int);
        let ghost outs = outputs_before(ifs, ports, ports.len() as int);
        let ghost vls = virtual_links_cfg@;
        let mut b: StateBuilder<I, O> = StateBuilder::new();
        let mut i: usize = 0;
        while i < virtual_links_cfg.entries.len()
            invariant
                virtual_links_cfg.wf(),
                vls == virtual_links_cfg@,
                eps.inputs.wf(),
                eps.outputs.wf(),
                eps.inputs@ == ins,
                eps.outputs@ == outs,
                0 <= i <= vls.len(),
                b.vls.wf(),
                b.vls@ == routes_of(vls.take(i as int), ins, outs),
                vls_error_from(vls, ins, outs, 0) == vls_error_from(vls, ins, outs, i as int),
                ifs == resources.net_ifs@,
                ports == resources.ports@,
                ins == inputs_before(ifs, ports, ports.len() as int),
                outs == outputs_before(ifs, ports, ports.len() as int),
                Self::resources_error(ifs, ports) is None,
            decreases vls.len() - i,
        {
            let vl = &virtual_links_cfg.entries[i].0;
            let cfg = &virtual_links_cfg.entries[i].1;
            let ghost v = vls[i as int].1;
            assert(v == cfg@);
            if src_shared(virtual_links_cfg, &cfg.src) {
                proof {
                    assert(vl_error(vls, ins, outs, v) == Some(RouterConfigError::Source));
                    assert(vls_error_from(vls, ins, outs, i as int) == Some(RouterConfigError::Source));
                }
                return Err(RouterConfigError::Source);
            }
            let input_mtu = match eps.inputs.find(&cfg.src) {
                Some(k) => eps.inputs.entries[k].1,
                None => {
                    proof {
                        assert(vl_error(vls, ins, outs, v) == Some(RouterConfigError::Source));
                        assert(vls_error_from(vls, ins, outs, i as int) == Some(RouterConfigError::Source));
                    }
                    return Err(RouterConfigError::Source);
                },
            };
            assert(input_mtu == seq_get(ins, v.src));
            let mut outputs: Vec<Endpoint> = Vec::new();
            let mut j: usize = 0;
            while j < cfg.dsts.len()
                invariant
                    vls == virtual_links_cfg@,
                    0 <= i < vls.len(),
                    cfg == &virtual_links_cfg.entries[i as int].1,
                    v == cfg@,
                    eps.outputs.wf(),
                    eps.outputs@ == outs,
                    0 <= j <= cfg.dsts.len(),
                    outputs.len() == j,
                    outputs@.map_values(|e: Endpoint| e@) == v.dsts.take(j as int).map_values(
                        |d: Seq<char>| (d, seq_get(outs, d)),
                    ),
                    forall|k: int| 0 <= k < j ==> !dst_bad(vls, outs, #[trigger] v.dsts[k]),
                    count_src(vls, v.src) <= 1,
                    seq_has(ins, v.src),
                    vls_error_from(vls, ins, outs, 0) == vls_error_from(vls, ins, outs, i as int),
                    ifs == resources.net_ifs@,
                    ports == resources.ports@,
                    ins == inputs_before(ifs, ports, ports.len() as int),
                    outs == outputs_before(ifs, ports, ports.len() as int),
                    Self::resources_error(ifs, ports) is None,
                decreases cfg.dsts.len() - j,
            {
                let d = &cfg.dsts[j];
                assert(v.dsts[j as int] == d@);
                if dst_shared(virtual_links_cfg, d) {
                    proof {
                        assert(dst_bad(vls, outs, v.dsts[j as int]));
                        assert(vl_error(vls, ins, outs, v) == Some(RouterConfigError::Destination));
                        assert(vls_error_from(vls, ins, outs, i as int) == Some(RouterConfigError::Destination));
                    }
                    return Err(RouterConfigError::Destination);
                }
                let mtu = match eps.outputs.find(d) {
                    Some(k) => {
                        assert(eps.outputs@[k as int].1 == eps.outputs.entries@[k as int].1);
                        eps.outputs.entries[k].1
                    },
                    None => {
                        proof {
                            assert(dst_bad(vls, outs, v.dsts[j as int]));
                            assert(vl_error(vls, ins, outs, v) == Some(RouterConfigError::Destination));
                            assert(vls_error_from(vls, ins, outs, i as int) == Some(RouterConfigError::Destination));
                        }
                        return Err(RouterConfigError::Destination);
                    },
                };
                assert(mtu == seq_get(outs, d@));
                let ghost prev = outputs@;
                outputs.push(Endpoint { name: d.clone(), mtu });
                proof {
                    let f = |e: Endpoint| e@;
                    let g = |d: Seq<char>| (d, seq_get(outs, d));
                    assert(v.dsts.take(j + 1) =~= v.dsts.take(j as int).push(d@));
                    assert(outputs@ =~= prev.push(outputs@[j as int]));
                    assert(outputs@.map_values(f) =~= prev.map_values(f).push((d@, mtu)));
                    assert(v.dsts.take(j + 1).map_values(g) =~= v.dsts.take(j as int).map_values(g).push((d@, mtu)));
                    assert(outputs@.map_values(|e: Endpoint| e@) =~= v.dsts.take(j + 1).map_values(
                        |d: Seq<char>| (d, seq_get(outs, d)),
                    ));
                }
                j = j + 1;
            }
            let ghost route = route_of(ins, outs, v);
            proof {
                assert(v.dsts.take(cfg.dsts.len() as int) =~= v.dsts);
                assert(!(exists|k: int| 0 <= k < v.dsts.len() && dst_bad(vls, outs, #[trigger] v.dsts[k])));
                if seq_has(b.vls@, vl@) {
                    let p = seq_pos(b.vls@, vl@);
                    assert(vls[p].0 != vls[i as int].0);
                }
            }
            let input = Endpoint { name: cfg.src.clone(), mtu: input_mtu };
            match b.route(vl, input, outputs) {
                Ok(()) => {},
                Err(_) => {
                    proof {
                        assert(mtu_mismatch(route.outputs, input_mtu));
                        let k = choose|k: int| 0 <= k < route.outputs.len() && (#[trigger] route.outputs[k]).1 != input_mtu;
                        assert(seq_get(outs, v.dsts[k]) != seq_get(ins, v.src));
                        assert(vl_error(vls, ins, outs, v) == Some(RouterConfigError::VirtualLink));
                        assert(vls_error_from(vls, ins, outs, i as int) == Some(RouterConfigError::VirtualLink));
                    }
                    return Err(RouterConfigError::VirtualLink);
                },
            }
            proof {
                assert(!mtu_mismatch(route.outputs, input_mtu));
                assert forall|k: int| 0 <= k < v.dsts.len() implies seq_get(outs, #[trigger] v.dsts[k]) == seq_get(ins, v.src) by {
                    assert(route.outputs[k].1 == input_mtu);
                }
                assert(vl_error(vls, ins, outs, v) is None);
                assert(routes_of(vls.take(i + 1), ins, outs) =~= routes_of(vls.take(i as int), ins, outs).push((vl@, route)));
            }
            i = i + 1;
        }
        proof {
            assert(vls.take(vls.len() as int) =~= vls);
        }
        b.build()
    }
}


/// Where no virtual link from position `i` on gives an error, none of them
/// does.
proof fn lemma_no_vl_error(
    vls: Seq<(u32, crate::config::VirtualLinkView)>,
    ins: Seq<(Seq<char>, PayloadSize)>,
    outs: Seq<(Seq<char>, PayloadSize)>,
    i: int,
)
    requires
        0 <= i,
        vls_error_from(vls, ins, outs, i) is None,
    ensures
        forall|j: int| i <= j < vls.len() ==> vl_error(vls, ins, outs, #[trigger] vls[j].1) is None,
    decreases vls.len() - i,
{
    if i < vls.len() {
        lemma_no_vl_error(vls, ins, outs, i + 1);
    }
}

/// A source used by the virtual link at position `i` is counted.
proof fn lemma_count_src_one(vls: Seq<(u32, crate::config::VirtualLinkView)>, s: Seq<char>, i: int)
    requires
        0 <= i < vls.len(),
        vls[i].1.src == s,
    ensures
        count_src(vls, s) >= 1,
    decreases vls.len(),
{
    if i < vls.len() - 1 {
        assert(vls.drop_last()[i] == vls[i]);
        lemma_count_src_one(vls.drop_last(), s, i);
    }
}

/// A source used by the virtual links at two positions is counted twice.
proof fn lemma_count_src_two(
    vls: Seq<(u32, crate::config::VirtualLinkView)>,
    s: Seq<char>,
    i: int,
    j: int,
)
    requires
        0 <= i < j < vls.len(),
        vls[i].1.src == s,
        vls[j].1.src == s,
    ensures
        count_src(vls, s) >= 2,
    decreases vls.len(),
{
    assert(vls.drop_last()[i] == vls[i]);
    if j == vls.len() - 1 {
        lemma_count_src_one(vls.drop_last(), s, i);
    } else {
        assert(vls.drop_last()[j] == vls[j]);
        lemma_count_src_two(vls.drop_last(), s, i, j);
    }
}

/// A name at position `k` of `ds` is counted.
proof fn lemma_count_in_one(ds: Seq<Seq<char>>, d: Seq<char>, k: int)
    requires
        0 <= k < ds.len(),
        ds[k] == d,
    ensures
        count_in(ds, d) >= 1,
    decreases ds.len(),
{
    if k < ds.len() - 1 {
        assert(ds.drop_last()[k] == ds[k]);
        lemma_count_in_one(ds.drop_last(), d, k);
    }
}

/// A name at two positions of `ds` is counted twice.
proof fn lemma_count_in_two(ds: Seq<Seq<char>>, d: Seq<char>, k: int, l: int)
    requires
        0 <= k < l < ds.len(),
        ds[k] == d,
        ds[l] == d,
    ensures
        count_in(ds, d) >= 2,
    decreases ds.len(),
{
    assert(ds.drop_last()[k] == ds[k]);
    if l == ds.len() - 1 {
        lemma_count_in_one(ds.drop_last(), d, k);
    } else {
        assert(ds.drop_last()[l] == ds[l]);
        lemma_count_in_two(ds.drop_last(), d, k, l);
    }
}

/// The destinations of the virtual link at position `i` are all counted.
proof fn lemma_count_dst_ge_one(vls: Seq<(u32, crate::config::VirtualLinkView)>, d: Seq<char>, i: int)
    requires
        0 <= i < vls.len(),
    ensures
        count_dst(vls, d) >= count_in(vls[i].1.dsts, d),
    decreases vls.len(),
{
    if i < vls.len() - 1 {
        assert(vls.drop_last()[i] == vls[i]);
        lemma_count_dst_ge_one(vls.drop_last(), d, i);
    }
}

/// The destinations of the virtual links at two positions are all counted.
proof fn lemma_count_dst_ge_two(
    vls: Seq<(u32, crate::config::VirtualLinkView)>,
    d: Seq<char>,
    i: int,
    j: int,
)
    requires
        0 <= i < j < vls.len(),
    ensures
        count_dst(vls, d) >= count_in(vls[i].1.dsts, d) + count_in(vls[j].1.dsts, d),
    decreases vls.len(),
{
    assert(vls.drop_last()[i] == vls[i]);
    if j == vls.len() - 1 {
        lemma_count_dst_ge_one(vls.drop_last(), d, i);
    } else {
        assert(vls.drop_last()[j] == vls[j]);
        lemma_count_dst_ge_two(vls.drop_last(), d, i, j);
    }
}

/// In a route table built without error, every output of a route has the
/// MTU of the route's input.
pub proof fn lemma_built_routes_match_mtu<const I: usize, const O: usize>(
    vls: Seq<(u32, crate::config::VirtualLinkView)>,
    ifs: Seq<(Seq<char>, InterfaceResource)>,
    ports: Seq<(Seq<char>, PortResource)>,
)
    requires
        RouteTable::<I, O>::build_error(vls, ifs, ports) is None,
    ensures
        ({
            let routes = RouteTable::<I, O>::build_routes(vls, ifs, ports);
            forall|i: int, k: int|
                0 <= i < routes.len() && 0 <= k < routes[i].1.outputs.len() ==> (
                #[trigger] routes[i].1.outputs[k]).1 == routes[i].1.input.1
        }),
{
    let ins = inputs_before(ifs, ports, ports.len() as int);
    let outs = outputs_before(ifs, ports, ports.len() as int);
    let routes = RouteTable::<I, O>::build_routes(vls, ifs, ports);
    lemma_no_vl_error(vls, ins, outs, 0);
    assert forall|i: int, k: int|
        0 <= i < routes.len() && 0 <= k < routes[i].1.outputs.len() implies (
        #[trigger] routes[i].1.outputs[k]).1 == routes[i].1.input.1 by {
        let v = vls[i].1;
        assert(vl_error(vls, ins, outs, v) is None);
        assert(routes[i].1 == route_of(ins, outs, v));
        assert(seq_get(outs, v.dsts[k]) == seq_get(ins, v.src));
    }
}

/// A route table built without error never reads two virtual links from
/// one input, and never writes to one output twice.
pub proof fn lemma_built_routes_disjoint<const I: usize, const O: usize>(
    vls: Seq<(u32, crate::config::VirtualLinkView)>,
    ifs: Seq<(Seq<char>, InterfaceResource)>,
    ports: Seq<(Seq<char>, PortResource)>,
)
    requires
        RouteTable::<I, O>::build_error(vls, ifs, ports) is None,
    ensures
        ({
            let routes = RouteTable::<I, O>::build_routes(vls, ifs, ports);
            &&& forall|i: int, j: int|
                0 <= i < j < routes.len() ==> (#[trigger] routes[i]).1.input.0 != (
                #[trigger] routes[j]).1.input.0
            &&& forall|i: int, k: int, j: int, l: int|
                0 <= i < routes.len() && 0 <= j < routes.len() && 0 <= k
                    < routes[i].1.outputs.len() && 0 <= l < routes[j].1.outputs.len() && (i != j
                    || k != l) ==> (#[trigger] routes[i].1.outputs[k]).0 != (
                #[trigger] routes[j].1.outputs[l]).0
        }),
{
    let ins = inputs_before(ifs, ports, ports.len() as int);
    let outs = outputs_before(ifs, ports, ports.len() as int);
    let routes = RouteTable::<I, O>::build_routes(vls, ifs, ports);
    lemma_no_vl_error(vls, ins, outs, 0);
    assert forall|i: int, j: int| 0 <= i < j < routes.len() implies (
    #[trigger] routes[i]).1.input.0 != (#[trigger] routes[j]).1.input.0 by {
        assert(vl_error(vls, ins, outs, vls[i].1) is None);
        if vls[i].1.src == vls[j].1.src {
            lemma_count_src_two(vls, vls[i].1.src, i, j);
        }
    }
    assert forall|i: int, k: int, j: int, l: int|
        0 <= i < routes.len() && 0 <= j < routes.len() && 0 <= k < routes[i].1.outputs.len() && 0
            <= l < routes[j].1.outputs.len() && (i != j || k != l) implies (
    #[trigger] routes[i].1.outputs[k]).0 != (#[trigger] routes[j].1.outputs[l]).0 by {
        let vi = vls[i].1;
        let vj = vls[j].1;
        let d = vi.dsts[k];
        assert(vl_error(vls, ins, outs, vi) is None);
        assert(!dst_bad(vls, outs, vi.dsts[k]));
        if d == vj.dsts[l] {
            if i == j {
                if k < l {
                    lemma_count_in_two(vi.dsts, d, k, l);
                } else {
                    lemma_count_in_two(vi.dsts, d, l, k);
                }
                lemma_count_dst_ge_one(vls, d, i);
            } else {
                lemma_count_in_one(vi.dsts, d, k);
                lemma_count_in_one(vj.dsts, d, l);
                if i < j {
                    lemma_count_dst_ge_two(vls, d, i, j);
                } else {
                    lemma_count_dst_ge_two(vls, d, j, i);
                }
            }
        }
    }
}

/// In a route table built without error, each virtual link of the
/// configuration has the route that its configuration gives: its source,
/// with the source's MTU, to its destinations, in order, with theirs.
pub proof fn lemma_built_route_of_each_link<const I: usize, const O: usize>(
    vls: Seq<(u32, crate::config::VirtualLinkView)>,
    ifs: Seq<(Seq<char>, InterfaceResource)>,
    ports: Seq<(Seq<char>, PortResource)>,
    i: int,
)
    requires
        seq_unique(vls),
        0 <= i < vls.len(),
        RouteTable::<I, O>::build_error(vls, ifs, ports) is None,
    ensures
        ({
            let routes = RouteTable::<I, O>::build_routes(vls, ifs, ports);
            let ins = inputs_before(ifs, ports, ports.len() as int);
            let outs = outputs_before(ifs, ports, ports.len() as int);
            &&& seq_has(routes, vls[i].0)
            &&& seq_get(routes, vls[i].0) == route_of(ins, outs, vls[i].1)
            &&& seq_get(routes, vls[i].0).input == (vls[i].1.src, seq_get(ins, vls[i].1.src))
        }),
{
    let routes = RouteTable::<I, O>::build_routes(vls, ifs, ports);
    assert forall|a: int, b: int| 0 <= a < b < routes.len() implies (#[trigger] routes[a]).0 != (
    #[trigger] routes[b]).0 by {
        assert(vls[a].0 != vls[b].0);
    }
    lemma_seq_pos_unique(routes, vls[i].0, i);
}

/// The end of the first period of each virtual link of `vls`, counted from
/// `start`, fits in a `Duration`.
pub open spec fn periods_fit(vls: Seq<(u32, crate::config::VirtualLinkView)>, start: nat) -> bool {
    forall|i: int| 0 <= i < vls.len() ==> start + (#[trigger] vls[i]).1.period <= MAX_NANOS
}

/// The router: its route table and the scheduler of its virtual links.
#[derive(Debug)]
pub struct Router<const IN: usize, const OUT: usize> {
    /// The route of each virtual link.
    pub routes: RouteTable<IN, OUT>,
    /// Decides which virtual link is forwarded next.
    pub scheduler: DeadlineRrScheduler<IN>,
}

impl<const IN: usize, const OUT: usize> Router<IN, OUT> {
    /// The route table and the scheduler are well formed, and every virtual
    /// link that the scheduler knows has a route.
    pub open spec fn wf(&self) -> bool {
        &&& self.routes.routes.wf()
        &&& self.scheduler.wf()
        &&& forall|i: int|
            0 <= i < self.scheduler.windows.len() ==> seq_has(
                self.routes.routes@,
                (#[trigger] self.scheduler.windows@[i]).vl@,
            )
    }

    /// Tells whether the first period of every virtual link of
    /// `virtual_links_cfg`, counted from `start`, ends within the range of a
    /// `Duration`.
    pub fn start_fits(virtual_links_cfg: &VirtualLinksConfig<IN, OUT>, start: &Duration) -> (b: bool)
        ensures
            b == periods_fit(virtual_links_cfg@, start@),
    {
        let mut i: usize = 0;
        while i < virtual_links_cfg.entries.len()
            invariant
                0 <= i <= virtual_links_cfg.entries.len(),
                periods_fit(virtual_links_cfg@.take(i as int), start@),
            decreases virtual_links_cfg.entries.len() - i,
        {
            let ghost vls = virtual_links_cfg@;
            assert(vls[i as int].1.period == virtual_links_cfg.entries@[i as int].1.period@);
            if start.checked_add(&virtual_links_cfg.entries[i].1.period).is_none() {
                assert(!periods_fit(vls, start@)) by {
                    assert(start@ + vls[i as int].1.period > MAX_NANOS);
                }
                return false;
            }
            proof {
                assert forall|k: int| 0 <= k < i + 1 implies start@ + (
                #[trigger] vls.take(i + 1)[k]).1.period <= MAX_NANOS by {
                    if k < i {
                        assert(vls.take(i + 1)[k] == vls.take(i as int)[k]);
                    }
                }
            }
            i = i + 1;
        }
        proof {
            assert(virtual_links_cfg@.take(virtual_links_cfg.entries.len() as int)
                =~= virtual_links_cfg@);
        }
        true
    }

    /// `r` is what creating a router from the virtual links `vls`, the
    /// interfaces `ifs` and the ports `ports` at `start` gives: the first
    /// error of the route table, or a router with the route table and a
    /// scheduler with a window for each virtual link, in order, that is
    /// first due one period after `start`.
    pub open spec fn created(
        vls: Seq<(u32, crate::config::VirtualLinkView)>,
        ifs: Seq<(Seq<char>, InterfaceResource)>,
        ports: Seq<(Seq<char>, PortResource)>,
        start: nat,
        r: Result<Self, Error>,
    ) -> bool {
        match RouteTable::<IN, OUT>::build_error(vls, ifs, ports) {
            Some(e) => r == Err::<Self, Error>(Error::Configuration(e)),
            None => r matches Ok(router) && {
                &&& router.wf()
                &&& router.routes.routes@ == RouteTable::<IN, OUT>::build_routes(vls, ifs, ports)
                &&& router.scheduler.last_window == 0
                &&& router.scheduler.windows.len() == vls.len()
                &&& forall|i: int|
                    0 <= i < vls.len() ==> {
                        let w = #[trigger] router.scheduler.windows@[i];
                        &&& w.vl@ == vls[i].0
                        &&& w.period@ == vls[i].1.period
                        &&& w.last@ == start + vls[i].1.period
                    }
            },
        }
    }

    /// Tries to initialize a new router from the given configuration.
    ///
    /// The route table is built from the virtual links and the resources;
    /// the scheduler gets a window for each virtual link, in order, that is
    /// first due one period after `start`. Creating the router has no side
    /// effects and may be attempted arbitrarily.
    pub fn try_new<const IFS: usize, const PORTS: usize>(
        virtual_links_cfg: &VirtualLinksConfig<IN, OUT>,
        resources: &RouterResources<IFS, PORTS>,
        start: &Duration,
    ) -> (r: Result<Self, Error>)
        requires
            virtual_links_cfg.wf(),
            resources.wf(),
            periods_fit(virtual_links_cfg@, start@),
        ensures
            Self::created(virtual_links_cfg@, resources.net_ifs@, resources.ports@, start@, r),
    {
        let routes = match RouteTable::<IN, OUT>::build(virtual_links_cfg, resources) {
            Ok(t) => t,
            Err(e) => {
                return Err(Error::Configuration(e));
            },
        };
        let ghost vls = virtual_links_cfg@;
        let mut slots: Vec<(VirtualLinkId, Duration)> = Vec::new();
        let mut i: usize = 0;
        while i < virtual_links_cfg.entries.len()
            invariant
                vls == virtual_links_cfg@,
                virtual_links_cfg.wf(),
                0 <= i <= vls.len(),
                periods_fit(vls, start@),
                slots.len() == i,
                forall|k: int|
                    0 <= k < i ==> (#[trigger] slots@[k]).0@ == vls[k].0 && slots@[k].1@
                        == vls[k].1.period,
            decreases vls.len() - i,
        {
            slots.push((virtual_links_cfg.entries[i].0, virtual_links_cfg.entries[i].1.period));
            i = i + 1;
        }
        proof {
            assert forall|k: int| 0 <= k < slots@.len() implies start@ + (
            #[trigger] slots@[k]).1@ <= MAX_NANOS by {
                assert(start@ + vls[k].1.period <= MAX_NANOS);
            }
        }
        let scheduler = match DeadlineRrScheduler::<IN>::try_new(slots.as_slice(), start) {
            Ok(s) => s,
            Err(e) => {
                return Err(Error::Configuration(e));
            },
        };
        let router = Router { routes, scheduler };
        proof {
            let ifs = resources.net_ifs@;
            let ports = resources.ports@;
            let table = RouteTable::<IN, OUT>::build_routes(vls, ifs, ports);
            assert forall|k: int| 0 <= k < router.scheduler.windows.len() implies seq_has(
                router.routes.routes@,
                (#[trigger] router.scheduler.windows@[k]).vl@,
            ) by {
                assert(table[k].0 == vls[k].0);
                assert(router.scheduler.windows@[k].vl == slots@[k].0);
            }
            assert forall|k: int| 0 <= k < vls.len() implies {
                let w = #[trigger] router.scheduler.windows@[k];
                &&& w.vl@ == vls[k].0
                &&& w.period@ == vls[k].1.period
                &&& w.last@ == start@ + vls[k].1.period
            } by {
                assert(router.scheduler.windows@[k].vl == slots@[k].0);
                assert(router.scheduler.windows@[k].period == slots@[k].1);
            }
        }
        Ok(router)
    }

    /// Tells whether a scheduling round at `current_time` stays within the
    /// range of a `Duration`, as `forward_at` asks.
    pub fn can_forward_at(&self, current_time: &Duration) -> (b: bool)
        requires
            self.wf(),
        ensures
            b == self.scheduler.round_fits(current_time@),
    {
        self.scheduler.fits_round(current_time)
    }

    /// Decides what to forward at the time that the time source read.
    ///
    /// An invalid time is a scheduling error and changes nothing. Otherwise
    /// the scheduler picks the virtual link, if any, and the router hands
    /// back its id with the route it takes; the caller then reads the
    /// message from the input and writes it to the outputs, in order.
    pub fn forward_at(&mut self, time: Result<Duration, InvalidTimeError>) -> (r: Result<
        Option<(VirtualLinkId, Route)>,
        Error,
    >)
        requires
            old(self).wf(),
            time matches Ok(t) ==> old(self).scheduler.round_fits(t@),
        ensures
            final(self).wf(),
            match time {
                Err(e) => r == Err::<Option<(VirtualLinkId, Route)>, Error>(
                    Error::Schedule(ScheduleError { kind: ScheduleErrorKind::SystemTime(e) }),
                ) && *final(self) == *old(self),
                Ok(t) => final(self).routes == old(self).routes && match old(self).scheduler.pick(
                    t@,
                ) {
                    None => r == Ok::<Option<(VirtualLinkId, Route)>, Error>(None)
                        && final(self).scheduler == old(self).scheduler,
                    Some(idx) => {
                        let w = old(self).scheduler.windows@[idx];
                        &&& r matches Ok(Some((vl, route))) && vl == w.vl && route@ == seq_get(
                            old(self).routes.routes@,
                            w.vl@,
                        )
                        &&& final(self).scheduler.last_window == idx
                        &&& final(self).scheduler.windows@ == old(self).scheduler.windows@.update(
                            idx,
                            Window { last: t, ..w },
                        )
                    },
                },
            },
    {
        let t = match time {
            Ok(t) => t,
            Err(e) => {
                return Err(Error::Schedule(ScheduleError { kind: ScheduleErrorKind::SystemTime(e) }));
            },
        };
        let ghost before = *self;
        match self.scheduler.schedule_next(&t) {
            None => Ok(None),
            Some(vl) => {
                proof {
                    let idx = before.scheduler.pick(t@)->0;
                    assert(seq_has(self.routes.routes@, before.scheduler.windows@[idx].vl@));
                    assert forall|i: int| 0 <= i < self.scheduler.windows.len() implies seq_has(
                        self.routes.routes@,
                        (#[trigger] self.scheduler.windows@[i]).vl@,
                    ) by {
                        assert(self.scheduler.windows@[i].vl == before.scheduler.windows@[i].vl);
                    }
                }
                match self.routes.route(&vl) {
                    Ok(route) => Ok(Some((vl, route))),
                    Err(e) => Err(Error::Route(e)),
                }
            },
        }
    }
}


/// Creating a router has no side effects and depends on its arguments
/// alone: two results of creating a router from the same virtual links,
/// resources and start are both the same error, or both routers with the
/// same routes and the same scheduler.
pub proof fn lemma_router_creation_repeats<const IN: usize, const OUT: usize>(
    vls: Seq<(u32, crate::config::VirtualLinkView)>,
    ifs: Seq<(Seq<char>, InterfaceResource)>,
    ports: Seq<(Seq<char>, PortResource)>,
    start: nat,
    r1: Result<Router<IN, OUT>, Error>,
    r2: Result<Router<IN, OUT>, Error>,
)
    requires
        Router::<IN, OUT>::created(vls, ifs, ports, start, r1),
        Router::<IN, OUT>::created(vls, ifs, ports, start, r2),
    ensures
        r1 is Err ==> r1 == r2,
        r1 matches Ok(a) ==> r2 matches Ok(b) && a.routes.routes@ == b.routes.routes@
            && a.scheduler.last_window == b.scheduler.last_window && a.scheduler.windows@
            == b.scheduler.windows@,
{
    if let Ok(a) = r1 {
        let b = r2->Ok_0;
        assert forall|i: int| 0 <= i < vls.len() implies a.scheduler.windows@[i]
            == b.scheduler.windows@[i] by {
            let wa = a.scheduler.windows@[i];
            let wb = b.scheduler.windows@[i];
            crate::time::lemma_duration_view_injective(wa.period, wb.period);
            crate::time::lemma_duration_view_injective(wa.last, wb.last);
            assert(wa.vl == wb.vl);
        }
        assert(a.scheduler.windows@ =~= b.scheduler.windows@);
    }
}

/// An input of the router: a port or an interface that messages are read
/// from.
pub trait RouterInput {
    /// The maximum transfer unit of this input.
    spec fn input_mtu(&self) -> PayloadSize;

    /// Holds of each message that a receive on this input can deliver; it
    /// describes the input to proofs and is never called.
    spec fn delivers(&self, data: &[u8]) -> bool;

    /// Holds of each error that a receive on this input can end with.
    spec fn receive_fails(&self, e: PortError) -> bool;

    /// Receives a message into the front of `buf` and returns its length.
    ///
    /// A buffer shorter than the MTU is refused with `PortError::Receive`
    /// and left as it is.
    fn receive(&self, buf: &mut [u8]) -> (r: Result<usize, PortError>)
        ensures
            final(buf)@.len() == old(buf)@.len(),
            r matches Ok(n) ==> n <= old(buf)@.len() && exists|d: &[u8]|
                d@ == final(buf)@.take(n as int) && #[trigger] self.delivers(d),
            r matches Err(e) ==> self.receive_fails(e),
            old(buf)@.len() < self.input_mtu() ==> r == Err::<usize, PortError>(PortError::Receive)
                && final(buf)@ == old(buf)@,
    ;

    /// Maximum transfer unit
    fn mtu(&self) -> (m: PayloadSize)
        ensures
            m == self.input_mtu(),
    ;
}

/// `data` is a message that a receive on `input` can deliver.
pub open spec fn delivered<T: RouterInput + ?Sized>(input: &T, data: Seq<u8>) -> bool {
    exists|d: &[u8]| d@ == data && #[trigger] input.delivers(d)
}

/// An output of the router: a port or an interface that messages are
/// written to.
pub trait RouterOutput {
    /// The maximum transfer unit of this output.
    spec fn output_mtu(&self) -> PayloadSize;

    /// Holds where a send of `data` on this output can end with `r`; it
    /// describes the output to proofs and is never called.
    spec fn sends(&self, data: &[u8], r: Result<(), PortError>) -> bool;

    /// Sends `buf` on this output.
    ///
    /// Data longer than the MTU is refused with `PortError::Send`.
    fn send(&self, buf: &[u8]) -> (r: Result<(), PortError>)
        ensures
            self.sends(buf, r),
            buf@.len() > self.output_mtu() ==> r == Err::<(), PortError>(PortError::Send),
    ;

    /// Maximum transfer unit
    fn mtu(&self) -> (m: PayloadSize)
        ensures
            m == self.output_mtu(),
    ;
}

/// A send of `data` on `output` can end with `r`.
pub open spec fn sent<T: RouterOutput + ?Sized>(output: &T, data: Seq<u8>, r: Result<(), PortError>) -> bool {
    exists|d: &[u8]| d@ == data && #[trigger] output.sends(d, r)
}

impl<H: PlatformNetworkInterface> RouterInput for NetworkInterface<H> {
    open spec fn input_mtu(&self) -> PayloadSize {
        self.mtu
    }

    /// The driver's receive is not described: any message can come.
    open spec fn delivers(&self, data: &[u8]) -> bool {
        true
    }

    open spec fn receive_fails(&self, e: PortError) -> bool {
        e == PortError::Receive
    }

    /// Receives from the interface; a failure of the interface is a failure
    /// to receive.
    fn receive(&self, buf: &mut [u8]) -> (r: Result<usize, PortError>) {
        match NetworkInterface::receive(self, buf) {
            Ok(n) => {
                let data = vstd::slice::slice_subrange(buf, 0, n);
                assert(data@ =~= buf@.take(n as int));
                assert(self.delivers(data));
                Ok(n)
            },
            Err(_) => Err(PortError::Receive),
        }
    }

    fn mtu(&self) -> PayloadSize {
        self.mtu
    }
}

impl<H: PlatformNetworkInterface> RouterOutput for NetworkInterface<H> {
    open spec fn output_mtu(&self) -> PayloadSize {
        self.mtu
    }

    /// Data longer than the MTU is refused; other data goes to the driver
    /// under the interface's id, and the send succeeds where the driver's
    /// does.
    open spec fn sends(&self, data: &[u8], r: Result<(), PortError>) -> bool {
        if data@.len() > self.mtu {
            r == Err::<(), PortError>(PortError::Send)
        } else {
            exists|d: Result<usize, InterfaceError>|
                call_ensures(H::platform_interface_send_unchecked, (self.id, data), d) && r == match d {
                    Ok(_) => Ok::<(), PortError>(()),
                    Err(_) => Err(PortError::Send),
                }
        }
    }

    /// Sends to the interface; a failure of the interface is a failure to
    /// send.
    fn send(&self, buf: &[u8]) -> (r: Result<(), PortError>) {
        let res = NetworkInterface::send(self, buf);
        match res {
            Ok(_) => Ok(()),
            Err(_) => Err(PortError::Send),
        }
    }

    fn mtu(&self) -> PayloadSize {
        self.mtu
    }
}

/// Forwards one message of a virtual link: reads it from `input` into the
/// front of `buf` and writes it to the `outputs`, in order, up to the first
/// output that fails.
///
/// Where the receive fails, its error is returned; where a send fails, the
/// error of the first one that fails is returned and the outputs after it
/// get nothing; otherwise every output has taken the message and its length
/// is returned.
pub fn forward_message(input: &dyn RouterInput, outputs: &[&dyn RouterOutput], buf: &mut [u8]) -> (r: Result<usize, PortError>)
    ensures
        final(buf)@.len() == old(buf)@.len(),
        old(buf)@.len() < input.input_mtu() ==> r == Err::<usize, PortError>(PortError::Receive)
            && final(buf)@ == old(buf)@,
        r matches Ok(n) ==> n <= old(buf)@.len() && delivered(input, final(buf)@.take(n as int)),
        r matches Ok(n) ==> forall|k: int|
            0 <= k < outputs@.len() ==> #[trigger] sent(outputs@[k], final(buf)@.take(n as int), Ok(())),
        r matches Ok(n) ==> forall|k: int|
            0 <= k < outputs@.len() ==> n <= (#[trigger] outputs@[k]).output_mtu(),
        r matches Err(e) ==> input.receive_fails(e) || exists|n: int, j: int|
            0 <= n <= old(buf)@.len() && 0 <= j < outputs@.len() && delivered(
                input,
                final(buf)@.take(n),
            ) && sent(outputs@[j], final(buf)@.take(n), Err(e)) && forall|k: int|
                0 <= k < j ==> #[trigger] sent(outputs@[k], final(buf)@.take(n), Ok(())),
{
    let n = match input.receive(buf) {
        Ok(n) => n,
        Err(e) => {
            return Err(e);
        },
    };
    let ghost msg = buf@.take(n as int);
    proof {
        let d = choose|d: &[u8]| d@ == msg && #[trigger] input.delivers(d);
        assert(d@ == msg && input.delivers(d));
        assert(exists|d: &[u8]| d@ == msg && #[trigger] input.delivers(d));
        assert(delivered(input, msg));
    }
    let mut k: usize = 0;
    while k < outputs.len()
        invariant
            0 <= k <= outputs@.len(),
            n <= buf@.len(),
            buf@.len() == old(buf)@.len(),
            msg == buf@.take(n as int),
            delivered(input, msg),
            old(buf)@.len() >= input.input_mtu(),
            forall|j: int| 0 <= j < k ==> #[trigger] sent(outputs@[j], msg, Ok(())),
            forall|j: int| 0 <= j < k ==> n <= (#[trigger] outputs@[j]).output_mtu(),
        decreases outputs@.len() - k,
    {
        let data = vstd::slice::slice_subrange(buf, 0, n);
        assert(data@ =~= msg);
        let res = outputs[k].send(data);
        assert(outputs@[k as int].sends(data, res));
        if let Err(e) = res {
            assert(sent(outputs@[k as int], msg, Err(e)));
            return Err(e);
        }
        proof {
            assert(res == Ok::<(), PortError>(())) by {
                assert(res->Ok_0 == ());
            }
            assert(sent(outputs@[k as int], msg, Ok(())));
            assert(n <= outputs@[k as int].output_mtu());
        }
        k = k + 1;
    }
    proof {
        assert forall|j: int| 0 <= j < outputs@.len() implies #[trigger] sent(
            outputs@[j],
            buf@.take(n as int),
            Ok(()),
        ) by {
            assert(sent(outputs@[j], msg, Ok(())));
        }
    }
    Ok(n)
}
/// The object of the first entry of `entries` named `n`, where there is one.
pub open spec fn first_named<T>(entries: Seq<(PortName, T)>, n: Seq<char>) -> Option<T>
    decreases entries.len(),
{
    if entries.len() == 0 {
        None
    } else if entries[0].0@ == n {
        Some(entries[0].1)
    } else {
        first_named(entries.drop_first(), n)
    }
}

/// Every name of `names` names an entry of `entries`.
pub open spec fn all_named<T>(entries: Seq<(PortName, T)>, names: Seq<Seq<char>>) -> bool {
    forall|k: int| 0 <= k < names.len() ==> (#[trigger] first_named(entries, names[k])) is Some
}

/// The position of the first entry named `n`.
fn find_named<T>(entries: &[(PortName, T)], n: &PortName) -> (r: Option<usize>)
    ensures
        match r {
            Some(i) => i < entries@.len() && first_named(entries@, n@) == Some(entries@[i as int].1),
            None => first_named(entries@, n@) is None,
        },
{
    let mut i: usize = 0;
    assert(entries@.skip(0) =~= entries@);
    while i < entries.len()
        invariant
            0 <= i <= entries@.len(),
            first_named(entries@, n@) == first_named(entries@.skip(i as int), n@),
        decreases entries@.len() - i,
    {
        let ghost rest = entries@.skip(i as int);
        assert(rest[0] == entries@[i as int]);
        if entries[i].0.same_key(n) {
            return Some(i);
        }
        assert(rest.drop_first() =~= entries@.skip(i + 1));
        i = i + 1;
    }
    assert(entries@.skip(i as int).len() == 0);
    None
}

/// The positions of the entries named by the endpoints `eps`, in order,
/// where each of them names one.
fn find_all_named<T>(entries: &[(PortName, T)], eps: &Vec<Endpoint>) -> (r: Option<Vec<usize>>)
    ensures
        ({
            let names = eps@.map_values(|e: Endpoint| e@).map_values(
                |e: (Seq<char>, PayloadSize)| e.0,
            );
            &&& r is None <==> !all_named(entries@, names)
            &&& r matches Some(v) ==> v@.len() == names.len() && forall|k: int|
                0 <= k < names.len() ==> #[trigger] v@[k] < entries@.len() && first_named(
                    entries@,
                    names[k],
                ) == Some(entries@[v@[k] as int].1)
        }),
{
    let ghost names = eps@.map_values(|e: Endpoint| e@).map_values(
        |e: (Seq<char>, PayloadSize)| e.0,
    );
    let mut pos: Vec<usize> = Vec::new();
    let mut k: usize = 0;
    while k < eps.len()
        invariant
            0 <= k <= eps@.len(),
            names.len() == eps@.len(),
            names == eps@.map_values(|e: Endpoint| e@).map_values(
                |e: (Seq<char>, PayloadSize)| e.0,
            ),
            pos@.len() == k,
            forall|j: int|
                0 <= j < k ==> #[trigger] pos@[j] < entries@.len() && first_named(
                    entries@,
                    names[j],
                ) == Some(entries@[pos@[j] as int].1),
        decreases eps@.len() - k,
    {
        assert(names[k as int] == eps@[k as int].name@);
        match find_named(entries, &eps[k].name) {
            Some(p) => {
                pos.push(p);
            },
            None => {
                assert(first_named(entries@, names[k as int]) is None);
                return None;
            },
        }
        k = k + 1;
    }
    proof {
        assert forall|j: int| 0 <= j < names.len() implies (#[trigger] first_named(
            entries@,
            names[j],
        )) is Some by {
            assert(pos@[j] < entries@.len());
        }
    }
    Some(pos)
}

/// The outputs of `table` at the positions `order`, in order.
pub open spec fn outputs_at<T>(table: Seq<(PortName, T)>, order: Seq<usize>) -> Seq<T> {
    order.map_values(|p: usize| table[p as int].1)
}

/// `forward_message` to the outputs of `table` at the positions `order`.
fn relay(
    inputs: &[(PortName, &dyn RouterInput)],
    ip: usize,
    table: &[(PortName, &dyn RouterOutput)],
    order: &Vec<usize>,
    buf: &mut [u8],
) -> (r: Result<usize, PortError>)
    requires
        ip < inputs@.len(),
        forall|k: int| 0 <= k < order@.len() ==> #[trigger] order@[k] < table@.len(),
    ensures
        r matches Ok(n) ==> n <= old(buf)@.len() && delivered(
            inputs@[ip as int].1,
            final(buf)@.take(n as int),
        ),
        r matches Err(e) ==> inputs@[ip as int].1.receive_fails(e) || exists|n: int, j: int|
            0 <= n <= old(buf)@.len() && 0 <= j < order@.len() && delivered(
                inputs@[ip as int].1,
                final(buf)@.take(n),
            ) && sent(outputs_at(table@, order@)[j], final(buf)@.take(n), Err(e)) && forall|k: int|
                0 <= k < j ==> #[trigger] sent(
                    outputs_at(table@, order@)[k],
                    final(buf)@.take(n),
                    Ok(()),
                ),
        final(buf)@.len() == old(buf)@.len(),
        r matches Ok(n) ==> forall|k: int|
            0 <= k < order@.len() ==> #[trigger] sent(
                outputs_at(table@, order@)[k],
                final(buf)@.take(n as int),
                Ok(()),
            ),
{
    let input = inputs[ip].1;
    assert(input == inputs@[ip as int].1);
    let ghost outs = outputs_at(table@, order@);
    let n = match input.receive(buf) {
        Ok(n) => n,
        Err(e) => {
            return Err(e);
        },
    };
    let ghost msg = buf@.take(n as int);
    proof {
        let d = choose|d: &[u8]| d@ == msg && #[trigger] input.delivers(d);
        assert(d@ == msg && input.delivers(d));
    }
    let mut k: usize = 0;
    while k < order.len()
        invariant
            0 <= k <= order@.len(),
            forall|j: int| 0 <= j < order@.len() ==> #[trigger] order@[j] < table@.len(),
            outs == outputs_at(table@, order@),
            n <= buf@.len(),
            buf@.len() == old(buf)@.len(),
            msg == buf@.take(n as int),
            delivered(input, msg),
            input == inputs@[ip as int].1,
            forall|j: int| 0 <= j < k ==> #[trigger] sent(outs[j], msg, Ok(())),
        decreases order@.len() - k,
    {
        let p = order[k];
        let out = table[p].1;
        assert(out == outs[k as int]);
        let data = vstd::slice::slice_subrange(buf, 0, n);
        assert(data@ =~= msg);
        let res = out.send(data);
        assert(out.sends(data, res));
        if let Err(e) = res {
            assert(sent(outs[k as int], msg, Err(e)));
            assert(0 <= n <= old(buf)@.len() && 0 <= k < order@.len() && delivered(
                inputs@[ip as int].1,
                buf@.take(n as int),
            ) && sent(outs[k as int], buf@.take(n as int), Err(e)) && forall|j: int|
                0 <= j < k ==> #[trigger] sent(outs[j], buf@.take(n as int), Ok(())));
            return Err(e);
        }
        proof {
            assert(res == Ok::<(), PortError>(())) by {
                assert(res->Ok_0 == ());
            }
            assert(sent(out, msg, Ok(())));
        }
        k = k + 1;
    }
    proof {
        assert forall|j: int| 0 <= j < order@.len() implies #[trigger] sent(
            outs[j],
            buf@.take(n as int),
            Ok(()),
        ) by {
            assert(sent(outs[j], msg, Ok(())));
        }
    }
    Ok(n)
}

impl<const IN: usize, const OUT: usize> Router<IN, OUT> {
    /// Forwards the virtual link that is due at the time that the time
    /// source read, if any: reads its message from the input of its route
    /// and writes it to the outputs of its route, in order, with
    /// `forward_message`. The inputs and outputs are found by name in
    /// `inputs` and `outputs`.
    ///
    /// An invalid time is a scheduling error; a route whose input or outputs
    /// are not all given is an invalid virtual link; a failed receive or
    /// send is a port error. Otherwise the id of the forwarded virtual link
    /// is returned, or `None` where no virtual link is due.
    pub fn forward(
        &mut self,
        time: Result<Duration, InvalidTimeError>,
        inputs: &[(PortName, &dyn RouterInput)],
        outputs: &[(PortName, &dyn RouterOutput)],
        buf: &mut [u8],
    ) -> (r: Result<Option<VirtualLinkId>, Error>)
        requires
            old(self).wf(),
            time matches Ok(t) ==> old(self).scheduler.round_fits(t@),
        ensures
            final(self).wf(),
            final(buf)@.len() == old(buf)@.len(),
            time matches Err(e) ==> r == Err::<Option<VirtualLinkId>, Error>(
                Error::Schedule(ScheduleError { kind: ScheduleErrorKind::SystemTime(e) }),
            ) && *final(self) == *old(self) && final(buf)@ == old(buf)@,
            time matches Ok(t) ==> final(self).routes == old(self).routes && match old(self).scheduler.pick(
                    t@,
                ) {
                    None => r == Ok::<Option<VirtualLinkId>, Error>(None)
                        && final(self).scheduler == old(self).scheduler && final(buf)@ == old(buf)@,
                    Some(idx) => {
                        let w = old(self).scheduler.windows@[idx];
                        let route = seq_get(old(self).routes.routes@, w.vl@);
                        let names = route.outputs.map_values(|e: (Seq<char>, PayloadSize)| e.0);
                        &&& final(self).scheduler.last_window == idx
                        &&& final(self).scheduler.windows@ == old(self).scheduler.windows@.update(
                            idx,
                            Window { last: t, ..w },
                        )
                        &&& if first_named(inputs@, route.input.0) is None || !all_named(
                            outputs@,
                            names,
                        ) {
                            r == Err::<Option<VirtualLinkId>, Error>(
                                Error::Route(RouteError::InvalidVl),
                            ) && final(buf)@ == old(buf)@
                        } else {
                            let input = first_named(inputs@, route.input.0)->Some_0;
                            let outs = names.map_values(
                                |n: Seq<char>| first_named(outputs@, n)->Some_0,
                            );
                            &&& r is Ok ==> r == Ok::<Option<VirtualLinkId>, Error>(Some(w.vl))
                                && exists|n: int|
                                0 <= n <= old(buf)@.len() && delivered(input, final(buf)@.take(n))
                                    && forall|k: int|
                                    0 <= k < outs.len() ==> #[trigger] sent(
                                        outs[k],
                                        final(buf)@.take(n),
                                        Ok(()),
                                    )
                            &&& r matches Err(e) ==> e matches Error::Port(pe) && (
                            input.receive_fails(pe) || exists|n: int, j: int|
                                0 <= n <= old(buf)@.len() && 0 <= j < outs.len() && delivered(
                                    input,
                                    final(buf)@.take(n),
                                ) && sent(outs[j], final(buf)@.take(n), Err(pe)) && forall|k: int|
                                    0 <= k < j ==> #[trigger] sent(
                                        outs[k],
                                        final(buf)@.take(n),
                                        Ok(()),
                                    ))
                        }
                    },
                },
    {
        let t = match time {
            Err(e) => {
                return Err(Error::Schedule(ScheduleError { kind: ScheduleErrorKind::SystemTime(e) }));
            },
            Ok(t) => t,
        };
        let (vl, route) = match self.forward_at(Ok(t)) {
            Err(e) => {
                return Err(e);
            },
            Ok(None) => {
                return Ok(None);
            },
            Ok(Some(next)) => next,
        };
        let ip = match find_named(inputs, &route.input.name) {
            Some(i) => i,
            None => {
                return Err(Error::Route(RouteError::InvalidVl));
            },
        };
        let order = match find_all_named(outputs, &route.outputs) {
            Some(o) => o,
            None => {
                return Err(Error::Route(RouteError::InvalidVl));
            },
        };
        proof {
            let names = route@.outputs.map_values(|e: (Seq<char>, PayloadSize)| e.0);
            assert(outputs_at(outputs@, order@) =~= names.map_values(
                |n: Seq<char>| first_named(outputs@, n)->Some_0,
            ));
        }
        let ghost input = inputs@[ip as int].1;
        match relay(inputs, ip, outputs, &order, buf) {
            Ok(n) => {
                proof {
                    let outs = outputs_at(outputs@, order@);
                    assert(0 <= n as int <= old(buf)@.len());
                    assert(delivered(input, buf@.take(n as int)));
                    assert(forall|k: int|
                        0 <= k < outs.len() ==> #[trigger] sent(outs[k], buf@.take(n as int), Ok(())));
                }
                Ok(Some(vl))
            },
            Err(e) => Err(Error::Port(e)),
        }
    }
}

} // verus!
