//! Configuration of the router and the checks made while building it.

use crate::map::{seq_get, seq_has, seq_insert, seq_pos, BoundedMap, MapKey};
use crate::network::{InterfaceConfig, InterfaceView};
use crate::time::Duration;
use crate::types::VirtualLinkId;
use vstd::prelude::*;
use vstd::string::StringSliceAdditionalSpecFns;

verus! {

broadcast use {
    crate::time::lemma_duration_view_injective,
    vstd::string::to_string_from_display_ensures_for_str,
};

/// The longest port name, in bytes.
pub const MAX_PORT_NAME: usize = 20;

/// Message size of a hypervisor port.
pub type MessageSize = u32;

/// Number of messages a queuing port holds.
pub type MessageRange = u32;

/// Stack size of a process.
pub type StackSize = u32;

/// Holds of the characters that a port name may hold: the printable ASCII
/// characters, from the space to the tilde.
pub open spec fn printable(c: char) -> bool {
    ' ' <= c <= '~'
}

/// Holds of a valid port name: at most 20 printable ASCII characters.
pub open spec fn valid_port_name(s: Seq<char>) -> bool {
    &&& s.len() <= MAX_PORT_NAME
    &&& forall|i: int| 0 <= i < s.len() ==> printable(#[trigger] s[i])
}

/// The name of a hypervisor port or of a network interface.
/// Holds at most 20 printable ASCII characters.
#[derive(Debug)]
pub struct PortName {
    name: String,
}

impl View for PortName {
    type V = Seq<char>;

    closed spec fn view(&self) -> Seq<char> {
        self.name@
    }
}

impl PortName {
    #[verifier::type_invariant]
    spec fn inv(self) -> bool {
        valid_port_name(self.name@)
    }

    /// Parses a port name: fails with `Port` where `s` is longer than 20
    /// characters or holds a character that is not printable ASCII.
    pub fn from_str(s: &str) -> (r: Result<PortName, RouterConfigError>)
        ensures
            valid_port_name(s@) ==> (r matches Ok(p) && p@ == s@),
            !valid_port_name(s@) ==> r == Err::<PortName, RouterConfigError>(
                RouterConfigError::Port,
            ),
    {
        if !s.is_ascii() {
            return Err(RouterConfigError::Port);
        }
        let bytes = s.as_bytes();
        proof {
            vstd::string::is_ascii_spec_bytes(s);
            assert(bytes@.len() == s@.len());
        }
        if bytes.len() > MAX_PORT_NAME {
            return Err(RouterConfigError::Port);
        }
        let mut i: usize = 0;
        while i < bytes.len()
            invariant
                0 <= i <= bytes@.len(),
                bytes@.len() == s@.len(),
                bytes@ == Seq::new(s@.len(), |k: int| s@[k] as u8),
                vstd::string::is_ascii(s),
                forall|k: int| 0 <= k < i ==> printable(#[trigger] s@[k]),
            decreases bytes@.len() - i,
        {
            let b: u8 = bytes[i];
            proof {
                assert(b == s@[i as int] as u8);
                assert('\0' <= s@[i as int] <= '\u{7f}');
            }
            if b < 0x20 || b > 0x7e {
                return Err(RouterConfigError::Port);
            }
            i = i + 1;
        }
        let name = s.to_string();
        proof {
            assert(name@ == s@);
        }
        Ok(PortName { name })
    }

    /// The name as a string slice.
    pub fn as_str(&self) -> (s: &str)
        ensures
            s@ == self@,
    {
        self.name.as_str()
    }

    /// A port name holds at most 20 printable ASCII characters.
    pub fn fits(&self) -> (b: bool)
        ensures
            b,
            valid_port_name(self@),
    {
        proof {
            use_type_invariant(self);
        }
        true
    }
}

impl Clone for PortName {
    fn clone(&self) -> (p: Self)
        ensures
            p == *self,
    {
        proof {
            use_type_invariant(self);
        }
        PortName { name: self.name.clone() }
    }
}

impl MapKey for PortName {
    fn same_key(&self, other: &Self) -> (b: bool) {
        self.name == other.name
    }
}

impl MapKey for VirtualLinkId {
    fn same_key(&self, other: &Self) -> (b: bool) {
        self.0 == other.0
    }
}

/// The name of a network interface or socket address.
pub type InterfaceName = PortName;

/// Virtual link configuration data indexed by virtual link id.
pub type VirtualLinksConfig<const I: usize, const O: usize> = BoundedMap<
    VirtualLinkId,
    VirtualLinkConfig<O>,
    I,
>;

/// Interface configuration data indexed by interface name.
pub type InterfacesConfig<const IFS: usize> = BoundedMap<InterfaceName, InterfaceConfig, IFS>;

/// Port configuration data indexed by port name.
pub type PortsConfig<const PORTS: usize> = BoundedMap<PortName, PortConfig, PORTS>;

/// Queuing port discipline
#[derive(Debug, Clone, Copy, PartialEq, Eq, Structural)]
pub enum QueuingDiscipline {
    /// FIFO
    Fifo,
    /// Priority queue
    Priority,
}

/// Sampling port destination configuration
#[derive(Debug, Clone, Copy, PartialEq, Eq)]
pub struct SamplingInCfg {
    /// Message size
    pub msg_size: MessageSize,
    /// Validity
    pub refresh_period: Duration,
}

/// Sampling port source configuration
#[derive(Debug, Clone, Copy, PartialEq, Eq, Structural)]
pub struct SamplingOutCfg {
    /// Message size
    pub msg_size: MessageSize,
}

/// Queuing port receiver configuration
#[derive(Debug, Clone, Copy, PartialEq, Eq, Structural)]
pub struct QueuingInCfg {
    /// Queuing discipline
    pub discipline: QueuingDiscipline,
    /// Maximum number of messages
    pub msg_count: MessageRange,
    /// Maximum message size
    pub msg_size: MessageSize,
}

/// Queuing port sender configuration
#[derive(Debug, Clone, Copy, PartialEq, Eq, Structural)]
pub struct QueuingOutCfg {
    /// Queuing discipline
    pub discipline: QueuingDiscipline,
    /// Maximum number of messages
    pub msg_count: MessageRange,
    /// Maximum message size
    pub msg_size: MessageSize,
}

/// Hypervisor port configuration
#[derive(Debug, Clone, Copy, PartialEq, Eq)]
pub enum PortConfig {
    /// Sampling port destination
    SamplingIn(SamplingInCfg),
    /// Sampling port source
    SamplingOut(SamplingOutCfg),
    /// Queuing port receiver
    QueuingIn(QueuingInCfg),
    /// Queuing port sender
    QueuingOut(QueuingOutCfg),
}

impl View for PortConfig {
    type V = PortConfig;

    open spec fn view(&self) -> PortConfig {
        *self
    }
}

impl PortConfig {
    /// Queuing port receiver
    pub fn queuing_in(
        discipline: QueuingDiscipline,
        msg_count: MessageRange,
        msg_size: MessageSize,
    ) -> (c: Self)
        ensures
            c == PortConfig::QueuingIn(QueuingInCfg { discipline, msg_count, msg_size }),
    {
        PortConfig::QueuingIn(QueuingInCfg { discipline, msg_count, msg_size })
    }

    /// Queuing port sender
    pub fn queuing_out(
        discipline: QueuingDiscipline,
        msg_count: MessageRange,
        msg_size: MessageSize,
    ) -> (c: Self)
        ensures
            c == PortConfig::QueuingOut(QueuingOutCfg { discipline, msg_count, msg_size }),
    {
        PortConfig::QueuingOut(QueuingOutCfg { discipline, msg_count, msg_size })
    }

    /// Sampling port destination
    pub fn sampling_in(msg_size: MessageSize, refresh_period: Duration) -> (c: Self)
        ensures
            c == PortConfig::SamplingIn(SamplingInCfg { msg_size, refresh_period }),
    {
        PortConfig::SamplingIn(SamplingInCfg { msg_size, refresh_period })
    }

    /// Sampling port source
    pub fn sampling_out(msg_size: MessageSize) -> (c: Self)
        ensures
            c == PortConfig::SamplingOut(SamplingOutCfg { msg_size }),
    {
        PortConfig::SamplingOut(SamplingOutCfg { msg_size })
    }
}

/// Configuration error
#[derive(Debug, Clone, PartialEq, Eq, Structural)]
pub enum RouterConfigError {
    /// The specified source of the virtual link is invalid.
    Source,
    /// The virtual links that are using an interface produce more traffic
    /// than can be serviced by the interface.
    DataRate,
    /// The specified port of a virtual link is invalid.
    Port,
    /// The specified virtual link is invalid either because it already
    /// exists or has an invalid format.
    VirtualLink,
    /// The specified network interface is invalid.
    Interface,
    /// The specified schedule or one of its slots is invalid.
    Schedule,
    /// The specified destination is illegal.
    Destination,
    /// Insufficient storage for configuration
    Storage,
    /// Invalid configuration format
    Format,
}

/// Virtual link between one source and multiple destinations.
/// Sources and destinations can be on the network or local ports.
#[derive(Debug)]
pub struct VirtualLinkConfig<const D: usize> {
    /// Source
    pub src: PortName,
    /// Destinations
    pub dsts: Vec<PortName>,
    /// Minimum transmission interval
    pub period: Duration,
}

/// What a virtual link configuration holds, as plain values.
pub struct VirtualLinkView {
    /// Name of the source.
    pub src: Seq<char>,
    /// Names of the destinations, in order.
    pub dsts: Seq<Seq<char>>,
    /// Minimum transmission interval, in nanoseconds.
    pub period: nat,
}

impl<const D: usize> View for VirtualLinkConfig<D> {
    type V = VirtualLinkView;

    open spec fn view(&self) -> VirtualLinkView {
        VirtualLinkView {
            src: self.src@,
            dsts: self.dsts@.map_values(|p: PortName| p@),
            period: self.period@,
        }
    }
}

/// A copy of a sequence of port names.
fn clone_names(names: &Vec<PortName>) -> (r: Vec<PortName>)
    ensures
        r@ == names@,
{
    let mut r: Vec<PortName> = Vec::new();
    let mut i: usize = 0;
    while i < names.len()
        invariant
            0 <= i <= names.len(),
            r@ == names@.subrange(0, i as int),
        decreases names.len() - i,
    {
        r.push(names[i].clone());
        proof {
            assert(names@.subrange(0, i + 1) =~= names@.subrange(0, i as int).push(names@[i as int]));
        }
        i = i + 1;
    }
    proof {
        assert(names@.subrange(0, names.len() as int) =~= names@);
    }
    r
}

impl<const D: usize> Clone for VirtualLinkConfig<D> {
    fn clone(&self) -> (c: Self)
        ensures
            c@ == self@,
            c.dsts.len() == self.dsts.len(),
    {
        let c = VirtualLinkConfig {
            src: self.src.clone(),
            dsts: clone_names(&self.dsts),
            period: self.period,
        };
        proof {
            assert(c@.dsts =~= self@.dsts);
        }
        c
    }
}

/// Compile-time style assertions on two numbers.
#[derive(Debug)]
pub struct Assert<const L: usize, const R: usize>;

impl<const L: usize, const R: usize> Assert<L, R> {
    /// `L - R - 1`, defined where `L` is greater than `R`.
    pub fn greater() -> (r: usize)
        requires
            L > R,
        ensures
            r == L - R - 1,
    {
        L - R - 1
    }

    /// Zero, defined where `L` is a power of two.
    pub fn power_of_two() -> (r: usize)
        requires
            L > 0,
            L & (L - 1) as usize == 0,
        ensures
            r == 0,
    {
        0 - (L & (L - 1))
    }
}

/// Holds where `N` is a power of two.
pub fn power_of_two<const N: usize>()
    requires
        N > 0,
        N & (N - 1) as usize == 0,
{
    let _ = Assert::<N, 0>::greater();
    let _ = Assert::<N, 0>::power_of_two();
}

/// Holds where `N` is greater than zero.
pub fn greater_than_zero<const N: usize>()
    requires
        N > 0,
{
    let _ = Assert::<N, 0>::greater();
}

/// Runtime configuration of the router.
#[derive(Debug)]
pub struct RouterConfig<const IN: usize, const OUT: usize, const IFS: usize, const PORTS: usize> {
    /// Stack size limit
    pub stack_size: StackSize,
    /// Forwarding table
    pub virtual_links: BoundedMap<VirtualLinkId, VirtualLinkConfig<OUT>, IN>,
    /// Interface configuration.
    pub interfaces: BoundedMap<InterfaceName, InterfaceConfig, IFS>,
    /// Port configuration
    pub ports: BoundedMap<PortName, PortConfig, PORTS>,
}

/// What a router configuration holds, as plain values.
pub struct RouterConfigView {
    /// Stack size limit
    pub stack_size: StackSize,
    /// The virtual links by id, in the order they were added.
    pub virtual_links: Seq<(u32, VirtualLinkView)>,
    /// The interfaces by name, in the order they were added.
    pub interfaces: Seq<(Seq<char>, InterfaceView)>,
    /// The ports by name, in the order they were added.
    pub ports: Seq<(Seq<char>, PortConfig)>,
}

impl<const IN: usize, const OUT: usize, const IFS: usize, const PORTS: usize> View for RouterConfig<
    IN,
    OUT,
    IFS,
    PORTS,
> {
    type V = RouterConfigView;

    open spec fn view(&self) -> RouterConfigView {
        RouterConfigView {
            stack_size: self.stack_size,
            virtual_links: self.virtual_links@,
            interfaces: self.interfaces@,
            ports: self.ports@,
        }
    }
}

/// A copy of the entries of the port map.
fn clone_ports<const N: usize>(m: &BoundedMap<PortName, PortConfig, N>) -> (r: BoundedMap<
    PortName,
    PortConfig,
    N,
>)
    ensures
        r@ == m@,
        r.entries.len() == m.entries.len(),
{
    let mut entries: Vec<(PortName, PortConfig)> = Vec::new();
    let mut i: usize = 0;
    while i < m.entries.len()
        invariant
            0 <= i <= m.entries.len(),
            entries@ == m.entries@.subrange(0, i as int),
        decreases m.entries.len() - i,
    {
        let e = (m.entries[i].0.clone(), m.entries[i].1);
        entries.push(e);
        proof {
            assert(m.entries@.subrange(0, i + 1) =~= m.entries@.subrange(0, i as int).push(
                m.entries@[i as int],
            ));
        }
        i = i + 1;
    }
    proof {
        assert(m.entries@.subrange(0, m.entries.len() as int) =~= m.entries@);
    }
    BoundedMap { entries }
}

/// A copy of the entries of the interface map.
fn clone_interfaces<const N: usize>(m: &BoundedMap<PortName, InterfaceConfig, N>) -> (r:
    BoundedMap<PortName, InterfaceConfig, N>)
    ensures
        r@ == m@,
        r.entries.len() == m.entries.len(),
{
    let mut entries: Vec<(PortName, InterfaceConfig)> = Vec::new();
    let mut i: usize = 0;
    while i < m.entries.len()
        invariant
            0 <= i <= m.entries.len(),
            entries@ == m.entries@.subrange(0, i as int),
        decreases m.entries.len() - i,
    {
        let e = (m.entries[i].0.clone(), m.entries[i].1.clone());
        entries.push(e);
        proof {
            assert(m.entries@.subrange(0, i + 1) =~= m.entries@.subrange(0, i as int).push(
                m.entries@[i as int],
            ));
        }
        i = i + 1;
    }
    proof {
        assert(m.entries@.subrange(0, m.entries.len() as int) =~= m.entries@);
    }
    BoundedMap { entries }
}

/// A copy of the entries of the virtual link map.
fn clone_vls<const D: usize, const N: usize>(
    m: &BoundedMap<VirtualLinkId, VirtualLinkConfig<D>, N>,
) -> (r: BoundedMap<VirtualLinkId, VirtualLinkConfig<D>, N>)
    ensures
        r@ == m@,
        r.entries.len() == m.entries.len(),
        forall|i: int|
            0 <= i < m.entries.len() ==> (#[trigger] r.entries@[i]).1.dsts.len()
                == m.entries@[i].1.dsts.len(),
{
    let mut entries: Vec<(VirtualLinkId, VirtualLinkConfig<D>)> = Vec::new();
    let mut i: usize = 0;
    while i < m.entries.len()
        invariant
            0 <= i <= m.entries.len(),
            entries.len() == i,
            forall|j: int|
                0 <= j < i ==> (#[trigger] entries@[j]).0 == m.entries@[j].0 && entries@[j].1@
                    == m.entries@[j].1@ && entries@[j].1.dsts.len() == m.entries@[j].1.dsts.len(),
        decreases m.entries.len() - i,
    {
        let e = (m.entries[i].0, m.entries[i].1.clone());
        entries.push(e);
        i = i + 1;
    }
    let r = BoundedMap { entries };
    proof {
        assert(r@ =~= m@);
    }
    r
}

/// The configuration `c` keeps at most `out` destinations in each virtual
/// link.
pub open spec fn dsts_within<const IN: usize, const OUT: usize, const IFS: usize, const PORTS: usize>(
    c: &RouterConfig<IN, OUT, IFS, PORTS>,
) -> bool {
    forall|i: int|
        0 <= i < c.virtual_links.entries.len() ==> (#[trigger] c.virtual_links.entries@[i]).1.dsts.len()
            <= OUT
}

impl<const IN: usize, const OUT: usize, const IFS: usize, const PORTS: usize> RouterConfig<
    IN,
    OUT,
    IFS,
    PORTS,
> {
    /// The maps are well formed and every virtual link has at most `OUT`
    /// destinations.
    pub open spec fn wf(&self) -> bool {
        &&& self.virtual_links.wf()
        &&& self.interfaces.wf()
        &&& self.ports.wf()
        &&& dsts_within(self)
    }

    /// A configuration with no virtual links, interfaces and ports.
    fn new(stack_size: usize) -> (c: Self)
        ensures
            c.wf(),
            c@.stack_size == stack_size as u32,
            c@.virtual_links.len() == 0,
            c@.interfaces.len() == 0,
            c@.ports.len() == 0,
    {
        RouterConfig {
            stack_size: stack_size as u32,
            virtual_links: BoundedMap::new(),
            interfaces: BoundedMap::new(),
            ports: BoundedMap::new(),
        }
    }

    /// Creates a new builder for a configuration.
    pub fn builder(stack_size: usize) -> (b: RouterConfigBuilder<IN, OUT, IFS, PORTS>)
        requires
            IN > 0,
            OUT > 0,
            IFS > 0,
            PORTS > 0,
        ensures
            b.cfg.wf(),
            b.cfg@.stack_size == stack_size as u32,
            b.cfg@.virtual_links.len() == 0,
            b.cfg@.interfaces.len() == 0,
            b.cfg@.ports.len() == 0,
    {
        greater_than_zero::<IN>();
        greater_than_zero::<OUT>();
        greater_than_zero::<IFS>();
        greater_than_zero::<PORTS>();
        RouterConfigBuilder::new(stack_size)
    }

    /// A copy of the configuration.
    pub fn copy(&self) -> (c: Self)
        requires
            self.wf(),
        ensures
            c.wf(),
            c@ == self@,
    {
        let c = RouterConfig {
            stack_size: self.stack_size,
            virtual_links: clone_vls(&self.virtual_links),
            interfaces: clone_interfaces(&self.interfaces),
            ports: clone_ports(&self.ports),
        };
        c
    }
}

/// Configures the amount of stack memory to reserve for the processes of
/// the partition.
#[derive(Debug, Clone, Copy, Default, PartialEq, Eq, Structural)]
pub struct StackSizeConfig {
    /// The size of the memory to reserve on the stack for the aperiodic
    /// process.
    pub aperiodic_process: u32,
}

/// Config builder
#[derive(Debug)]
pub struct RouterConfigBuilder<
    const IN: usize,
    const OUT: usize,
    const IFS: usize,
    const PORTS: usize,
> {
    /// The configuration built so far.
    pub cfg: RouterConfig<IN, OUT, IFS, PORTS>,
}

/// Some virtual link of `vls` has a zero period.
pub open spec fn some_period_zero(vls: Seq<(u32, VirtualLinkView)>) -> bool {
    exists|i: int| 0 <= i < vls.len() && (#[trigger] vls[i]).1.period == 0
}

/// The name `n` is the name of an interface or of a port of `c`.
pub open spec fn names_resource(c: RouterConfigView, n: Seq<char>) -> bool {
    seq_has(c.interfaces, n) || seq_has(c.ports, n)
}

/// The configuration `c` whose virtual link of id `id` is replaced by `v`.
pub open spec fn with_vl(c: RouterConfigView, id: u32, v: VirtualLinkView) -> RouterConfigView {
    RouterConfigView {
        virtual_links: c.virtual_links.update(seq_pos(c.virtual_links, id), (id, v)),
        ..c
    }
}

impl<const IN: usize, const OUT: usize, const IFS: usize, const PORTS: usize> RouterConfigBuilder<
    IN,
    OUT,
    IFS,
    PORTS,
> {
    /// Creates a new builder for a configuration with a given `stack_size`.
    pub fn new(stack_size: usize) -> (b: Self)
        ensures
            b.cfg.wf(),
            b.cfg@.stack_size == stack_size as u32,
            b.cfg@.virtual_links.len() == 0,
            b.cfg@.interfaces.len() == 0,
            b.cfg@.ports.len() == 0,
    {
        RouterConfigBuilder { cfg: RouterConfig::new(stack_size) }
    }

    /// Builds the configuration: fails with `Schedule` where some virtual link
    /// has a zero period.
    pub fn build(&self) -> (r: Result<RouterConfig<IN, OUT, IFS, PORTS>, RouterConfigError>)
        requires
            self.cfg.wf(),
        ensures
            some_period_zero(self.cfg@.virtual_links) ==> r == Err::<
                RouterConfig<IN, OUT, IFS, PORTS>,
                RouterConfigError,
            >(RouterConfigError::Schedule),
            !some_period_zero(self.cfg@.virtual_links) ==> (r matches Ok(c) && c.wf() && c@
                == self.cfg@),
    {
        let mut i: usize = 0;
        while i < self.cfg.virtual_links.entries.len()
            invariant
                0 <= i <= self.cfg.virtual_links.entries.len(),
                forall|j: int| 0 <= j < i ==> (#[trigger] self.cfg@.virtual_links[j]).1.period != 0,
            decreases self.cfg.virtual_links.entries.len() - i,
        {
            if self.cfg.virtual_links.entries[i].1.period.is_zero() {
                proof {
                    assert(self.cfg@.virtual_links[i as int].1.period == 0);
                }
                return Err(RouterConfigError::Schedule);
            }
            i = i + 1;
        }
        Ok(self.cfg.copy())
    }

    /// Adds a port to the configuration.
    ///
    /// Fails with `Port` where the name takes more than 20 bytes, with
    /// `Storage` where the port map is full, and with `Port` where a port of
    /// that name exists; its configuration is then replaced by `port_cfg`.
    pub fn port(&mut self, name: &str, port_cfg: PortConfig) -> (r: Result<
        &mut Self,
        RouterConfigError,
    >)
        requires
            old(self).cfg.wf(),
        ensures
            r matches Ok(b) ==> *final(self) == *final(b),
            ({
                let after = match r {
                    Ok(b) => *b,
                    Err(_) => *final(self),
                };
                let before = old(self).cfg@;
                let inserted = RouterConfigView {
                    ports: seq_insert(before.ports, name@, port_cfg),
                    ..before
                };
                &&& after.cfg.wf()
                &&& !valid_port_name(name@) ==> r == Err::<&mut Self, RouterConfigError>(
                    RouterConfigError::Port,
                ) && after.cfg@ == before
                &&& valid_port_name(name@) && seq_has(before.ports, name@) ==> r
                    == Err::<&mut Self, RouterConfigError>(RouterConfigError::Port) && after.cfg@
                    == inserted
                &&& valid_port_name(name@) && !seq_has(before.ports, name@)
                    && before.ports.len() < PORTS ==> r is Ok && after.cfg@ == inserted
                &&& valid_port_name(name@) && !seq_has(before.ports, name@)
                    && before.ports.len() >= PORTS ==> r == Err::<&mut Self, RouterConfigError>(
                    RouterConfigError::Storage,
                ) && after.cfg@ == before
            }),
    {
        let name = match PortName::from_str(name) {
            Ok(n) => n,
            Err(e) => return Err(e),
        };
        match self.cfg.ports.insert(name, port_cfg) {
            Err(_) => Err(RouterConfigError::Storage),
            Ok(Some(_)) => Err(RouterConfigError::Port),
            Ok(None) => Ok(self),
        }
    }

    /// Adds an interface to the configuration.
    ///
    /// Fails with `Interface` where the name takes more than 20 bytes, with
    /// `Storage` where the interface map is full, and with `Interface` where
    /// an interface of that name exists; its configuration is then replaced
    /// by `if_cfg`.
    pub fn interface(&mut self, name: &str, if_cfg: InterfaceConfig) -> (r: Result<
        &mut Self,
        RouterConfigError,
    >)
        requires
            old(self).cfg.wf(),
        ensures
            r matches Ok(b) ==> *final(self) == *final(b),
            ({
                let after = match r {
                    Ok(b) => *b,
                    Err(_) => *final(self),
                };
                let before = old(self).cfg@;
                let inserted = RouterConfigView {
                    interfaces: seq_insert(before.interfaces, name@, if_cfg@),
                    ..before
                };
                &&& after.cfg.wf()
                &&& !valid_port_name(name@) ==> r == Err::<&mut Self, RouterConfigError>(
                    RouterConfigError::Interface,
                ) && after.cfg@ == before
                &&& valid_port_name(name@) && seq_has(before.interfaces, name@) ==> r
                    == Err::<&mut Self, RouterConfigError>(RouterConfigError::Interface)
                    && after.cfg@ == inserted
                &&& valid_port_name(name@) && !seq_has(before.interfaces, name@)
                    && before.interfaces.len() < IFS ==> r is Ok && after.cfg@ == inserted
                &&& valid_port_name(name@) && !seq_has(before.interfaces, name@)
                    && before.interfaces.len() >= IFS ==> r == Err::<&mut Self, RouterConfigError>(
                    RouterConfigError::Storage,
                ) && after.cfg@ == before
            }),
    {
        let name = match InterfaceName::from_str(name) {
            Ok(n) => n,
            Err(_) => return Err(RouterConfigError::Interface),
        };
        match self.cfg.interfaces.insert(name, if_cfg) {
            Err(_) => Err(RouterConfigError::Storage),
            Ok(Some(_)) => Err(RouterConfigError::Interface),
            Ok(None) => Ok(self),
        }
    }

    /// True where `dst` names an interface or a port of the configuration.
    fn contains_resource(&self, dst: &PortName) -> (b: bool)
        requires
            self.cfg.wf(),
        ensures
            b == names_resource(self.cfg@, dst@),
    {
        self.cfg.interfaces.contains_key(dst) || self.cfg.ports.contains_key(dst)
    }

    /// The position of the virtual link `id`, or `VirtualLink` where there is
    /// none.
    fn find_vl(&self, id: &VirtualLinkId) -> (r: Result<usize, RouterConfigError>)
        requires
            self.cfg.wf(),
        ensures
            r matches Ok(i) ==> seq_has(self.cfg@.virtual_links, id@) && i == seq_pos(
                self.cfg@.virtual_links,
                id@,
            ) && i < self.cfg.virtual_links.entries.len(),
            r is Err <==> !seq_has(self.cfg@.virtual_links, id@),
            r is Err ==> r == Err::<usize, RouterConfigError>(RouterConfigError::VirtualLink),
    {
        match self.cfg.virtual_links.find(id) {
            Some(i) => Ok(i),
            None => Err(RouterConfigError::VirtualLink),
        }
    }

    /// Replaces the configuration of the virtual link at position `i`.
    fn replace_vl(&mut self, i: usize, vl: VirtualLinkConfig<OUT>) -> (old_vl: VirtualLinkConfig<
        OUT,
    >)
        requires
            old(self).cfg.wf(),
            i < old(self).cfg.virtual_links.entries.len(),
            vl.dsts.len() <= OUT,
        ensures
            final(self).cfg.wf(),
            final(self).cfg@ == (RouterConfigView {
                virtual_links: old(self).cfg@.virtual_links.update(
                    i as int,
                    (old(self).cfg@.virtual_links[i as int].0, vl@),
                ),
                ..old(self).cfg@
            }),
            old_vl == old(self).cfg.virtual_links.entries@[i as int].1,
            final(self).cfg.virtual_links.entries.len() == old(self).cfg.virtual_links.entries.len(),
    {
        let (id, old_vl) = self.cfg.virtual_links.entries.remove(i);
        self.cfg.virtual_links.entries.insert(i, (id, vl));
        proof {
            let before = old(self).cfg.virtual_links;
            let after = self.cfg.virtual_links;
            assert(after.entries@ =~= before.entries@.update(i as int, (id, vl)));
            assert(after@ =~= before@.update(i as int, (before@[i as int].0, vl@)));
            assert forall|a: int, b: int| 0 <= a < b < after@.len() implies (
            #[trigger] after@[a]).0 != (#[trigger] after@[b]).0 by {
                assert(before@[a].0 != before@[b].0);
            }
            assert forall|k: int| 0 <= k < after.entries.len() implies (
            #[trigger] after.entries@[k]).1.dsts.len() <= OUT by {
                if k != i {
                    assert(after.entries@[k] == before.entries@[k]);
                }
            }
        }
        old_vl
    }

    /// Adds a new destination to a virtual link.
    ///
    /// A destination can be the name of an interface or the name of a
    /// hypervisor port. Fails with `Destination` where the name takes more
    /// than 20 bytes or names neither, with `VirtualLink` where there is no
    /// such virtual link and with `Storage` where it has `OUT` destinations.
    pub fn destination(&mut self, vl_id: u16, destination: &str) -> (r: Result<
        &mut Self,
        RouterConfigError,
    >)
        requires
            old(self).cfg.wf(),
        ensures
            r matches Ok(b) ==> *final(self) == *final(b),
            ({
                let after = match r {
                    Ok(b) => *b,
                    Err(_) => *final(self),
                };
                let before = old(self).cfg@;
                let id = vl_id as u32;
                let vl = seq_get(before.virtual_links, id);
                &&& after.cfg.wf()
                &&& !valid_port_name(destination@) || !names_resource(
                    before,
                    destination@,
                ) ==> r == Err::<&mut Self, RouterConfigError>(RouterConfigError::Destination)
                    && after.cfg@ == before
                &&& valid_port_name(destination@) && names_resource(before, destination@)
                    && !seq_has(before.virtual_links, id) ==> r == Err::<
                    &mut Self,
                    RouterConfigError,
                >(RouterConfigError::VirtualLink) && after.cfg@ == before
                &&& valid_port_name(destination@) && names_resource(before, destination@)
                    && seq_has(before.virtual_links, id) && vl.dsts.len() >= OUT ==> r == Err::<
                    &mut Self,
                    RouterConfigError,
                >(RouterConfigError::Storage) && after.cfg@ == before
                &&& valid_port_name(destination@) && names_resource(before, destination@)
                    && seq_has(before.virtual_links, id) && vl.dsts.len() < OUT ==> r is Ok
                    && after.cfg@ == with_vl(
                    before,
                    id,
                    VirtualLinkView { dsts: vl.dsts.push(destination@), ..vl },
                )
            }),
    {
        let vl_id = VirtualLinkId::from_u16(vl_id);
        let dst = match PortName::from_str(destination) {
            Ok(d) => d,
            Err(_) => return Err(RouterConfigError::Destination),
        };
        if !self.contains_resource(&dst) {
            return Err(RouterConfigError::Destination);
        }
        let i = match self.find_vl(&vl_id) {
            Ok(i) => i,
            Err(e) => return Err(e),
        };
        if self.cfg.virtual_links.entries[i].1.dsts.len() >= OUT {
            proof {
                assert(self.cfg@.virtual_links[i as int].1.dsts.len() == self.cfg.virtual_links.entries@[i as int].1.dsts.len());
            }
            return Err(RouterConfigError::Storage);
        }
        let placeholder = VirtualLinkConfig {
            src: dst.clone(),
            dsts: Vec::new(),
            period: Duration::zero(),
        };
        let ghost before = self.cfg@;
        let mut vl = self.replace_vl(i, placeholder);
        vl.dsts.push(dst);
        proof {
            assert(vl@.dsts =~= before.virtual_links[i as int].1.dsts.push(destination@));
        }
        let _ = self.replace_vl(i, vl);
        proof {
            let id = vl_id@;
            assert(before.virtual_links[i as int].0 == id);
            let v = seq_get(before.virtual_links, id);
            assert(vl@ == VirtualLinkView { dsts: v.dsts.push(destination@), ..v });
            assert(self.cfg@.virtual_links =~= with_vl(
                before,
                id,
                VirtualLinkView { dsts: v.dsts.push(destination@), ..v },
            ).virtual_links);
        }
        Ok(self)
    }

    /// Sets the period of a virtual link.
    ///
    /// Fails with `VirtualLink` where there is no such virtual link.
    pub fn schedule(&mut self, vl_id: u16, period: Duration) -> (r: Result<
        &mut Self,
        RouterConfigError,
    >)
        requires
            old(self).cfg.wf(),
        ensures
            r matches Ok(b) ==> *final(self) == *final(b),
            ({
                let after = match r {
                    Ok(b) => *b,
                    Err(_) => *final(self),
                };
                let before = old(self).cfg@;
                let id = vl_id as u32;
                let vl = seq_get(before.virtual_links, id);
                &&& after.cfg.wf()
                &&& !seq_has(before.virtual_links, id) ==> r == Err::<&mut Self, RouterConfigError>(
                    RouterConfigError::VirtualLink,
                ) && after.cfg@ == before
                &&& seq_has(before.virtual_links, id) ==> r is Ok && after.cfg@ == with_vl(
                    before,
                    id,
                    VirtualLinkView { period: period@, ..vl },
                )
            }),
    {
        let vl_id = VirtualLinkId::from_u16(vl_id);
        let i = match self.find_vl(&vl_id) {
            Ok(i) => i,
            Err(e) => return Err(e),
        };
        let placeholder = VirtualLinkConfig {
            src: self.cfg.virtual_links.entries[i].1.src.clone(),
            dsts: Vec::new(),
            period: Duration::zero(),
        };
        let ghost before = self.cfg@;
        let mut vl = self.replace_vl(i, placeholder);
        vl.period = period;
        let _ = self.replace_vl(i, vl);
        proof {
            let id = vl_id@;
            assert(before.virtual_links[i as int].0 == id);
            let v = seq_get(before.virtual_links, id);
            assert(vl@ == VirtualLinkView { period: period@, ..v });
            assert(self.cfg@.virtual_links =~= with_vl(
                before,
                id,
                VirtualLinkView { period: period@, ..v },
            ).virtual_links);
        }
        Ok(self)
    }

    /// Adds a new virtual link with source `source`, no destinations and a
    /// zero period.
    ///
    /// Fails with `Source` where the name takes more than 20 bytes or names
    /// neither an interface nor a port, with `VirtualLink` where a virtual
    /// link with this id exists, and with `Storage` where the map of virtual
    /// links is full.
    pub fn virtual_link(&mut self, vl_id: u16, source: &str) -> (r: Result<
        &mut Self,
        RouterConfigError,
    >)
        requires
            old(self).cfg.wf(),
        ensures
            r matches Ok(b) ==> *final(self) == *final(b),
            ({
                let after = match r {
                    Ok(b) => *b,
                    Err(_) => *final(self),
                };
                let before = old(self).cfg@;
                let id = vl_id as u32;
                &&& after.cfg.wf()
                &&& !valid_port_name(source@) || !names_resource(before, source@) ==> r
                    == Err::<&mut Self, RouterConfigError>(RouterConfigError::Source) && after.cfg@
                    == before
                &&& valid_port_name(source@) && names_resource(before, source@)
                    && seq_has(before.virtual_links, id) ==> r == Err::<
                    &mut Self,
                    RouterConfigError,
                >(RouterConfigError::VirtualLink) && after.cfg@ == before
                &&& valid_port_name(source@) && names_resource(before, source@)
                    && !seq_has(before.virtual_links, id) && before.virtual_links.len() >= IN ==> r
                    == Err::<&mut Self, RouterConfigError>(RouterConfigError::Storage)
                    && after.cfg@ == before
                &&& valid_port_name(source@) && names_resource(before, source@)
                    && !seq_has(before.virtual_links, id) && before.virtual_links.len() < IN ==> r
                    is Ok && after.cfg@ == (RouterConfigView {
                    virtual_links: before.virtual_links.push(
                        (id, VirtualLinkView { src: source@, dsts: Seq::empty(), period: 0 }),
                    ),
                    ..before
                })
            }),
    {
        let src = match PortName::from_str(source) {
            Ok(s) => s,
            Err(_) => return Err(RouterConfigError::Source),
        };
        if !self.contains_resource(&src) {
            return Err(RouterConfigError::Source);
        }
        let vl_id = VirtualLinkId::from_u16(vl_id);
        let duplicate = self.find_vl(&vl_id).is_ok();
        if duplicate {
            return Err(RouterConfigError::VirtualLink);
        }
        let vl = VirtualLinkConfig { src, dsts: Vec::new(), period: Duration::zero() };
        proof {
            assert(vl@.dsts =~= Seq::<Seq<char>>::empty());
        }
        let ghost before = self.cfg.virtual_links;
        let vl_added = self.cfg.virtual_links.insert(vl_id, vl).is_ok();
        if !vl_added {
            return Err(RouterConfigError::Storage);
        }
        proof {
            let after = self.cfg.virtual_links;
            assert forall|k: int| 0 <= k < after.entries.len() implies (
            #[trigger] after.entries@[k]).1.dsts.len() <= OUT by {
                assert(after@.len() == before@.len() + 1);
                if k < before.entries.len() {
                    assert(after@[k] == before@[k]);
                    assert(after.entries@[k].1.dsts.len() == after@[k].1.dsts.len());
                    assert(before.entries@[k].1.dsts.len() == before@[k].1.dsts.len());
                } else {
                    assert(after@[k].1.dsts.len() == 0);
                    assert(after.entries@[k].1.dsts.len() == after@[k].1.dsts.len());
                }
            }
        }
        Ok(self)
    }
}

} // verus!
