use a653rs_router::config::{
    PortConfig, PortName, QueuingDiscipline, RouterConfig, RouterConfigError, VirtualLinkConfig,
};
use a653rs_router::map::BoundedMap;
use a653rs_router::error::Error;
use a653rs_router::network::{DummyNetIntf, InterfaceConfig, NetworkInterface};
use a653rs_router::ports::PortError;
use a653rs_router::reconfigure::{CfgError, Configurator, Resources};
use a653rs_router::router::{
    forward_message, RouteError, RouteTable, Router, RouterInput, RouterOutput, RouterResources,
};
use a653rs_router::run::{same_link, same_links_config, RunAction, RunState};
use a653rs_router::scheduler::{DeadlineRrScheduler, InvalidTimeError};
use a653rs_router::time::Duration;
use a653rs_router::types::{DataRate, NetworkInterfaceId, VirtualLinkId};
use std::cell::RefCell;

fn sample_config() -> RouterConfig<4, 4, 4, 4> {
    let mut b = RouterConfig::<4, 4, 4, 4>::builder(10_000);
    b.interface("eth0", InterfaceConfig::new("NodeA", "NodeB", DataRate::b(10_000_000), 1_500))
        .unwrap()
        .port("Advisory_1", PortConfig::queuing_in(QueuingDiscipline::Fifo, 10, 1_500))
        .unwrap()
        .port("FCC_2", PortConfig::queuing_out(QueuingDiscipline::Fifo, 10, 1_500))
        .unwrap()
        .port("FCC_3", PortConfig::sampling_out(1_500))
        .unwrap()
        .virtual_link(1, "Advisory_1")
        .unwrap()
        .destination(1, "eth0")
        .unwrap()
        .destination(1, "FCC_2")
        .unwrap()
        .schedule(1, Duration::from_millis(10))
        .unwrap()
        .virtual_link(3, "eth0")
        .unwrap()
        .destination(3, "FCC_3")
        .unwrap()
        .schedule(3, Duration::from_millis(40))
        .unwrap();
    b.build().unwrap()
}

#[test]
fn resources_describe_configured_ports_and_interfaces() {
    let cfg = sample_config();
    let res = RouterResources::<4, 4>::create(&cfg.interfaces, &cfg.ports);
    assert_eq!(res.net_ifs.entries.len(), 1);
    assert_eq!(res.net_ifs.entries[0].0.as_str(), "eth0");
    assert_eq!(res.net_ifs.entries[0].1.mtu, 1_500);
    assert_eq!(res.ports.entries.len(), 3);
    assert_eq!(res.ports.entries[2].1.mtu, 1_500);
}

#[test]
fn route_table_routes_every_virtual_link() {
    let cfg = sample_config();
    let res = RouterResources::<4, 4>::create(&cfg.interfaces, &cfg.ports);
    let table = RouteTable::<4, 4>::build(&cfg.virtual_links, &res).unwrap();
    let r1 = table.route(&VirtualLinkId(1)).unwrap();
    assert_eq!(r1.input.name.as_str(), "Advisory_1");
    assert_eq!(r1.input.mtu, 1_500);
    assert_eq!(r1.outputs.len(), 2);
    assert_eq!(r1.outputs[0].name.as_str(), "eth0");
    assert_eq!(r1.outputs[1].name.as_str(), "FCC_2");
    let r3 = table.route(&VirtualLinkId(3)).unwrap();
    assert_eq!(r3.input.name.as_str(), "eth0");
    assert_eq!(r3.outputs[0].name.as_str(), "FCC_3");
    assert_eq!(table.route(&VirtualLinkId(2)).unwrap_err(), RouteError::InvalidVl);
}

#[test]
fn route_to_an_input_port_is_a_destination_error() {
    let mut b = RouterConfig::<4, 4, 4, 4>::builder(1);
    b.port("A", PortConfig::queuing_in(QueuingDiscipline::Fifo, 1, 64))
        .unwrap()
        .port("B", PortConfig::queuing_in(QueuingDiscipline::Fifo, 1, 64))
        .unwrap()
        .virtual_link(1, "A")
        .unwrap()
        .destination(1, "B")
        .unwrap()
        .schedule(1, Duration::from_millis(1))
        .unwrap();
    let cfg = b.build().unwrap();
    let res = RouterResources::<4, 4>::create(&cfg.interfaces, &cfg.ports);
    assert_eq!(
        RouteTable::<4, 4>::build(&cfg.virtual_links, &res).unwrap_err(),
        RouterConfigError::Destination
    );
}

#[test]
fn shared_source_is_a_source_error() {
    let mut b = RouterConfig::<4, 4, 4, 4>::builder(1);
    b.port("A", PortConfig::queuing_in(QueuingDiscipline::Fifo, 1, 64))
        .unwrap()
        .port("B", PortConfig::queuing_out(QueuingDiscipline::Fifo, 1, 64))
        .unwrap()
        .virtual_link(1, "A")
        .unwrap()
        .virtual_link(2, "A")
        .unwrap()
        .schedule(1, Duration::from_millis(1))
        .unwrap()
        .schedule(2, Duration::from_millis(1))
        .unwrap();
    let cfg = b.build().unwrap();
    let res = RouterResources::<4, 4>::create(&cfg.interfaces, &cfg.ports);
    assert_eq!(
        RouteTable::<4, 4>::build(&cfg.virtual_links, &res).unwrap_err(),
        RouterConfigError::Source
    );
}

#[test]
fn shared_destination_is_a_destination_error() {
    let mut b = RouterConfig::<4, 4, 4, 4>::builder(1);
    b.port("A", PortConfig::queuing_in(QueuingDiscipline::Fifo, 1, 64))
        .unwrap()
        .port("C", PortConfig::queuing_in(QueuingDiscipline::Fifo, 1, 64))
        .unwrap()
        .port("B", PortConfig::queuing_out(QueuingDiscipline::Fifo, 1, 64))
        .unwrap()
        .virtual_link(1, "A")
        .unwrap()
        .destination(1, "B")
        .unwrap()
        .virtual_link(2, "C")
        .unwrap()
        .destination(2, "B")
        .unwrap()
        .schedule(1, Duration::from_millis(1))
        .unwrap()
        .schedule(2, Duration::from_millis(1))
        .unwrap();
    let cfg = b.build().unwrap();
    let res = RouterResources::<4, 4>::create(&cfg.interfaces, &cfg.ports);
    assert_eq!(
        RouteTable::<4, 4>::build(&cfg.virtual_links, &res).unwrap_err(),
        RouterConfigError::Destination
    );
}

#[test]
fn mtu_mismatch_is_a_virtual_link_error() {
    let mut b = RouterConfig::<4, 4, 4, 4>::builder(1);
    b.port("A", PortConfig::queuing_in(QueuingDiscipline::Fifo, 1, 64))
        .unwrap()
        .port("B", PortConfig::queuing_out(QueuingDiscipline::Fifo, 1, 128))
        .unwrap()
        .virtual_link(1, "A")
        .unwrap()
        .destination(1, "B")
        .unwrap()
        .schedule(1, Duration::from_millis(1))
        .unwrap();
    let cfg = b.build().unwrap();
    let res = RouterResources::<4, 4>::create(&cfg.interfaces, &cfg.ports);
    assert_eq!(
        RouteTable::<4, 4>::build(&cfg.virtual_links, &res).unwrap_err(),
        RouterConfigError::VirtualLink
    );
}

#[test]
fn too_many_inputs_is_a_storage_error() {
    let mut b = RouterConfig::<4, 4, 4, 4>::builder(1);
    b.port("A", PortConfig::queuing_in(QueuingDiscipline::Fifo, 1, 64))
        .unwrap()
        .port("B", PortConfig::queuing_in(QueuingDiscipline::Fifo, 1, 64))
        .unwrap();
    let cfg = b.build().unwrap();
    let res = RouterResources::<4, 4>::create(&cfg.interfaces, &cfg.ports);
    let no_links: BoundedMap<VirtualLinkId, VirtualLinkConfig<4>, 1> = BoundedMap { entries: Vec::new() };
    assert_eq!(
        RouteTable::<1, 4>::build(&no_links, &res).unwrap_err(),
        RouterConfigError::Storage
    );
}

#[test]
fn router_forwards_due_virtual_links_in_turn() {
    let cfg = sample_config();
    let res = RouterResources::<4, 4>::create(&cfg.interfaces, &cfg.ports);
    let start = Duration::zero();
    assert!(Router::<4, 4>::start_fits(&cfg.virtual_links, &start));
    let mut router = Router::<4, 4>::try_new(&cfg.virtual_links, &res, &start).unwrap();
    let t = Duration::from_millis(5);
    assert!(router.can_forward_at(&t));
    assert!(router.forward_at(Ok(t)).unwrap().is_none());
    let t = Duration::from_millis(19);
    assert!(router.forward_at(Ok(t)).unwrap().is_none());
    let t = Duration::from_millis(20);
    let (vl, route) = router.forward_at(Ok(t)).unwrap().unwrap();
    assert_eq!(vl, VirtualLinkId(1));
    assert_eq!(route.input.name.as_str(), "Advisory_1");
    assert!(router.forward_at(Ok(t)).unwrap().is_none());
    let t = Duration::from_millis(80);
    let (vl, route) = router.forward_at(Ok(t)).unwrap().unwrap();
    assert_eq!(vl, VirtualLinkId(3));
    assert_eq!(route.outputs[0].name.as_str(), "FCC_3");
    let t = Duration::from_millis(81);
    let (vl, _) = router.forward_at(Ok(t)).unwrap().unwrap();
    assert_eq!(vl, VirtualLinkId(1));
}

#[test]
fn invalid_time_is_a_schedule_error() {
    let cfg = sample_config();
    let res = RouterResources::<4, 4>::create(&cfg.interfaces, &cfg.ports);
    let mut router = Router::<4, 4>::try_new(&cfg.virtual_links, &res, &Duration::zero()).unwrap();
    assert!(matches!(router.forward_at(Err(InvalidTimeError)), Err(Error::Schedule(_))));
}

#[test]
fn router_refuses_invalid_configuration() {
    let mut b = RouterConfig::<4, 4, 4, 4>::builder(1);
    b.port("A", PortConfig::queuing_in(QueuingDiscipline::Fifo, 1, 64))
        .unwrap()
        .virtual_link(1, "A")
        .unwrap()
        .destination(1, "A")
        .unwrap()
        .schedule(1, Duration::from_millis(1))
        .unwrap();
    let cfg = b.build().unwrap();
    let res = RouterResources::<4, 4>::create(&cfg.interfaces, &cfg.ports);
    assert!(matches!(
        Router::<4, 4>::try_new(&cfg.virtual_links, &res, &Duration::zero()),
        Err(Error::Configuration(RouterConfigError::Destination))
    ));
}

struct Source(Vec<u8>);

impl RouterInput for Source {
    fn input_mtu(&self) -> usize {
        self.0.len()
    }

    fn delivers(&self, data: &[u8]) -> bool {
        data == self.0.as_slice()
    }

    fn receive_fails(&self, e: PortError) -> bool {
        e == PortError::Receive
    }

    fn receive(&self, buf: &mut [u8]) -> Result<usize, PortError> {
        if buf.len() < self.0.len() {
            return Err(PortError::Receive);
        }
        buf[..self.0.len()].copy_from_slice(&self.0);
        Ok(self.0.len())
    }

    fn mtu(&self) -> usize {
        self.0.len()
    }
}

struct Sink {
    got: RefCell<Vec<Vec<u8>>>,
    fail: bool,
}

impl RouterOutput for Sink {
    fn output_mtu(&self) -> usize {
        64
    }

    fn sends(&self, data: &[u8], r: Result<(), PortError>) -> bool {
        if self.fail || data.len() > 64 {
            r == Err(PortError::Send)
        } else {
            r == Ok(())
        }
    }

    fn send(&self, buf: &[u8]) -> Result<(), PortError> {
        if self.fail || buf.len() > 64 {
            return Err(PortError::Send);
        }
        self.got.borrow_mut().push(buf.to_vec());
        Ok(())
    }

    fn mtu(&self) -> usize {
        64
    }
}

#[test]
fn forward_message_copies_to_every_output_in_order() {
    let src = Source(vec![1, 2, 3]);
    let a = Sink { got: RefCell::new(vec![]), fail: false };
    let b = Sink { got: RefCell::new(vec![]), fail: false };
    let mut buf = [0u8; 16];
    let outs: [&dyn RouterOutput; 2] = [&a, &b];
    assert_eq!(forward_message(&src, &outs, &mut buf), Ok(3));
    assert_eq!(a.got.borrow().as_slice(), &[vec![1u8, 2, 3]]);
    assert_eq!(b.got.borrow().as_slice(), &[vec![1u8, 2, 3]]);
}

#[test]
fn forward_message_stops_at_failing_output() {
    let src = Source(vec![9]);
    let a = Sink { got: RefCell::new(vec![]), fail: true };
    let b = Sink { got: RefCell::new(vec![]), fail: false };
    let mut buf = [0u8; 4];
    let outs: [&dyn RouterOutput; 2] = [&a, &b];
    assert_eq!(forward_message(&src, &outs, &mut buf), Err(PortError::Send));
    assert!(b.got.borrow().is_empty());
    let mut small = [0u8; 0];
    assert_eq!(forward_message(&src, &outs, &mut small), Err(PortError::Receive));
}

#[test]
fn configurator_routes_named_resources() {
    let cfg = sample_config();
    let mut res = Resources::<4, 4>::new();
    res.insert_input("Advisory_1", 1_500).unwrap();
    res.insert_input("eth0", 1_500).unwrap();
    res.insert_output("eth0", 1_500).unwrap();
    res.insert_output("FCC_2", 1_500).unwrap();
    let mut sched = DeadlineRrScheduler::<4>::try_new(&[], &Duration::zero()).unwrap();
    assert_eq!(
        Configurator::reconfigure(&res, &mut sched, &cfg.virtual_links).unwrap_err(),
        CfgError::InvalidOutput
    );
    res.insert_output("FCC_3", 1_500).unwrap();
    let table = Configurator::reconfigure(&res, &mut sched, &cfg.virtual_links).unwrap();
    assert_eq!(table.route(&VirtualLinkId(3)).unwrap().input.name.as_str(), "eth0");
    assert_eq!(res.get_input("eth0").unwrap().mtu, 1_500);
    assert!(res.get_output("Advisory_1").is_none());
    res.insert_output("FCC_3", 64).unwrap();
    assert_eq!(
        Configurator::reconfigure(&res, &mut sched, &cfg.virtual_links).unwrap_err(),
        CfgError::InvalidVl
    );
    let small: Resources<2, 3> = res.grow();
    assert_eq!(small.outputs.entries.len(), 3);
    let empty = Resources::<4, 4>::new();
    assert_eq!(
        Configurator::reconfigure(&empty, &mut sched, &cfg.virtual_links).unwrap_err(),
        CfgError::InvalidInput
    );
    assert_eq!(CfgError::Storage.message(), "Insufficient storage for configuration");
}

#[test]
fn reconfigure_gives_scheduler_the_new_periods() {
    let cfg = sample_config();
    let mut res = Resources::<4, 4>::new();
    res.insert_input("Advisory_1", 1_500).unwrap();
    res.insert_input("eth0", 1_500).unwrap();
    res.insert_output("eth0", 1_500).unwrap();
    res.insert_output("FCC_2", 1_500).unwrap();
    res.insert_output("FCC_3", 1_500).unwrap();
    let mut sched = DeadlineRrScheduler::<4>::try_new(&[], &Duration::zero()).unwrap();
    Configurator::reconfigure(&res, &mut sched, &cfg.virtual_links).unwrap();
    assert_eq!(sched.windows.len(), cfg.virtual_links.entries.len());
    for (w, (vl, c)) in sched.windows.iter().zip(cfg.virtual_links.entries.iter()) {
        assert_eq!(w.vl, *vl);
        assert_eq!(w.period, c.period);
        assert_eq!(w.last, c.period);
    }
    let empty = RouterConfig::<4, 4, 4, 4>::builder(10).build().unwrap();
    let before = sched.windows.len();
    Configurator::reconfigure(&res, &mut sched, &empty.virtual_links).unwrap();
    assert_eq!(sched.windows.len(), before);
}

#[test]
fn full_resources_refuse_new_names() {
    let mut res = Resources::<1, 1>::new();
    res.insert_input("a", 8).unwrap();
    assert_eq!(res.insert_input("b", 8).unwrap_err(), CfgError::Storage);
    res.insert_input("a", 16).unwrap();
    assert_eq!(res.get_input("a").unwrap().mtu, 16);
    res.insert_output("c", 8).unwrap();
    assert_eq!(res.insert_output("d", 8).unwrap_err(), CfgError::Storage);
}

#[test]
fn forward_message_respects_interface_mtus() {
    let wide = NetworkInterface::<DummyNetIntf>::new(NetworkInterfaceId(1), 8);
    let narrow = NetworkInterface::<DummyNetIntf>::new(NetworkInterfaceId(2), 2);
    assert_eq!(RouterInput::mtu(&wide), 8);
    assert_eq!(RouterOutput::mtu(&narrow), 2);
    let mut short = [5u8; 4];
    assert_eq!(RouterInput::receive(&wide, &mut short), Err(PortError::Receive));
    assert_eq!(short, [5u8; 4]);
    assert_eq!(RouterOutput::send(&narrow, &[1, 2, 3]), Err(PortError::Send));
    assert_eq!(RouterOutput::send(&narrow, &[1, 2]), Ok(()));
    let src = Source(vec![1, 2, 3]);
    let outs: [&dyn RouterOutput; 2] = [&wide, &narrow];
    let mut buf = [0u8; 8];
    assert_eq!(forward_message(&src, &outs, &mut buf), Err(PortError::Send));
    let outs: [&dyn RouterOutput; 1] = [&wide];
    assert_eq!(forward_message(&src, &outs, &mut buf), Ok(3));
    assert_eq!(forward_message(&wide, &outs, &mut short), Err(PortError::Receive));
}

fn run_resources(with_fcc3: bool) -> Resources<4, 4> {
    let mut res = Resources::<4, 4>::new();
    res.insert_input("Advisory_1", 1_500).unwrap();
    res.insert_input("eth0", 1_500).unwrap();
    res.insert_output("eth0", 1_500).unwrap();
    res.insert_output("FCC_2", 1_500).unwrap();
    if with_fcc3 {
        res.insert_output("FCC_3", 1_500).unwrap();
    }
    res
}

#[test]
fn run_step_fetches_every_65536_rounds() {
    let res = run_resources(true);
    let mut st = RunState::<4, 4>::new();
    assert!(st.wants_config());
    assert_eq!(st.run_step(&res, None), RunAction::Idle);
    assert_eq!(st.timer, 1);
    assert!(!st.wants_config());
    assert_eq!(st.run_step(&res, Some(Ok(sample_config().virtual_links))), RunAction::Idle);
    assert!(st.routes.is_none());
    st.timer = 0xffff;
    assert_eq!(st.run_step(&res, None), RunAction::Idle);
    assert_eq!(st.timer, 0);
    assert!(st.wants_config());
}

#[test]
fn run_step_reconfigures_on_a_changed_configuration() {
    let res = run_resources(true);
    let mut st = RunState::<4, 4>::new();
    assert_eq!(st.run_step(&res, Some(Ok(sample_config().virtual_links))), RunAction::Forward);
    assert_eq!(st.cfg.entries.len(), 2);
    assert_eq!(st.scheduler.windows.len(), 2);
    assert_eq!(st.scheduler.windows[0].last, Duration::from_millis(10));
    st.scheduler.last_window = 1;
    st.timer = 0;
    assert_eq!(st.run_step(&res, Some(Ok(sample_config().virtual_links))), RunAction::Forward);
    assert_eq!(st.scheduler.last_window, 1);
    st.timer = 0;
    assert_eq!(st.run_step(&res, Some(Err(CfgError::Format))), RunAction::Forward);
    assert_eq!(st.cfg.entries.len(), 2);
    let now = Duration::from_millis(20);
    assert!(st.can_forward_at(&now));
    let (vl, route) = st.forward_at(Ok(now)).unwrap().unwrap();
    assert_eq!(vl, VirtualLinkId(1));
    assert_eq!(route.input.name.as_str(), "Advisory_1");
    assert!(st.forward_at(Ok(now)).unwrap().is_none());
    assert!(matches!(st.forward_at(Err(InvalidTimeError)), Err(Error::Schedule(_))));
}

#[test]
fn run_step_keeps_routes_when_new_ones_are_refused() {
    let res = run_resources(false);
    let mut st = RunState::<4, 4>::new();
    assert_eq!(st.run_step(&res, Some(Ok(sample_config().virtual_links))), RunAction::Idle);
    assert!(st.routes.is_none());
    assert_eq!(st.cfg.entries.len(), 0);
    assert_eq!(st.scheduler.windows.len(), 2);
}

#[test]
fn configurations_compare_as_maps() {
    let a = sample_config().virtual_links;
    let b = sample_config().virtual_links;
    assert!(same_links_config(&a, &b));
    let mut c = RouterConfig::<4, 4, 4, 4>::builder(10);
    c.interface("eth0", InterfaceConfig::new("NodeA", "NodeB", DataRate::b(10_000_000), 1_500))
        .unwrap()
        .port("Advisory_1", PortConfig::queuing_in(QueuingDiscipline::Fifo, 10, 1_500))
        .unwrap()
        .port("FCC_3", PortConfig::sampling_out(1_500))
        .unwrap()
        .port("FCC_2", PortConfig::queuing_out(QueuingDiscipline::Fifo, 10, 1_500))
        .unwrap()
        .virtual_link(3, "eth0")
        .unwrap()
        .destination(3, "FCC_3")
        .unwrap()
        .schedule(3, Duration::from_millis(40))
        .unwrap()
        .virtual_link(1, "Advisory_1")
        .unwrap()
        .destination(1, "eth0")
        .unwrap()
        .destination(1, "FCC_2")
        .unwrap()
        .schedule(1, Duration::from_millis(10))
        .unwrap();
    let c = c.build().unwrap().virtual_links;
    assert!(same_links_config(&a, &c));
    assert!(same_link(&a.entries[0].1, &c.entries[1].1));
    assert!(!same_link(&a.entries[0].1, &a.entries[1].1));
    let empty = RouterConfig::<4, 4, 4, 4>::builder(10).build().unwrap().virtual_links;
    assert!(!same_links_config(&a, &empty));
}

#[test]
fn creating_a_router_twice_gives_the_same_router() {
    let cfg = sample_config();
    let res = RouterResources::<4, 4>::create(&cfg.interfaces, &cfg.ports);
    let start = Duration::from_millis(3);
    let a = Router::<4, 4>::try_new(&cfg.virtual_links, &res, &start).unwrap();
    let b = Router::<4, 4>::try_new(&cfg.virtual_links, &res, &start).unwrap();
    assert_eq!(a.scheduler.last_window, b.scheduler.last_window);
    assert_eq!(a.scheduler.windows.len(), b.scheduler.windows.len());
    for (x, y) in a.scheduler.windows.iter().zip(b.scheduler.windows.iter()) {
        assert_eq!((x.vl, x.period, x.last), (y.vl, y.period, y.last));
    }
    assert_eq!(a.routes.routes.entries.len(), b.routes.routes.entries.len());
    for ((v, r), (w, s)) in a.routes.routes.entries.iter().zip(b.routes.routes.entries.iter()) {
        assert_eq!(v, w);
        assert_eq!(r.input.name.as_str(), s.input.name.as_str());
        assert_eq!(r.outputs.len(), s.outputs.len());
    }
}

#[test]
fn router_forwards_due_link_through_named_endpoints() {
    let cfg = sample_config();
    let res = RouterResources::<4, 4>::create(&cfg.interfaces, &cfg.ports);
    let mut router = Router::<4, 4>::try_new(&cfg.virtual_links, &res, &Duration::zero()).unwrap();
    let src = Source(vec![1, 2, 3]);
    let eth = Sink { got: RefCell::new(vec![]), fail: false };
    let fcc = Sink { got: RefCell::new(vec![]), fail: false };
    let inputs: [(PortName, &dyn RouterInput); 1] = [(PortName::from_str("Advisory_1").unwrap(), &src)];
    let outputs: [(PortName, &dyn RouterOutput); 2] = [
        (PortName::from_str("eth0").unwrap(), &eth),
        (PortName::from_str("FCC_2").unwrap(), &fcc),
    ];
    let mut buf = [0u8; 16];
    assert!(matches!(
        router.forward(Ok(Duration::from_millis(5)), &inputs, &outputs, &mut buf),
        Ok(None)
    ));
    assert!(matches!(
        router.forward(Ok(Duration::from_millis(20)), &inputs, &outputs, &mut buf),
        Ok(Some(VirtualLinkId(1)))
    ));
    assert_eq!(eth.got.borrow().as_slice(), &[vec![1u8, 2, 3]]);
    assert_eq!(fcc.got.borrow().as_slice(), &[vec![1u8, 2, 3]]);
    assert!(matches!(
        router.forward(Ok(Duration::from_millis(80)), &inputs, &outputs, &mut buf),
        Err(Error::Route(RouteError::InvalidVl))
    ));
    assert!(matches!(
        router.forward(Err(InvalidTimeError), &inputs, &outputs, &mut buf),
        Err(Error::Schedule(_))
    ));
    let failing = Sink { got: RefCell::new(vec![]), fail: true };
    let outputs: [(PortName, &dyn RouterOutput); 2] = [
        (PortName::from_str("eth0").unwrap(), &failing),
        (PortName::from_str("FCC_2").unwrap(), &fcc),
    ];
    assert!(matches!(
        router.forward(Ok(Duration::from_millis(40)), &inputs, &outputs, &mut buf),
        Err(Error::Port(PortError::Send))
    ));
    assert_eq!(fcc.got.borrow().len(), 1);
}
