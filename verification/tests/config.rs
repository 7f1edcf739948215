use a653rs_router::config::{
    PortConfig, PortName, QueuingDiscipline, RouterConfig, RouterConfigError,
};
use a653rs_router::network::InterfaceConfig;
use a653rs_router::time::Duration;
use a653rs_router::types::DataRate;

#[test]
fn build_config() {
    _ = RouterConfig::<8, 8, 8, 8>::builder(10_000)
        .interface(
            "eth0",
            InterfaceConfig::new("NodeA", "NodeB", DataRate::b(10_000_000), 1_500),
        )
        .unwrap()
        .interface(
            "eth1",
            InterfaceConfig::new("NodeA", "NodeB", DataRate::b(10_000_000), 1_500),
        )
        .unwrap()
        .port(
            "Advisory_1",
            PortConfig::queuing_in(QueuingDiscipline::Fifo, 10, 1_0000),
        )
        .unwrap()
        .port(
            "Advisory_2",
            PortConfig::queuing_in(QueuingDiscipline::Fifo, 10, 1_0000),
        )
        .unwrap()
        .port(
            "FCC_1",
            PortConfig::queuing_in(QueuingDiscipline::Fifo, 10, 1_0000),
        )
        .unwrap()
        .port(
            "FCC_2",
            PortConfig::queuing_out(QueuingDiscipline::Fifo, 10, 1_0000),
        )
        .unwrap()
        .port(
            "FCC_3",
            PortConfig::queuing_out(QueuingDiscipline::Fifo, 10, 1_0000),
        )
        .unwrap()
        // VL 1
        .virtual_link(1, "Advisory_1")
        .unwrap()
        .destination(1, "eth0")
        .unwrap()
        .destination(1, "FCC_1")
        .unwrap()
        .schedule(1, Duration::from_millis(10))
        .unwrap()
        // VL2
        .virtual_link(2, "Advisory_2")
        .unwrap()
        .destination(2, "eth0")
        .unwrap()
        .destination(2, "FCC_2")
        .unwrap()
        .schedule(2, Duration::from_millis(20))
        .unwrap()
        // VL3
        .virtual_link(3, "eth0")
        .unwrap()
        .destination(3, "FCC_3")
        .unwrap()
        .destination(3, "eth1")
        .unwrap()
        .schedule(3, Duration::from_millis(40))
        .unwrap()
        .build()
        .unwrap();
}

#[test]
fn builder_rejects_unknown_source_and_destination() {
    let mut b = RouterConfig::<2, 2, 2, 2>::builder(1);
    b.port("in", PortConfig::sampling_in(8, Duration::from_millis(1))).unwrap();
    assert_eq!(b.virtual_link(1, "nowhere").unwrap_err(), RouterConfigError::Source);
    b.virtual_link(1, "in").unwrap();
    assert_eq!(b.virtual_link(1, "in").unwrap_err(), RouterConfigError::VirtualLink);
    assert_eq!(b.destination(1, "nowhere").unwrap_err(), RouterConfigError::Destination);
    assert_eq!(b.destination(2, "in").unwrap_err(), RouterConfigError::VirtualLink);
    assert_eq!(b.schedule(2, Duration::from_millis(1)).unwrap_err(), RouterConfigError::VirtualLink);
}

#[test]
fn builder_rejects_long_names_and_full_maps() {
    let mut b = RouterConfig::<1, 1, 1, 1>::builder(1);
    assert_eq!(
        b.port("a_name_that_is_too_long", PortConfig::sampling_out(8)).unwrap_err(),
        RouterConfigError::Port
    );
    b.port("out", PortConfig::sampling_out(8)).unwrap();
    assert_eq!(
        b.port("out", PortConfig::sampling_out(16)).unwrap_err(),
        RouterConfigError::Port
    );
    assert_eq!(
        b.port("other", PortConfig::sampling_out(8)).unwrap_err(),
        RouterConfigError::Storage
    );
    let ifc = InterfaceConfig::new("a", "b", DataRate::b(1), 8);
    b.interface("eth0", ifc.clone()).unwrap();
    assert_eq!(b.interface("eth1", ifc.clone()).unwrap_err(), RouterConfigError::Storage);
    assert_eq!(
        b.interface("an_interface_name_too_long", ifc).unwrap_err(),
        RouterConfigError::Interface
    );
    b.virtual_link(7, "out").unwrap();
    b.destination(7, "eth0").unwrap();
    assert_eq!(b.destination(7, "out").unwrap_err(), RouterConfigError::Storage);
    assert_eq!(b.virtual_link(8, "out").unwrap_err(), RouterConfigError::Storage);
}

#[test]
fn build_refuses_zero_period() {
    let mut b = RouterConfig::<2, 2, 2, 2>::builder(1);
    b.port("in", PortConfig::sampling_in(8, Duration::from_millis(1))).unwrap();
    b.virtual_link(1, "in").unwrap();
    assert_eq!(b.build().unwrap_err(), RouterConfigError::Schedule);
    b.schedule(1, Duration::from_millis(5)).unwrap();
    let cfg = b.build().unwrap();
    assert_eq!(cfg.virtual_links.entries.len(), 1);
    assert_eq!(cfg.virtual_links.entries[0].1.period, Duration::from_millis(5));
}

#[test]
fn port_names_hold_twenty_bytes() {
    assert!(PortName::from_str("exactly_twenty_bytes").is_ok());
    assert_eq!(
        PortName::from_str("twenty_one_bytes_long").unwrap_err(),
        RouterConfigError::Port
    );
    assert_eq!(PortName::from_str("FCC_1").unwrap().as_str(), "FCC_1");
}

#[test]
fn port_names_are_printable_ascii() {
    assert!(PortName::from_str("10.10.0.1:81234").is_ok());
    assert!(PortName::from_str(" ~").is_ok());
    assert!(PortName::from_str("").is_ok());
    assert_eq!(PortName::from_str("\u{7f}").unwrap_err(), RouterConfigError::Port);
    assert_eq!(PortName::from_str("eth\t0").unwrap_err(), RouterConfigError::Port);
    assert_eq!(PortName::from_str("caf\u{e9}").unwrap_err(), RouterConfigError::Port);
    let mut b = RouterConfig::<2, 2, 2, 2>::builder(10);
    assert_eq!(
        b.port("FCC\u{7f}", PortConfig::sampling_in(8, Duration::from_millis(1))).unwrap_err(),
        RouterConfigError::Port
    );
    assert_eq!(b.build().unwrap().ports.entries.len(), 0);
}

#[test]
fn builder_steps_change_the_builder_they_return() {
    let mut b = RouterConfig::<2, 2, 2, 2>::builder(10);
    b.port("A", PortConfig::sampling_in(8, Duration::from_millis(1))).unwrap();
    assert_eq!(
        b.port("A", PortConfig::sampling_in(8, Duration::from_millis(1))).unwrap_err(),
        RouterConfigError::Port
    );
    assert_eq!(b.build().unwrap().ports.entries.len(), 1);
}
