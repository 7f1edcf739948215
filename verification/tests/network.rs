use a653rs_router::network::{
    CreateNetworkInterface, CreateNetworkInterfaceId, DummyNetIntf, InterfaceConfig, InterfaceError,
    NetworkInterface, PlatformNetworkInterface,
};
use a653rs_router::network_partition::error::{Error as PartitionError, InterfaceError as PartitionInterfaceError};
use a653rs_router::network_partition::network as partition_network;
use a653rs_router::network_partition::network::CreateNetworkInterface as CreatePartitionInterface;
use a653rs_router::types::{DataRate, NetworkInterfaceId, VirtualLinkId};

#[derive(Debug)]
struct Loopback;

impl PlatformNetworkInterface for Loopback {
    fn receives(id: NetworkInterfaceId, r: Result<usize, InterfaceError>) -> bool {
        if id.0 == 9 {
            r == Err(InterfaceError::NoData)
        } else {
            r == Ok(1)
        }
    }

    fn platform_interface_send_unchecked(
        id: NetworkInterfaceId,
        buffer: &[u8],
    ) -> Result<usize, InterfaceError> {
        if id.0 == 9 {
            return Err(InterfaceError::SendFailed);
        }
        Ok(buffer.len())
    }

    fn platform_interface_receive_unchecked(
        id: NetworkInterfaceId,
        buffer: &mut [u8],
    ) -> Result<usize, InterfaceError> {
        if id.0 == 9 {
            return Err(InterfaceError::NoData);
        }
        buffer[0] = 7;
        Ok(1)
    }
}

impl CreateNetworkInterfaceId<Loopback> for Loopback {
    fn create_network_interface_id(
        cfg: &InterfaceConfig,
    ) -> Result<NetworkInterfaceId, InterfaceError> {
        if cfg.source == "missing" {
            return Err(InterfaceError::NotFound);
        }
        Ok(NetworkInterfaceId(1))
    }
}

#[test]
fn send_refuses_data_longer_than_mtu() {
    let ni = NetworkInterface::<Loopback>::new(NetworkInterfaceId(1), 4);
    assert_eq!(ni.send(&[0u8; 5]), Err(InterfaceError::InsufficientBuffer));
    assert_eq!(ni.send(&[0u8; 4]), Ok(4));
    let broken = NetworkInterface::<Loopback>::new(NetworkInterfaceId(9), 4);
    assert_eq!(broken.send(&[0u8; 1]), Err(InterfaceError::SendFailed));
}

#[test]
fn receive_refuses_buffer_shorter_than_mtu() {
    let ni = NetworkInterface::<Loopback>::new(NetworkInterfaceId(1), 4);
    let mut small = [1u8; 3];
    assert_eq!(ni.receive(&mut small), Err(InterfaceError::InsufficientBuffer));
    assert_eq!(small, [1u8; 3]);
    let mut buf = [0u8; 4];
    assert_eq!(ni.receive(&mut buf), Ok(1));
    assert_eq!(buf[0], 7);
}

#[test]
fn created_interface_takes_configured_mtu() {
    let cfg = InterfaceConfig::new("NodeA", "NodeB", DataRate::b(1_000), 1_500);
    let ni = <Loopback as CreateNetworkInterface<Loopback>>::create_network_interface(&cfg).unwrap();
    assert_eq!(ni.mtu, 1_500);
    assert_eq!(ni.id, NetworkInterfaceId(1));
    let cfg = InterfaceConfig::new("missing", "NodeB", DataRate::b(1_000), 1_500);
    assert_eq!(
        <Loopback as CreateNetworkInterface<Loopback>>::create_network_interface(&cfg).unwrap_err(),
        InterfaceError::NotFound
    );
}

#[derive(Debug)]
struct Tagged;

impl partition_network::PlatformNetworkInterface for Tagged {
    fn receives(
        _id: NetworkInterfaceId,
        r: Result<(VirtualLinkId, usize), PartitionInterfaceError>,
    ) -> bool {
        r == Ok((VirtualLinkId(5), 1)) || r == Err(PartitionInterfaceError::NoData)
    }

    fn platform_interface_send_unchecked(
        _id: NetworkInterfaceId,
        _vl: VirtualLinkId,
        buffer: &[u8],
    ) -> Result<usize, PartitionInterfaceError> {
        Ok(buffer.len())
    }

    fn platform_interface_receive_unchecked(
        _id: NetworkInterfaceId,
        buffer: &mut [u8],
    ) -> Result<(VirtualLinkId, usize), PartitionInterfaceError> {
        if buffer.is_empty() {
            return Err(PartitionInterfaceError::NoData);
        }
        buffer[0] = 1;
        Ok((VirtualLinkId(5), 1))
    }
}

impl partition_network::CreateNetworkInterfaceId<Tagged> for Tagged {
    fn create_network_interface_id(
        name: &str,
        _destination: &str,
        _rate: DataRate,
    ) -> Result<NetworkInterfaceId, PartitionInterfaceError> {
        if name.is_empty() {
            return Err(PartitionInterfaceError::NotFound);
        }
        Ok(NetworkInterfaceId(3))
    }
}

#[test]
fn partition_interface_checks_mtu_and_tags_errors() {
    let ni = partition_network::NetworkInterface::<8, Tagged>::new(NetworkInterfaceId(3));
    assert_eq!(ni.id(), NetworkInterfaceId(3));
    assert!(matches!(
        ni.send(&VirtualLinkId(1), &[0u8; 9]),
        Err(PartitionError::InterfaceSendFail(PartitionInterfaceError::InsufficientBuffer))
    ));
    assert!(matches!(ni.send(&VirtualLinkId(1), &[0u8; 8]), Ok(8)));
    let mut small = [0u8; 7];
    assert!(matches!(
        ni.receive(&mut small),
        Err(PartitionError::InterfaceReceiveFail(PartitionInterfaceError::InsufficientBuffer))
    ));
    let mut buf = [0u8; 8];
    assert!(matches!(ni.receive(&mut buf), Ok((VirtualLinkId(5), 1))));
}

#[test]
fn partition_interface_creation_error_is_tagged() {
    let r = <Tagged as CreatePartitionInterface<Tagged>>::create_network_interface::<8>("", "b", DataRate::b(1));
    assert!(matches!(
        r,
        Err(PartitionError::InterfaceCreationError(PartitionInterfaceError::NotFound))
    ));
    let ni = <Tagged as CreatePartitionInterface<Tagged>>::create_network_interface::<8>("eth0", "b", DataRate::b(1)).unwrap();
    assert_eq!(ni.id(), NetworkInterfaceId(3));
}

#[test]
fn errors_describe_themselves() {
    assert_eq!(InterfaceError::SendFailed.message(), "Send failed");
    assert_eq!(InterfaceError::NoData.message(), "No data available");
    assert_eq!(
        a653rs_router::ports::PortError::WouldBlock.message(),
        "Operation would block"
    );
}

#[test]
fn dummy_driver_reports_fixed_results() {
    let ni = NetworkInterface::<DummyNetIntf>::new(NetworkInterfaceId(1), 8);
    assert_eq!(ni.send(&[1, 2, 3]), Ok(1));
    let mut buf = [5u8; 8];
    assert_eq!(ni.receive(&mut buf), Ok(8));
    assert_eq!(buf, [5u8; 8]);
    let cfg = InterfaceConfig::new("a", "b", DataRate::b(1), 8);
    assert_eq!(
        <DummyNetIntf as CreateNetworkInterfaceId<DummyNetIntf>>::create_network_interface_id(&cfg),
        Ok(NetworkInterfaceId(1))
    );
}
