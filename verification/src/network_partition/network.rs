//! Network interfaces of the network partition, whose frames carry the id of
//! their virtual link.

use crate::network_partition::error::{Error, InterfaceError};
use crate::types::{DataRate, NetworkInterfaceId, VirtualLinkId};
use vstd::prelude::*;

verus! {

/// Size of a frame payload.
pub type PayloadSize = u32;

/// Platform-specific network interface type: the driver of the interfaces
/// of one kind, implemented by each platform.
pub trait PlatformNetworkInterface {
    /// Holds where a receive on interface `id` can end with `r`; it
    /// describes the driver to proofs and is never called.
    spec fn receives(id: NetworkInterfaceId, r: Result<(VirtualLinkId, usize), InterfaceError>) -> bool;

    /// Sends `buffer` as a frame of virtual link `vl` on interface `id` and
    /// reports how many bytes were sent.
    fn platform_interface_send_unchecked(
        id: NetworkInterfaceId,
        vl: VirtualLinkId,
        buffer: &[u8],
    ) -> (r: Result<usize, InterfaceError>);

    /// Receives a frame from interface `id` into the front of `buffer` and
    /// reports its virtual link id and the length of its payload.
    fn platform_interface_receive_unchecked(id: NetworkInterfaceId, buffer: &mut [u8]) -> (r:
        Result<(VirtualLinkId, usize), InterfaceError>)
        ensures
            final(buffer)@.len() == old(buffer)@.len(),
            r matches Ok((_, n)) ==> n <= old(buffer)@.len(),
            Self::receives(id, r),
    ;
}

/// A network interface with the maximum transfer unit `MTU`.
#[derive(Debug)]
pub struct NetworkInterface<const MTU: u32, H: PlatformNetworkInterface> {
    /// The driver of the interface, known by its type alone.
    pub driver: core::marker::PhantomData<H>,
    /// The id under which the driver knows the interface.
    pub id: NetworkInterfaceId,
}

impl<const MTU: u32, H: PlatformNetworkInterface> NetworkInterface<MTU, H> {
    /// The interface that the driver `H` knows by `id`.
    pub fn new(id: NetworkInterfaceId) -> (n: Self)
        ensures
            n.id == id,
    {
        NetworkInterface { driver: core::marker::PhantomData, id }
    }

    /// The id of the interface.
    pub fn id(&self) -> (id: NetworkInterfaceId)
        ensures
            id == self.id,
    {
        self.id
    }

    /// Sends data to the interface as a frame of virtual link `vl`.
    ///
    /// Data longer than the MTU is refused with `InsufficientBuffer`; other
    /// data goes to the driver under the interface's id and `vl`, whose
    /// answer is returned, a failure as a failure to send.
    pub fn send(&self, vl: &VirtualLinkId, buf: &[u8]) -> (r: Result<usize, Error>)
        ensures
            buf@.len() > MTU ==> r == Err::<usize, Error>(
                Error::InterfaceSendFail(InterfaceError::InsufficientBuffer),
            ),
            r matches Err(e) ==> e is InterfaceSendFail,
            buf@.len() <= MTU ==> match r {
                Ok(n) => call_ensures(
                    H::platform_interface_send_unchecked,
                    (self.id, *vl, buf),
                    Ok::<usize, InterfaceError>(n),
                ),
                Err(Error::InterfaceSendFail(e)) => call_ensures(
                    H::platform_interface_send_unchecked,
                    (self.id, *vl, buf),
                    Err::<usize, InterfaceError>(e),
                ),
                Err(_) => false,
            },
    {
        if buf.len() > MTU as usize {
            return Err(Error::InterfaceSendFail(InterfaceError::InsufficientBuffer));
        }
        match H::platform_interface_send_unchecked(self.id, *vl, buf) {
            Ok(bytes) => Ok(bytes),
            Err(e) => Err(Error::InterfaceSendFail(e)),
        }
    }

    /// Receives a frame from the interface into the front of `buf` and
    /// returns its virtual link id and the length of its payload.
    ///
    /// A buffer shorter than the MTU is refused with `InsufficientBuffer` and
    /// left as it is; otherwise the driver receives into it on the
    /// interface's id, and its answer is returned, a failure as a failure to
    /// receive.
    pub fn receive(&self, buf: &mut [u8]) -> (r: Result<(VirtualLinkId, usize), Error>)
        ensures
            final(buf)@.len() == old(buf)@.len(),
            old(buf)@.len() < MTU ==> r == Err::<(VirtualLinkId, usize), Error>(
                Error::InterfaceReceiveFail(InterfaceError::InsufficientBuffer),
            ) && final(buf)@ == old(buf)@,
            r matches Ok((_, n)) ==> n <= old(buf)@.len(),
            r matches Err(e) ==> e is InterfaceReceiveFail,
            old(buf)@.len() >= MTU ==> match r {
                Ok(x) => H::receives(self.id, Ok(x)),
                Err(Error::InterfaceReceiveFail(e)) => H::receives(self.id, Err(e)),
                Err(_) => false,
            },
    {
        if buf.len() < MTU as usize {
            return Err(Error::InterfaceReceiveFail(InterfaceError::InsufficientBuffer));
        }
        match H::platform_interface_receive_unchecked(self.id, buf) {
            Ok(res) => Ok(res),
            Err(e) => Err(Error::InterfaceReceiveFail(e)),
        }
    }
}

/// Creates a network interface id.
pub trait CreateNetworkInterfaceId<H: PlatformNetworkInterface> {
    /// Creates a network interface id for the interface `name` that sends
    /// to `destination` at `rate`.
    fn create_network_interface_id(name: &str, destination: &str, rate: DataRate) -> (r: Result<
        NetworkInterfaceId,
        InterfaceError,
    >);
}

/// Creates a network interface with an MTU.
pub trait CreateNetworkInterface<H: PlatformNetworkInterface> {
    /// Creates the network interface `name` that sends to `destination` at
    /// `rate`.
    fn create_network_interface<const MTU: u32>(
        name: &str,
        destination: &str,
        rate: DataRate,
    ) -> (r: Result<NetworkInterface<MTU, H>, Error>)
        ensures
            r matches Err(e) ==> e is InterfaceCreationError,
    ;
}

impl<H: PlatformNetworkInterface, T: CreateNetworkInterfaceId<H>> CreateNetworkInterface<H> for T {
    /// The interface gets the id that `create_network_interface_id` gave;
    /// an error of that call becomes an `InterfaceCreationError`.
    fn create_network_interface<const MTU: u32>(
        name: &str,
        destination: &str,
        rate: DataRate,
    ) -> (r: Result<NetworkInterface<MTU, H>, Error>)
        ensures
            match r {
                Ok(n) => call_ensures(
                    T::create_network_interface_id,
                    (name, destination, rate),
                    Ok::<NetworkInterfaceId, InterfaceError>(n.id),
                ),
                Err(Error::InterfaceCreationError(e)) => call_ensures(
                    T::create_network_interface_id,
                    (name, destination, rate),
                    Err::<NetworkInterfaceId, InterfaceError>(e),
                ),
                Err(_) => false,
            },
    {
        match T::create_network_interface_id(name, destination, rate) {
            Ok(id) => Ok(NetworkInterface::new(id)),
            Err(e) => Err(Error::InterfaceCreationError(e)),
        }
    }
}

} // verus!
