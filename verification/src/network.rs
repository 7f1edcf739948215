//! Network interfaces of the router.

use crate::types::{DataRate, NetworkInterfaceId};
use vstd::prelude::*;

verus! {

broadcast use vstd::string::to_string_from_display_ensures_for_str;

/// Size of a frame payload.
pub type PayloadSize = usize;

/// The longest socket name, in bytes.
pub const MAX_SOCKET_NAME: usize = 50;

/// The number of bytes that the UTF-8 encoding of `s` takes.
pub open spec fn utf8_len(s: Seq<char>) -> int {
    vstd::utf8::encode_utf8(s).len() as int
}

/// Configuration for an interface.
#[derive(Debug)]
pub struct InterfaceConfig {
    /// Source address the interface is bound to.
    pub source: String,
    /// The maximum rate the interface can transmit at.
    pub rate: DataRate,
    /// The maximum size of a message that will be transmitted using this
    /// interface.
    pub mtu: PayloadSize,
    /// Destination peer.
    pub destination: String,
}

/// What an interface configuration holds, as plain values.
pub struct InterfaceView {
    /// Source address.
    pub source: Seq<char>,
    /// Data rate.
    pub rate: DataRate,
    /// Maximum transfer unit.
    pub mtu: PayloadSize,
    /// Destination peer.
    pub destination: Seq<char>,
}

impl View for InterfaceConfig {
    type V = InterfaceView;

    open spec fn view(&self) -> InterfaceView {
        InterfaceView {
            source: self.source@,
            rate: self.rate,
            mtu: self.mtu,
            destination: self.destination@,
        }
    }
}

impl InterfaceConfig {
    /// Source and destination take at most `MAX_SOCKET_NAME` bytes each.
    pub open spec fn wf(&self) -> bool {
        &&& utf8_len(self.source@) <= MAX_SOCKET_NAME
        &&& utf8_len(self.destination@) <= MAX_SOCKET_NAME
    }

    /// Creates a new configuration.
    pub fn new(source: &str, destination: &str, rate: DataRate, mtu: PayloadSize) -> (c: Self)
        requires
            utf8_len(source@) <= MAX_SOCKET_NAME,
            utf8_len(destination@) <= MAX_SOCKET_NAME,
        ensures
            c.wf(),
            c.source@ == source@,
            c.destination@ == destination@,
            c.rate == rate,
            c.mtu == mtu,
    {
        InterfaceConfig {
            source: source.to_string(),
            destination: destination.to_string(),
            rate,
            mtu,
        }
    }
}

impl Clone for InterfaceConfig {
    fn clone(&self) -> (c: Self)
        ensures
            c == *self,
    {
        InterfaceConfig {
            source: self.source.clone(),
            rate: self.rate,
            mtu: self.mtu,
            destination: self.destination.clone(),
        }
    }
}

/// Interface error type.
#[derive(Clone, Copy, Debug, PartialEq, Eq, Structural)]
pub enum InterfaceError {
    /// Insufficient buffer space
    InsufficientBuffer,
    /// No data available
    NoData,
    /// Invalid data received from interface
    InvalidData,
    /// Interface not found
    NotFound,
    /// Sending failed
    SendFailed,
}


impl InterfaceError {
    /// A sentence that describes the error.
    pub fn message(&self) -> (s: &'static str)
        ensures
            *self == InterfaceError::NoData ==> s@ == "No data available"@,
            *self == InterfaceError::InsufficientBuffer ==> s@ == "Insufficient buffer space"@,
            *self == InterfaceError::InvalidData ==> s@ == "Invalid data"@,
            *self == InterfaceError::NotFound ==> s@ == "Interface not found"@,
            *self == InterfaceError::SendFailed ==> s@ == "Send failed"@,
    {
        match self {
            InterfaceError::NoData => "No data available",
            InterfaceError::InsufficientBuffer => "Insufficient buffer space",
            InterfaceError::InvalidData => "Invalid data",
            InterfaceError::NotFound => "Interface not found",
            InterfaceError::SendFailed => "Send failed",
        }
    }
}

/// Platform-specific network interface type: the driver of the interfaces
/// of one kind, implemented by each platform.
pub trait PlatformNetworkInterface {
    /// Holds where a receive on interface `id` can end with `r`; it
    /// describes the driver to proofs and is never called.
    spec fn receives(id: NetworkInterfaceId, r: Result<usize, InterfaceError>) -> bool;

    /// Sends `buffer` to the network on interface `id` and reports how many
    /// bytes were sent.
    fn platform_interface_send_unchecked(id: NetworkInterfaceId, buffer: &[u8]) -> (r: Result<
        usize,
        InterfaceError,
    >);

    /// Receives a message from the network on interface `id` into the front
    /// of `buffer` and reports its length.
    fn platform_interface_receive_unchecked(id: NetworkInterfaceId, buffer: &mut [u8]) -> (r:
        Result<usize, InterfaceError>)
        ensures
            final(buffer)@.len() == old(buffer)@.len(),
            r matches Ok(n) ==> n <= old(buffer)@.len(),
            Self::receives(id, r),
    ;
}

/// A network interface: a driver, the id that the driver gave it and its
/// maximum transfer unit.
#[derive(Debug)]
pub struct NetworkInterface<P: PlatformNetworkInterface> {
    /// The driver of the interface, known by its type alone.
    pub driver: core::marker::PhantomData<P>,
    /// The id under which the driver knows the interface.
    pub id: NetworkInterfaceId,
    /// Maximum transfer unit.
    pub mtu: PayloadSize,
}

impl<H: PlatformNetworkInterface> NetworkInterface<H> {
    /// A network interface of the driver `H` with the id `id` and the MTU
    /// `mtu`.
    pub fn new(id: NetworkInterfaceId, mtu: PayloadSize) -> (n: Self)
        ensures
            n.id == id,
            n.mtu == mtu,
    {
        NetworkInterface { driver: core::marker::PhantomData, id, mtu }
    }

    /// Sends data to the interface.
    ///
    /// Data longer than the MTU is refused with `InsufficientBuffer`; other
    /// data goes to the driver under the interface's id, and the driver's
    /// answer is returned.
    pub fn send(&self, buf: &[u8]) -> (r: Result<usize, InterfaceError>)
        ensures
            buf@.len() > self.mtu ==> r == Err::<usize, InterfaceError>(
                InterfaceError::InsufficientBuffer,
            ),
            buf@.len() <= self.mtu ==> call_ensures(H::platform_interface_send_unchecked, (self.id, buf), r),
    {
        if buf.len() > self.mtu {
            return Err(InterfaceError::InsufficientBuffer);
        }
        H::platform_interface_send_unchecked(self.id, buf)
    }

    /// Receives data from the interface into the front of `buf` and returns
    /// its length.
    ///
    /// A buffer shorter than the MTU is refused with `InsufficientBuffer` and
    /// left as it is; otherwise the driver receives into it on the
    /// interface's id, and its answer is returned.
    pub fn receive(&self, buf: &mut [u8]) -> (r: Result<usize, InterfaceError>)
        ensures
            final(buf)@.len() == old(buf)@.len(),
            old(buf)@.len() < self.mtu ==> r == Err::<usize, InterfaceError>(
                InterfaceError::InsufficientBuffer,
            ) && final(buf)@ == old(buf)@,
            r matches Ok(n) ==> n <= old(buf)@.len(),
            old(buf)@.len() >= self.mtu ==> H::receives(self.id, r),
    {
        if buf.len() < self.mtu {
            return Err(InterfaceError::InsufficientBuffer);
        }
        H::platform_interface_receive_unchecked(self.id, buf)
    }
}

/// Creates a network interface id.
pub trait CreateNetworkInterfaceId<H: PlatformNetworkInterface> {
    /// Creates a network interface id for the interface configured by
    /// `cfg`.
    fn create_network_interface_id(cfg: &InterfaceConfig) -> (r: Result<
        NetworkInterfaceId,
        InterfaceError,
    >);
}

/// Creates a network interface with an MTU.
pub trait CreateNetworkInterface<H: PlatformNetworkInterface> {
    /// Creates the network interface configured by `cfg`.
    fn create_network_interface(cfg: &InterfaceConfig) -> (r: Result<
        NetworkInterface<H>,
        InterfaceError,
    >)
        ensures
            r matches Ok(n) ==> n.mtu == cfg.mtu,
    ;
}

impl<H: PlatformNetworkInterface, T: CreateNetworkInterfaceId<H>> CreateNetworkInterface<H> for T {
    /// The interface gets the id that `create_network_interface_id` gave
    /// for `cfg`, and the configured MTU; an error of that call is
    /// returned as it is.
    fn create_network_interface(cfg: &InterfaceConfig) -> (r: Result<
        NetworkInterface<H>,
        InterfaceError,
    >)
        ensures
            match r {
                Ok(n) => n.mtu == cfg.mtu && call_ensures(
                    T::create_network_interface_id,
                    (cfg,),
                    Ok::<NetworkInterfaceId, InterfaceError>(n.id),
                ),
                Err(e) => call_ensures(
                    T::create_network_interface_id,
                    (cfg,),
                    Err::<NetworkInterfaceId, InterfaceError>(e),
                ),
            },
    {
        match T::create_network_interface_id(cfg) {
            Ok(id) => Ok(NetworkInterface::new(id, cfg.mtu)),
            Err(e) => Err(e),
        }
    }
}

/// A driver that stands in for a network: a send reports one byte sent,
/// and a receive hands back the whole buffer as it is.
#[derive(Debug)]
pub struct DummyNetIntf;

impl PlatformNetworkInterface for DummyNetIntf {
    open spec fn receives(id: NetworkInterfaceId, r: Result<usize, InterfaceError>) -> bool {
        r is Ok
    }

    fn platform_interface_send_unchecked(id: NetworkInterfaceId, buffer: &[u8]) -> (r: Result<
        usize,
        InterfaceError,
    >)
        ensures
            r == Ok::<usize, InterfaceError>(1),
    {
        Ok(1)
    }

    fn platform_interface_receive_unchecked(id: NetworkInterfaceId, buffer: &mut [u8]) -> (r:
        Result<usize, InterfaceError>)
        ensures
            r == Ok::<usize, InterfaceError>(old(buffer)@.len() as usize),
            final(buffer)@ == old(buffer)@,
    {
        Ok(buffer.len())
    }
}

impl CreateNetworkInterfaceId<DummyNetIntf> for DummyNetIntf {
    fn create_network_interface_id(cfg: &InterfaceConfig) -> (r: Result<
        NetworkInterfaceId,
        InterfaceError,
    >)
        ensures
            r == Ok::<NetworkInterfaceId, InterfaceError>(NetworkInterfaceId(1)),
    {
        Ok(NetworkInterfaceId(1))
    }
}

} // verus!
