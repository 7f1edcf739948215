//! Identifiers and rates shared by the router and the network partition.

use vstd::prelude::*;

verus! {

/// A data rate in bit/s.
#[derive(Debug, Clone, Copy, PartialEq, Eq, Structural)]
pub struct DataRate(pub u64);

impl DataRate {
    /// Constructs a data rate from a `u64` in bits/s.
    pub fn b(bits: u64) -> (r: DataRate)
        ensures
            r.0 == bits,
    {
        DataRate(bits)
    }

    /// Gets the bits/s as a `u64`.
    pub fn as_u64(self) -> (bits: u64)
        ensures
            bits == self.0,
    {
        self.0
    }
}

/// An ID of a virtual link.
///
/// Virtual links connect ports of different hypervisors and their contents
/// may be transmitted over the network. Each virtual link is a directed
/// channel between a single source and zero or more destinations. The ID
/// identifies the virtual link to the network.
#[derive(Debug, Clone, Copy, PartialEq, Eq, Structural, Default)]
pub struct VirtualLinkId(pub u32);

impl View for VirtualLinkId {
    type V = u32;

    open spec fn view(&self) -> u32 {
        self.0
    }
}

impl VirtualLinkId {
    /// Creates a virtual link id from an u32.
    pub fn from_u32(val: u32) -> (id: VirtualLinkId)
        ensures
            id.0 == val,
    {
        VirtualLinkId(val)
    }

    /// The value of the VirtualLinkId.
    pub fn into_inner(self) -> (val: u32)
        ensures
            val == self.0,
    {
        self.0
    }

    /// Creates a virtual link id from the 16 bit ids used in configurations.
    pub fn from_u16(val: u16) -> (id: VirtualLinkId)
        ensures
            id.0 == val,
    {
        VirtualLinkId(val as u32)
    }
}

impl From<u32> for VirtualLinkId {
    fn from(val: u32) -> (id: VirtualLinkId) {
        VirtualLinkId(val)
    }
}

impl vstd::std_specs::convert::FromSpecImpl<u32> for VirtualLinkId {
    open spec fn obeys_from_spec() -> bool {
        true
    }

    open spec fn from_spec(val: u32) -> VirtualLinkId {
        VirtualLinkId(val)
    }
}

impl From<VirtualLinkId> for u32 {
    fn from(id: VirtualLinkId) -> (val: u32) {
        id.0
    }
}

impl vstd::std_specs::convert::FromSpecImpl<VirtualLinkId> for u32 {
    open spec fn obeys_from_spec() -> bool {
        true
    }

    open spec fn from_spec(id: VirtualLinkId) -> u32 {
        id.0
    }
}

/// Network interface ID.
#[derive(Debug, Clone, Copy, PartialEq, Eq, Structural)]
pub struct NetworkInterfaceId(pub u32);

impl NetworkInterfaceId {
    /// Creates an interface id from an index; the index is truncated to 32
    /// bits.
    pub fn from_usize(val: usize) -> (id: NetworkInterfaceId)
        ensures
            id.0 == val as u32,
    {
        NetworkInterfaceId(val as u32)
    }

    /// The id as an index.
    pub fn into_usize(self) -> (val: usize)
        ensures
            val == self.0 as usize,
    {
        self.0 as usize
    }
}

} // verus!
