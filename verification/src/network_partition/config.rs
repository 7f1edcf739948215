//! Configuration checks of the network partition that need no floating
//! point.

use crate::time::Duration;
use crate::types::VirtualLinkId;
use vstd::prelude::*;

verus! {

/// Configuration error
#[derive(Debug, Clone, Copy, PartialEq, Eq, Structural)]
pub enum ConfigError {
    /// The virtual links that are using an interface produce more traffic
    /// than can be serviced by the interface.
    InterfaceDataRate,
}

/// A slot inside the round-robin scheduler.
#[derive(Debug, Clone, Copy)]
pub struct DeadlineRrSlot {
    /// Virtual link to schedule in this slot.
    pub vl: VirtualLinkId,
    /// Period after which to schedule this slot again after the last time it
    /// has been scheduled.
    pub period: Duration,
}

/// The bits that a frame with `mtu` payload bytes takes on a serial line:
/// the payload with a virtual link id and a checksum of two bytes each, one
/// stuffing byte for every started block of 254 bytes (none for a last block
/// of a single byte), eight bits a byte, and a start and a stop bit.
pub open spec fn uart_frame_bits_spec(mtu: int) -> int {
    let data = mtu + 2 + 2;
    let overhead = if data % 254 > 1 {
        data / 254 + 1
    } else {
        data / 254
    };
    8 * (overhead + data) + 1 + 1
}

/// The bits that a frame with `mtu` payload bytes takes on a serial line.
pub fn uart_frame_bits(mtu: u32) -> (r: u32)
    requires
        uart_frame_bits_spec(mtu as int) <= u32::MAX,
    ensures
        r == uart_frame_bits_spec(mtu as int),
{
    let vl: u32 = 2;
    let crc: u32 = 2;
    let b_start: u32 = 1;
    let b_stop: u32 = 1;
    let data = mtu + vl + crc;
    let overhead = if data % 254 > 1 {
        (data / 254) + 1
    } else {
        data / 254
    };
    (8 * (overhead + data)) + b_start + b_stop
}

} // verus!
