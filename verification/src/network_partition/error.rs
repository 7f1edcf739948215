//! Error types of the network partition.

use crate::network_partition::shaper::{QueueId, Transmission};
use a653rs::prelude::Error as ApexError;
use vstd::prelude::*;

verus! {

/// General error type of the network partition.
#[derive(Clone, Debug)]
pub enum Error {
    /// Failed to send data to a port.
    PortSendFail(ApexError),
    /// Failed to receive data from a port.
    PortReceiveFail(ApexError),
    /// Failed to receive something from an interface.
    InterfaceReceiveFail(InterfaceError),
    /// Interface failed to send data.
    InterfaceSendFail(InterfaceError),
    /// Failed to create interface.
    InterfaceCreationError(InterfaceError),
    /// Received invalid data.
    InvalidData,
    /// Invalid configuration for network partition
    InvalidConfig,
    /// It has been tried to dequeue an item from an empty queue.
    QueueEmpty,
    /// Enqueue failed
    EnqueueFailed,
    /// Transmission is not allowed at the time.
    TransmitNotAllowed,
    /// No such queue.
    NoSuchQueue(QueueId),
    /// Invalid transmission.
    InvalidTransmission(Transmission),
    /// An unspecified error.
    Unknown,
}

/// Interface error type.
#[derive(Clone, Debug, PartialEq, Eq, Structural)]
pub enum InterfaceError {
    /// Insufficient buffer space
    InsufficientBuffer,
    /// No data available
    NoData,
    /// Invalid data received from interface
    InvalidData,
    /// Interface not found
    NotFound,
}

} // verus!
