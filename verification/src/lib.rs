//! Message router and network partition for ARINC 653 hypervisors.
//!
//! The library holds the decisions of the router: its configuration and the
//! checks made while building it, the route tables, the deadline-based
//! round-robin schedulers, the credit-based traffic shaper and the framing
//! of messages on a serial line. The hypervisor services and the network
//! drivers stay outside; they hand plain values in and take plain values out.

pub mod apex;
pub mod config;
pub mod echo;
pub mod error;
pub mod map;
pub mod network;
pub mod network_partition;
pub mod ports;
pub mod reconfigure;
pub mod router;
pub mod run;
pub mod scheduler;
pub mod time;
pub mod types;
pub mod uart;
