//! The network partition: traffic shaping, deadline scheduling and network
//! interfaces that carry the virtual link id in every frame.

pub mod config;
pub mod error;
pub mod forward;
pub mod network;
pub mod scheduler;
pub mod shaper;
