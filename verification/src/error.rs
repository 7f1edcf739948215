//! The general error type of the router.

use crate::config::RouterConfigError;
use crate::network::InterfaceError;
use crate::ports::PortError;
use crate::router::RouteError;
use crate::scheduler::ScheduleError;
use a653rs::prelude::Error as ApexError;
use vstd::prelude::*;

verus! {

/// The hypervisor failed to create or start the router process.
#[derive(Debug, Clone, PartialEq, Eq)]
pub struct ProcessError(pub ApexError);

impl From<ApexError> for ProcessError {
    fn from(value: ApexError) -> (r: ProcessError) {
        ProcessError(value)
    }
}

impl vstd::std_specs::convert::FromSpecImpl<ApexError> for ProcessError {
    open spec fn obeys_from_spec() -> bool {
        true
    }

    open spec fn from_spec(v: ApexError) -> ProcessError {
        ProcessError(v)
    }
}

/// General error type for this crate.
#[derive(Clone, Debug, PartialEq, Eq)]
pub enum Error {
    /// An issue with the route information.
    Route(RouteError),
    /// Communication error with the hypervisor's APEX.
    Port(PortError),
    /// Communication error with a network interface driver.
    Interface(InterfaceError),
    /// Invalid configuration for router.
    Configuration(RouterConfigError),
    /// Error while accessing the scheduler.
    Schedule(ScheduleError),
    /// Failed to create router process
    Process(ProcessError),
}

impl From<RouteError> for Error {
    fn from(value: RouteError) -> (r: Error) {
        Error::Route(value)
    }
}

impl vstd::std_specs::convert::FromSpecImpl<RouteError> for Error {
    open spec fn obeys_from_spec() -> bool {
        true
    }

    open spec fn from_spec(v: RouteError) -> Error {
        Error::Route(v)
    }
}

impl From<PortError> for Error {
    fn from(value: PortError) -> (r: Error) {
        Error::Port(value)
    }
}

impl vstd::std_specs::convert::FromSpecImpl<PortError> for Error {
    open spec fn obeys_from_spec() -> bool {
        true
    }

    open spec fn from_spec(v: PortError) -> Error {
        Error::Port(v)
    }
}

impl From<InterfaceError> for Error {
    fn from(value: InterfaceError) -> (r: Error) {
        Error::Interface(value)
    }
}

impl vstd::std_specs::convert::FromSpecImpl<InterfaceError> for Error {
    open spec fn obeys_from_spec() -> bool {
        true
    }

    open spec fn from_spec(v: InterfaceError) -> Error {
        Error::Interface(v)
    }
}

impl From<RouterConfigError> for Error {
    fn from(value: RouterConfigError) -> (r: Error) {
        Error::Configuration(value)
    }
}

impl vstd::std_specs::convert::FromSpecImpl<RouterConfigError> for Error {
    open spec fn obeys_from_spec() -> bool {
        true
    }

    open spec fn from_spec(v: RouterConfigError) -> Error {
        Error::Configuration(v)
    }
}

impl From<ScheduleError> for Error {
    fn from(value: ScheduleError) -> (r: Error) {
        Error::Schedule(value)
    }
}

impl vstd::std_specs::convert::FromSpecImpl<ScheduleError> for Error {
    open spec fn obeys_from_spec() -> bool {
        true
    }

    open spec fn from_spec(v: ScheduleError) -> Error {
        Error::Schedule(v)
    }
}

} // verus!
