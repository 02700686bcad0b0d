//! Delivery fleet status vocabulary.

use vstd::prelude::*;

verus! {

/// Availability of a delivery driver.
#[derive(Debug, Clone, Copy, PartialEq, Eq, Structural)]
pub enum DriverStatus {
    Available,
    Busy,
    Offline,
    OnBreak,
}

/// Stage of a delivery route.
#[derive(Debug, Clone, Copy, PartialEq, Eq, Structural)]
pub enum RouteStatus {
    Planned,
    Active,
    Completed,
    Cancelled,
}

} // verus!
