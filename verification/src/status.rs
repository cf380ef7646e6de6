//! The serving status of a service and the response that reports it.

use vstd::prelude::*;

verus! {

/// The health of one service.
///
/// The service itself only ever produces `Serving` and `NotServing`; the other
/// two are stored and reported unchanged when an owner sets them.
#[derive(Clone, Copy, Debug, PartialEq, Eq, Structural)]
pub enum ServingStatus {
    Unknown,
    Serving,
    NotServing,
    ServiceUnknown,
}

impl ServingStatus {
    /// The number that stands for this status on the wire.
    pub open spec fn wire(self) -> int {
        match self {
            ServingStatus::Unknown => 0,
            ServingStatus::Serving => 1,
            ServingStatus::NotServing => 2,
            ServingStatus::ServiceUnknown => 3,
        }
    }

    /// The number that stands for this status on the wire.
    pub fn code(self) -> (c: i32)
        ensures
            c == self.wire(),
    {
        match self {
            ServingStatus::Unknown => 0,
            ServingStatus::Serving => 1,
            ServingStatus::NotServing => 2,
            ServingStatus::ServiceUnknown => 3,
        }
    }
}

/// The answer to a health query, and one item of a watch stream.
#[derive(Clone, Copy, Debug, PartialEq, Eq, Structural)]
pub struct HealthCheckResponse {
    pub status: ServingStatus,
}

} // verus!
