//! Change events: one status transition of one service.

use vstd::prelude::*;
use crate::model::Change;
use crate::status::ServingStatus;

verus! {

/// One transition: the service `service` now has the status `status`.
///
/// An event is never stored in the registry. It is appended to the log of the
/// broadcaster and from there reaches the watchers of its service.
#[derive(Debug, PartialEq, Eq)]
pub struct ChangeEvent {
    pub service: String,
    pub status: ServingStatus,
}

impl View for ChangeEvent {
    type V = Change;

    open spec fn view(&self) -> Change {
        (self.service@, self.status)
    }
}

/// What a sequence of events says, one pair of name and status for each.
pub open spec fn views(events: Seq<ChangeEvent>) -> Seq<Change> {
    events.map_values(|event: ChangeEvent| event@)
}

impl ChangeEvent {
    /// An event for the service `service`.
    pub fn new(service: &str, status: ServingStatus) -> (event: ChangeEvent)
        ensures
            event@ == (service@, status),
    {
        ChangeEvent { service: service.to_owned(), status }
    }

}

impl Clone for ChangeEvent {
    /// A second event with the same name and status.
    fn clone(&self) -> (copy: ChangeEvent)
        ensures
            copy@ == self@,
    {
        ChangeEvent { service: self.service.clone(), status: self.status }
    }
}

} // verus!
