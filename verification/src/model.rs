//! The mathematical model of the service: what the statuses and the published
//! events are, and what each operation makes of them.
//!
//! The statuses are a map from name to status, a name being a sequence of
//! characters. An event is a pair of a name and the status it took. The
//! contracts of the executable code are stated over the functions of this file.

use vstd::prelude::*;
use crate::error::HealthError;
use crate::status::{HealthCheckResponse, ServingStatus};

verus! {

/// The current status of each registered service.
pub type Statuses = Map<Seq<char>, ServingStatus>;

/// One change: the service of this name took this status.
pub type Change = (Seq<char>, ServingStatus);

/// The name of the server as a whole: the empty string.
pub open spec fn overall() -> Seq<char> {
    Seq::empty()
}

/// The statuses of a new service: the server as a whole, serving.
pub open spec fn initial_statuses() -> Statuses {
    Map::empty().insert(overall(), ServingStatus::Serving)
}

/// The names in `order` are exactly those that `statuses` holds, each once, and
/// the name of the server as a whole comes first.
pub open spec fn well_ordered(order: Seq<Seq<char>>, statuses: Statuses) -> bool {
    &&& order.no_duplicates()
    &&& forall|name: Seq<char>| statuses.contains_key(name) <==> order.contains(name)
    &&& order.len() > 0
    &&& order[0] == overall()
}

/// The answer to a query for `name`.
pub open spec fn lookup(statuses: Statuses, name: Seq<char>) -> Result<HealthCheckResponse, HealthError> {
    if statuses.contains_key(name) {
        Ok(HealthCheckResponse { status: statuses[name] })
    } else {
        Err(HealthError::NotFound)
    }
}

/// Whether writing `status` for `name` changes what `statuses` says of `name`.
/// The first write for a name always does.
pub open spec fn is_transition(statuses: Statuses, name: Seq<char>, status: ServingStatus) -> bool {
    !statuses.contains_key(name) || statuses[name] != status
}

/// The events that writing `status` for `name` publishes: the one event of the
/// transition, or none where the status stays what it was.
pub open spec fn set_events(statuses: Statuses, name: Seq<char>, status: ServingStatus) -> Seq<Change> {
    if is_transition(statuses, name, status) {
        seq![(name, status)]
    } else {
        Seq::empty()
    }
}

/// The same services, none of them serving.
pub open spec fn retired(statuses: Statuses) -> Statuses {
    Map::new(|name: Seq<char>| statuses.contains_key(name), |name: Seq<char>| ServingStatus::NotServing)
}

/// The event that taking `name` out of service publishes: none where it is out
/// of service already.
pub open spec fn retirement(statuses: Statuses) -> spec_fn(Seq<char>) -> Option<Change> {
    |name: Seq<char>|
        if statuses[name] != ServingStatus::NotServing {
            Some((name, ServingStatus::NotServing))
        } else {
            None
        }
}

/// The events of a shutdown: one for each service that was not out of service,
/// in the order in which the services were registered.
pub open spec fn shutdown_events(order: Seq<Seq<char>>, statuses: Statuses) -> Seq<Change> {
    order.filter_map(retirement(statuses))
}

/// What an event means to a watcher of `name`: a response that carries the new
/// status where the event is about `name`, nothing where it is about another
/// service.
pub open spec fn answer_to(name: Seq<char>) -> spec_fn(Change) -> Option<HealthCheckResponse> {
    |event: Change|
        if event.0 == name {
            Some(HealthCheckResponse { status: event.1 })
        } else {
            None
        }
}

/// The responses that `events` owe to a watcher of `name`: one for each event
/// about `name`, in the order of the events.
pub open spec fn responses_for(events: Seq<Change>, name: Seq<char>) -> Seq<HealthCheckResponse> {
    events.filter_map(answer_to(name))
}

/// The statuses after the writes of `writes`, made one after the other.
pub open spec fn after_writes(statuses: Statuses, writes: Seq<Change>) -> Statuses
    decreases writes.len(),
{
    if writes.len() == 0 {
        statuses
    } else {
        after_writes(statuses, writes.drop_last()).insert(writes.last().0, writes.last().1)
    }
}

/// The events that the writes of `writes` publish, made one after the other.
pub open spec fn events_of_writes(statuses: Statuses, writes: Seq<Change>) -> Seq<Change>
    decreases writes.len(),
{
    if writes.len() == 0 {
        Seq::empty()
    } else {
        events_of_writes(statuses, writes.drop_last()) + set_events(
            after_writes(statuses, writes.drop_last()),
            writes.last().0,
            writes.last().1,
        )
    }
}

/// Whether a write is a transition of `statuses`.
pub open spec fn changes(statuses: Statuses) -> spec_fn(Change) -> bool {
    |write: Change| is_transition(statuses, write.0, write.1)
}

/// One of the writes of `writes` is for `name`.
pub open spec fn writes_to(writes: Seq<Change>, name: Seq<char>) -> bool {
    exists|i: int| 0 <= i < writes.len() && (#[trigger] writes[i]).0 == name
}

/// No two writes of `writes` are for the same name.
pub open spec fn on_distinct_names(writes: Seq<Change>) -> bool {
    forall|i: int, j: int| 0 <= i < j < writes.len() ==> writes[i].0 != writes[j].0
}

} // verus!
