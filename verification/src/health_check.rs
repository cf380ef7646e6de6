//! The health service: the registry, the broadcaster, and the operations of
//! owners and callers on them.

use vstd::prelude::*;
use crate::broadcaster::Broadcaster;
use crate::error::HealthError;
use crate::event::{views, ChangeEvent};
use crate::model::{
    initial_statuses, lookup, overall, retired, set_events, shutdown_events, well_ordered, Change, Statuses,
};
use crate::registry::Registry;
use crate::signal::open_queue;
use crate::status::{HealthCheckResponse, ServingStatus};
use crate::watcher::Watcher;

verus! {

/// The number of responses that the delivery queue of a watcher holds.
pub const QUEUE_CAPACITY: usize = 10;

/// What a subscription hands to its host.
pub struct Subscription {
    /// The state of the subscription, to be polled against the service.
    pub watcher: Watcher,
    /// Wakes the host whenever the service publishes.
    pub signal: tokio::sync::watch::Receiver<Option<ChangeEvent>>,
    /// The receiving half of the delivery queue: the stream of the caller.
    pub responses: tokio::sync::mpsc::Receiver<HealthCheckResponse>,
}

/// The registry of statuses together with the broadcaster of their changes.
///
/// Writers take the service by `&mut`, readers by `&`: a write excludes every
/// other access, reads go on side by side. A host that shares the service among
/// tasks puts it behind a read-write lock.
pub struct HealthCheckService {
    services: Registry,
    broadcaster: Broadcaster,
}

impl HealthCheckService {
    /// The current status of every registered service.
    pub closed spec fn statuses(&self) -> Statuses {
        self.services@
    }

    /// The registered names in the order of their first write.
    pub closed spec fn order(&self) -> Seq<Seq<char>> {
        self.services.order()
    }

    /// Every change event published so far, oldest first.
    pub closed spec fn published(&self) -> Seq<Change> {
        self.broadcaster@
    }

    /// The registered names are those of `order`, each once, the empty name
    /// first.
    pub open spec fn wf(&self) -> bool {
        well_ordered(self.order(), self.statuses())
    }

    /// A service that knows the empty name alone, serving, and has published
    /// nothing.
    pub fn new() -> (service: HealthCheckService)
        ensures
            service.wf(),
            service.statuses() == initial_statuses(),
            service.order() == seq![overall()],
            service.published() == Seq::<Change>::empty(),
    {
        HealthCheckService { services: Registry::new(), broadcaster: Broadcaster::new() }
    }

    /// Writes `status` for `service_name`, registering the name if it is new.
    /// Where that is a transition (a first write always is), the event of it is
    /// published once the write is done; where the status stays what it was,
    /// nothing is published.
    ///
    /// Always `Ok`: exclusive access comes with `&mut self`, so there is nothing
    /// to acquire that could fail, and a signal that nobody hears does not undo
    /// or fail the write.
    pub fn set_status(&mut self, service_name: &str, status: ServingStatus) -> (result: Result<(), ()>)
        requires
            old(self).wf(),
        ensures
            final(self).wf(),
            result is Ok,
            final(self).statuses() == old(self).statuses().insert(service_name@, status),
            final(self).order() == (if old(self).statuses().contains_key(service_name@) {
                old(self).order()
            } else {
                old(self).order().push(service_name@)
            }),
            final(self).published() == old(self).published() + set_events(
                old(self).statuses(),
                service_name@,
                status,
            ),
    {
        let changed = self.services.set(service_name, status);
        if changed {
            self.broadcaster.publish(ChangeEvent::new(service_name, status));
        }
        assert(self.published() =~= old(self).published() + set_events(
            old(self).statuses(),
            service_name@,
            status,
        ));
        Ok(())
    }

    /// Takes every registered service out of service. One event is published
    /// for each service that was not out of service already, in registration
    /// order; a service that was out of service gets none.
    ///
    /// Always `Ok`, for the reasons given at `set_status`.
    pub fn shutdown(&mut self) -> (result: Result<(), ()>)
        requires
            old(self).wf(),
        ensures
            final(self).wf(),
            result is Ok,
            final(self).statuses() == retired(old(self).statuses()),
            final(self).order() == old(self).order(),
            final(self).published() == old(self).published() + shutdown_events(
                old(self).order(),
                old(self).statuses(),
            ),
    {
        let events = self.services.shutdown();
        let ghost before = self.published();
        let mut i: usize = 0;
        while i < events.len()
            invariant
                i <= events.len(),
                self.wf(),
                self.statuses() == retired(old(self).statuses()),
                self.order() == old(self).order(),
                self.published() == before + views(events@).take(i as int),
            decreases events.len() - i,
        {
            self.broadcaster.publish(events[i].clone());
            assert(views(events@).take(i + 1) =~= views(events@).take(
                i as int,
            ).push(events[i as int]@));
            i += 1;
        }
        assert(views(events@).take(i as int) =~= views(events@));
        Ok(())
    }

    /// The status of `service_name` as it is now, or `NotFound` where the name
    /// was never written. The empty name is always found.
    pub fn check(&self, service_name: &str) -> (result: Result<HealthCheckResponse, HealthError>)
        ensures
            result == lookup(self.statuses(), service_name@),
    {
        match self.services.get(service_name) {
            Some(status) => Ok(HealthCheckResponse { status }),
            None => Err(HealthError::NotFound),
        }
    }

    /// Subscribes to the changes of `service_name`: `NotFound` where the name
    /// was never written, else a watcher that starts at the end of the log, so
    /// that it is owed nothing for what was published before, together with the
    /// signal and the receiving half of its delivery queue. The service itself
    /// is left as it was.
    ///
    /// The stream begins with the next change, not with the status of the
    /// moment: a caller who wants that as well asks `check` first.
    pub fn watch(&self, service_name: &str) -> (result: Result<Subscription, HealthError>)
        ensures
            result is Ok <==> self.statuses().contains_key(service_name@),
            result matches Err(error) ==> error == HealthError::NotFound,
            result matches Ok(subscription) ==> {
                &&& subscription.watcher.name() == service_name@
                &&& subscription.watcher.attached(self.published())
                &&& subscription.watcher.origin() == self.published().len()
                &&& subscription.watcher.cursor() == self.published().len()
                &&& subscription.watcher.delivered() == Seq::<HealthCheckResponse>::empty()
            },
    {
        if self.services.get(service_name).is_none() {
            return Err(HealthError::NotFound);
        }
        let (queue, responses) = open_queue(QUEUE_CAPACITY);
        let watcher = Watcher::new(service_name, self.broadcaster.len(), queue);
        let signal = self.broadcaster.listen();
        proof {
            let log = self.published();
            assert(log.subrange(watcher.origin(), watcher.cursor()) =~= Seq::empty());
        }
        Ok(Subscription { watcher, signal, responses })
    }

    /// The log is held in memory, so its length is a `usize`.
    pub proof fn log_fits_in_memory(&self)
        ensures
            self.published().len() <= usize::MAX,
    {
        self.broadcaster.log_fits_in_memory();
    }

    /// The broadcaster, for reading the log.
    pub fn broadcaster(&self) -> (broadcaster: &Broadcaster)
        ensures
            broadcaster@ == self.published(),
    {
        &self.broadcaster
    }
}

} // verus!
