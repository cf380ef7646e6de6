//! Watchers: one subscription each to the changes of one service.

use vstd::prelude::*;
use crate::model::{responses_for, Change};
use crate::health_check::HealthCheckService;
use crate::laws::delivery_follows_the_cursor;
use crate::signal::{offer, Delivery};
use crate::status::HealthCheckResponse;

verus! {

/// How far a watcher got when it last worked through the log.
#[derive(Clone, Copy, Debug, PartialEq, Eq, Structural)]
pub enum Progress {
    /// Every event published so far has been dealt with.
    CaughtUp,
    /// The delivery queue is full. The event that found it full waits in the
    /// log and is offered again by the next `poll`.
    QueueFull,
    /// The consumer of the delivery queue is gone; the subscription is over.
    Disconnected,
}

/// The state of one subscription: the name watched, the position in the log of
/// the first event not yet dealt with, and the sending half of the bounded
/// queue through which responses leave.
///
/// A watcher offers the queue one response for each event about its service,
/// in the order of the log, and passes over events about other services. When
/// the queue is full it stops in front of the event that did not fit: nothing is
/// dropped and nothing is reordered, and neither the publisher nor any other
/// watcher waits, since the event stays where it was, in the log.
pub struct Watcher {
    service: String,
    cursor: usize,
    queue: tokio::sync::mpsc::Sender<HealthCheckResponse>,
    origin: Ghost<int>,
    delivered: Ghost<Seq<HealthCheckResponse>>,
}

impl Watcher {
    /// The name of the service watched.
    pub closed spec fn name(&self) -> Seq<char> {
        self.service@
    }

    /// The position in the log of the first event that is not dealt with yet.
    pub closed spec fn cursor(&self) -> int {
        self.cursor as int
    }

    /// The length that the log had when the subscription began.
    pub closed spec fn origin(&self) -> int {
        self.origin@
    }

    /// The responses that the delivery queue has taken, oldest first.
    pub closed spec fn delivered(&self) -> Seq<HealthCheckResponse> {
        self.delivered@
    }

    /// The sending half of the delivery queue.
    pub closed spec fn sender(&self) -> tokio::sync::mpsc::Sender<HealthCheckResponse> {
        self.queue
    }

    /// The responses still owed for the events of `log` from the cursor on.
    pub open spec fn backlog(&self, log: Seq<Change>) -> Seq<HealthCheckResponse> {
        responses_for(log.skip(self.cursor()), self.name())
    }

    /// The watcher belongs to `log`: its cursor lies in it, behind the point of
    /// subscription, and what it has delivered is what the events between the
    /// two owe it.
    pub open spec fn attached(&self, log: Seq<Change>) -> bool {
        &&& 0 <= self.origin() <= self.cursor() <= log.len()
        &&& self.delivered() == responses_for(log.subrange(self.origin(), self.cursor()), self.name())
    }

    /// A watcher of `service` that starts at `position` and has delivered
    /// nothing.
    pub(crate) fn new(service: &str, position: usize, queue: tokio::sync::mpsc::Sender<HealthCheckResponse>) -> (watcher:
        Watcher)
        ensures
            watcher.name() == service@,
            watcher.cursor() == position,
            watcher.origin() == position,
            watcher.delivered() == Seq::<HealthCheckResponse>::empty(),
            watcher.sender() == queue,
    {
        Watcher {
            service: service.to_owned(),
            cursor: position,
            queue,
            origin: Ghost(position as int),
            delivered: Ghost(Seq::empty()),
        }
    }

    /// Moves the cursor to the next event about the watched service, passing
    /// over the events about others, and returns the response that this event is
    /// owed; `None` where the log holds no such event from the cursor on. The
    /// event found is not dealt with yet: the cursor stops in front of it.
    pub fn seek(&mut self, service: &HealthCheckService) -> (next: Option<HealthCheckResponse>)
        requires
            old(self).attached(service.published()),
        ensures
            final(self).attached(service.published()),
            final(self).name() == old(self).name(),
            final(self).origin() == old(self).origin(),
            final(self).sender() == old(self).sender(),
            final(self).delivered() == old(self).delivered(),
            old(self).cursor() <= final(self).cursor(),
            forall|i: int|
                old(self).cursor() <= i < final(self).cursor() ==> service.published()[i].0 != old(
                    self,
                ).name(),
            match next {
                Some(response) => final(self).cursor() < service.published().len()
                    && service.published()[final(self).cursor()] == (old(self).name(), response.status),
                None => final(self).cursor() == service.published().len(),
            },
    {
        let log = service.broadcaster();
        let count: usize = log.len();
        while self.cursor < count
            invariant
                count == log@.len(),
                log@ == service.published(),
                self.attached(log@),
                self.name() == old(self).name(),
                self.origin() == old(self).origin(),
                self.sender() == old(self).sender(),
                self.delivered() == old(self).delivered(),
                old(self).cursor() <= self.cursor(),
                forall|i: int| old(self).cursor() <= i < self.cursor() ==> log@[i].0 != old(self).name(),
            decreases count - self.cursor,
        {
            let event = log.event(self.cursor);
            if event.service == self.service {
                return Some(HealthCheckResponse { status: event.status });
            }
            proof {
                let examined = log@.subrange(self.origin(), self.cursor() + 1);
                assert(examined.drop_last() =~= log@.subrange(self.origin(), self.cursor()));
                assert(examined.last() == log@[self.cursor()]);
            }
            self.cursor += 1;
        }
        None
    }

    /// Accounts for what the delivery queue said of the response for the event
    /// at the cursor. `Sent`: the event is dealt with, the cursor moves behind it
    /// and the work goes on (`None`). `Full` or `Closed`: the watcher is left as
    /// it was, in front of the event, and the work ends for now or for good.
    pub fn settle(&mut self, service: &HealthCheckService, outcome: Delivery) -> (stop: Option<Progress>)
        requires
            old(self).attached(service.published()),
            old(self).cursor() < service.published().len(),
            service.published()[old(self).cursor()].0 == old(self).name(),
        ensures
            final(self).attached(service.published()),
            final(self).name() == old(self).name(),
            final(self).origin() == old(self).origin(),
            final(self).sender() == old(self).sender(),
            match outcome {
                Delivery::Sent => stop is None && final(self).cursor() == old(self).cursor() + 1
                    && final(self).delivered() == old(self).delivered().push(
                    HealthCheckResponse { status: service.published()[old(self).cursor()].1 },
                ),
                Delivery::Full => stop == Some(Progress::QueueFull) && final(self).cursor() == old(
                    self,
                ).cursor() && final(self).delivered() == old(self).delivered(),
                Delivery::Closed => stop == Some(Progress::Disconnected) && final(self).cursor()
                    == old(self).cursor() && final(self).delivered() == old(self).delivered(),
            },
    {
        match outcome {
            Delivery::Sent => {
                let ghost response = HealthCheckResponse { status: service.published()[self.cursor()].1 };
                proof {
                    let log = service.published();
                    let examined = log.subrange(self.origin(), self.cursor() + 1);
                    service.log_fits_in_memory();
                    assert(examined.drop_last() =~= log.subrange(self.origin(), self.cursor()));
                    assert(examined.last() == log[self.cursor()]);
                    assert(responses_for(examined, self.name()) =~= self.delivered().push(response));
                }
                self.delivered = Ghost(self.delivered@.push(response));
                self.cursor += 1;
                None
            },
            Delivery::Full => Some(Progress::QueueFull),
            Delivery::Closed => Some(Progress::Disconnected),
        }
    }

    /// Works through the log from the cursor on: offers the delivery queue one
    /// response for each event about the watched service, in order, until the
    /// log is exhausted or the queue refuses one.
    ///
    /// How many responses the queue takes is the consumer's doing. Whatever it
    /// is, the watcher stays attached, so what was delivered is what the events
    /// up to the new cursor owe; the cursor is at the end of the log exactly when
    /// the work is `CaughtUp`, and otherwise in front of the event whose
    /// response was refused.
    pub fn poll(&mut self, service: &HealthCheckService) -> (progress: Progress)
        requires
            old(self).attached(service.published()),
        ensures
            final(self).attached(service.published()),
            final(self).name() == old(self).name(),
            final(self).origin() == old(self).origin(),
            final(self).sender() == old(self).sender(),
            old(self).cursor() <= final(self).cursor(),
            final(self).delivered() == old(self).delivered() + responses_for(
                service.published().subrange(old(self).cursor(), final(self).cursor()),
                old(self).name(),
            ),
            progress == Progress::CaughtUp <==> final(self).cursor() == service.published().len(),
            progress != Progress::CaughtUp ==> service.published()[final(self).cursor()].0 == old(
                self,
            ).name(),
    {
        loop
            invariant
                self.attached(service.published()),
                old(self).attached(service.published()),
                self.name() == old(self).name(),
                self.origin() == old(self).origin(),
                self.sender() == old(self).sender(),
                old(self).cursor() <= self.cursor(),
            decreases service.published().len() - self.cursor(),
        {
            let response = match self.seek(service) {
                Some(response) => response,
                None => {
                    proof {
                        delivery_follows_the_cursor(*old(self), *self, service.published());
                    }
                    return Progress::CaughtUp;
                },
            };
            let outcome = offer(&self.queue, response);
            match self.settle(service, outcome) {
                Some(progress) => {
                    proof {
                        delivery_follows_the_cursor(*old(self), *self, service.published());
                    }
                    return progress;
                },
                None => {},
            }
        }
    }

    /// The sending half of the delivery queue, for a host that waits for room in
    /// it.
    pub fn queue(&self) -> (queue: &tokio::sync::mpsc::Sender<HealthCheckResponse>)
        ensures
            *queue == self.sender(),
    {
        &self.queue
    }
}

} // verus!
