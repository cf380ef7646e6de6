//! The watch broadcaster: the log of every change published so far, and the
//! signal that wakes watchers when it grows.

use vstd::prelude::*;
use crate::event::{views, ChangeEvent};
use crate::model::Change;
use crate::signal::{listen, open_signal, raise};

verus! {

/// Every change event in publication order, and a latest-value channel that
/// carries the newest one.
///
/// The log is what watchers read: each holds its own position in it, so a slow
/// watcher delays neither the publisher nor another watcher, and no event is
/// lost to it. The channel holds one value, the last event sent (`None` before
/// the first); a watcher that sleeps is woken through it and then reads the log.
///
/// The log only grows, by one event for each transition. Writes that confirm a
/// status add nothing to it.
pub struct Broadcaster {
    log: Vec<ChangeEvent>,
    signaller: tokio::sync::watch::Sender<Option<ChangeEvent>>,
    /// Never read: while it lives the channel has a receiver, and a send on a
    /// channel without one is refused.
    #[allow(dead_code)]
    subscriber: tokio::sync::watch::Receiver<Option<ChangeEvent>>,
}

impl View for Broadcaster {
    type V = Seq<Change>;

    closed spec fn view(&self) -> Seq<Change> {
        views(self.log@)
    }
}

impl Broadcaster {
    /// A broadcaster that has published nothing.
    pub fn new() -> (broadcaster: Broadcaster)
        ensures
            broadcaster@ == Seq::<Change>::empty(),
    {
        let (signaller, subscriber) = open_signal();
        let broadcaster = Broadcaster { log: Vec::new(), signaller, subscriber };
        assert(broadcaster@ =~= Seq::empty());
        broadcaster
    }

    /// Appends `event` to the log, then sends it through the signal. Whether
    /// anyone hears the signal does not matter to the publisher.
    pub fn publish(&mut self, event: ChangeEvent)
        ensures
            final(self)@ == old(self)@.push(event@),
    {
        let copy = event.clone();
        self.log.push(event);
        raise(&self.signaller, copy);
        assert(self@ =~= old(self)@.push(event@));
    }

    /// The log is held in memory, so its length is a `usize`.
    pub proof fn log_fits_in_memory(&self)
        ensures
            self@.len() <= usize::MAX,
    {
        assert(self@.len() == self.log.len());
    }

    /// The number of events published so far.
    pub fn len(&self) -> (n: usize)
        ensures
            n == self@.len(),
    {
        self.log.len()
    }

    /// The event at `position` of the log.
    pub fn event(&self, position: usize) -> (event: &ChangeEvent)
        requires
            position < self@.len(),
        ensures
            event@ == self@[position as int],
    {
        &self.log[position]
    }

    /// A new receiver of the signal, which counts the value now in the channel
    /// as seen.
    pub fn listen(&self) -> tokio::sync::watch::Receiver<Option<ChangeEvent>> {
        listen(&self.signaller)
    }
}

} // verus!
