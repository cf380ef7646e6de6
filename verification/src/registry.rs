//! The status registry: the current status of every registered service.

use vstd::prelude::*;
use vstd::hash_map::StringHashMap;
use crate::event::{views, ChangeEvent};
use crate::model::{
    initial_statuses, is_transition, overall, retired, retirement, shutdown_events, well_ordered,
    Statuses,
};
use crate::status::ServingStatus;

verus! {

/// The names of a sequence of strings.
pub open spec fn names_of(names: Seq<String>) -> Seq<Seq<char>> {
    names.map_values(|name: String| name@)
}

/// A map from service name to status. The empty name stands for the server as
/// a whole; it is registered from the start and, like every name, never leaves.
///
/// Lookups go through a hash map; beside it the names are kept in the order in
/// which they were first written, so that a shutdown walks them in a fixed order.
pub struct Registry {
    statuses: StringHashMap<ServingStatus>,
    names: Vec<String>,
}

impl View for Registry {
    type V = Statuses;

    closed spec fn view(&self) -> Statuses {
        self.statuses@
    }
}

impl Registry {
    /// The registered names, in the order of their first write.
    pub closed spec fn order(&self) -> Seq<Seq<char>> {
        names_of(self.names@)
    }

    /// The names in `order` are exactly the registered ones, each once, and the
    /// empty name comes first.
    pub open spec fn wf(&self) -> bool {
        well_ordered(self.order(), self@)
    }

    /// A registry that holds the empty name alone, serving.
    pub fn new() -> (registry: Registry)
        ensures
            registry.wf(),
            registry@ == initial_statuses(),
            registry.order() == seq![overall()],
    {
        let mut statuses = StringHashMap::new();
        statuses.insert(String::new(), ServingStatus::Serving);
        let mut names = Vec::new();
        names.push(String::new());
        let registry = Registry { statuses, names };
        proof {
            assert(registry.order() =~= seq![overall()]);
            assert(registry.order()[0] == overall());
            assert forall|name: Seq<char>| registry@.contains_key(name) implies registry.order().contains(
                name,
            ) by {
                assert(registry.order()[0] == name);
            }
        }
        registry
    }

    /// The status of `name`, or `None` where `name` was never written.
    pub fn get(&self, name: &str) -> (status: Option<ServingStatus>)
        ensures
            status == (if self@.contains_key(name@) {
                Some(self@[name@])
            } else {
                None
            }),
    {
        match self.statuses.get(name) {
            Some(status) => Some(*status),
            None => None,
        }
    }

    /// Writes `status` for `name` and says whether that was a transition.
    /// A name that was not registered is registered last.
    pub fn set(&mut self, name: &str, status: ServingStatus) -> (changed: bool)
        requires
            old(self).wf(),
        ensures
            final(self).wf(),
            final(self)@ == old(self)@.insert(name@, status),
            final(self).order() == (if old(self)@.contains_key(name@) {
                old(self).order()
            } else {
                old(self).order().push(name@)
            }),
            changed == is_transition(old(self)@, name@, status),
    {
        let current = self.get(name);
        let ghost before = self.order();
        match current {
            Some(held) => {
                if held == status {
                    assert(self@ =~= old(self)@.insert(name@, status));
                    return false;
                }
                self.statuses.insert(name.to_owned(), status);
                assert(self@.dom() =~= old(self)@.dom());
            },
            None => {
                self.names.push(name.to_owned());
                self.statuses.insert(name.to_owned(), status);
                proof {
                    assert(self.order() =~= before.push(name@));
                    assert(!before.contains(name@));
                    assert forall|other: Seq<char>| self.order().contains(other) implies self@.contains_key(
                        other,
                    ) by {
                        let i = choose|i: int| 0 <= i < self.order().len() && self.order()[i] == other;
                        if i < before.len() {
                            assert(before.contains(other));
                        }
                    }
                    assert forall|other: Seq<char>| self@.contains_key(other) implies self.order().contains(
                        other,
                    ) by {
                        if other == name@ {
                            assert(self.order()[before.len() as int] == other);
                        } else {
                            assert(before.contains(other));
                            let i = choose|i: int| 0 <= i < before.len() && before[i] == other;
                            assert(self.order()[i] == other);
                        }
                    }
                    assert forall|i: int, j: int|
                        0 <= i < self.order().len() && 0 <= j < self.order().len() && i != j implies self.order()[i]
                        != self.order()[j] by {
                        if i == before.len() {
                            assert(before.contains(before[j]));
                        } else if j == before.len() {
                            assert(before.contains(before[i]));
                        }
                    }
                }
            },
        }
        true
    }

    /// Takes every service out of service and returns one event for each that
    /// was not out of service before, in registration order.
    pub fn shutdown(&mut self) -> (events: Vec<ChangeEvent>)
        requires
            old(self).wf(),
        ensures
            final(self).wf(),
            final(self)@ == retired(old(self)@),
            final(self).order() == old(self).order(),
            views(events@) == shutdown_events(old(self).order(), old(self)@),
    {
        let ghost before = self@;
        let ghost order = self.order();
        let mut events: Vec<ChangeEvent> = Vec::new();
        let mut i: usize = 0;
        proof {
            assert(order.take(0).filter_map(retirement(before)) =~= Seq::empty());
            assert(views(events@) =~= Seq::empty());
        }
        while i < self.names.len()
            invariant
                i <= self.names.len(),
                self.order() == order,
                order.len() == self.names.len(),
                order.no_duplicates(),
                forall|name: Seq<char>| before.contains_key(name) <==> order.contains(name),
                self@.dom() == before.dom(),
                forall|k: int| 0 <= k < i ==> self@[order[k]] == ServingStatus::NotServing,
                forall|k: int| i <= k < order.len() ==> self@[order[k]] == before[order[k]],
                views(events@) == order.take(i as int).filter_map(retirement(before)),
            decreases self.names.len() - i,
        {
            let name = self.names[i].clone();
            assert(name@ == order[i as int]);
            assert(order.contains(name@));
            let held = self.statuses.get(name.as_str());
            let live = match held {
                Some(status) => *status != ServingStatus::NotServing,
                None => false,
            };
            proof {
                order.lemma_filter_map_take_succ(retirement(before), i as int);
            }
            if live {
                let ghost log = views(events@);
                events.push(ChangeEvent::new(name.as_str(), ServingStatus::NotServing));
                self.statuses.insert(name, ServingStatus::NotServing);
                proof {
                    assert(views(events@) =~= log.push((order[i as int], ServingStatus::NotServing)));
                    assert(self@.dom() =~= before.dom());
                }
            }
            i += 1;
        }
        proof {
            assert(order.take(i as int) =~= order);
            assert forall|name: Seq<char>| self@.contains_key(name) implies self@[name]
                == ServingStatus::NotServing by {
                assert(order.contains(name));
                let k = choose|k: int| 0 <= k < order.len() && order[k] == name;
                assert(self@[order[k]] == ServingStatus::NotServing);
            }
            assert(self@ =~= retired(before));
        }
        events
    }
}

} // verus!
