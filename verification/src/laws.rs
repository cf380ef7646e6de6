//! Laws of the service, each proved from the model and from the watcher's
//! attachment to the log.

use vstd::prelude::*;
use crate::error::HealthError;
use crate::model::{
    after_writes, answer_to, changes, events_of_writes, initial_statuses, is_transition, lookup,
    on_distinct_names, overall, responses_for, retired, retirement, set_events, shutdown_events,
    well_ordered, writes_to, Change, Statuses,
};
use crate::status::{HealthCheckResponse, ServingStatus};
use crate::watcher::Watcher;

verus! {

/// A new service answers a query for the empty name with `Serving`, and a
/// query for any other name with `NotFound`.
pub proof fn fresh_service_knows_the_server_alone(name: Seq<char>)
    ensures
        lookup(initial_statuses(), overall()) == Ok::<HealthCheckResponse, HealthError>(
            HealthCheckResponse { status: ServingStatus::Serving },
        ),
        name != overall() ==> lookup(initial_statuses(), name) == Err::<
            HealthCheckResponse,
            HealthError,
        >(HealthError::NotFound),
{
}

/// Writing a status twice in a row publishes what the first write alone
/// publishes: the second write finds the status in place and publishes nothing.
/// Where the first write is a transition, the two publish exactly one event.
pub proof fn repeated_write_publishes_once(statuses: Statuses, name: Seq<char>, status: ServingStatus)
    ensures
        set_events(statuses.insert(name, status), name, status) == Seq::<Change>::empty(),
        events_of_writes(statuses, seq![(name, status), (name, status)]) == set_events(
            statuses,
            name,
            status,
        ),
        is_transition(statuses, name, status) ==> events_of_writes(
            statuses,
            seq![(name, status), (name, status)],
        ) == seq![(name, status)],
{
    let twice = seq![(name, status), (name, status)];
    let once = seq![(name, status)];
    assert(twice.drop_last() =~= once);
    assert(once.drop_last() =~= Seq::<Change>::empty());
    reveal_with_fuel(after_writes, 3);
    reveal_with_fuel(events_of_writes, 3);
    assert(events_of_writes(statuses, once) =~= set_events(statuses, name, status));
    assert(events_of_writes(statuses, twice) =~= set_events(statuses, name, status));
}

/// Writing one status and then a different one for the same service publishes
/// the second for certain; where the first write is a transition too, the two
/// publish two events, in the order of the writes.
pub proof fn distinct_writes_publish_in_order(
    statuses: Statuses,
    name: Seq<char>,
    first: ServingStatus,
    second: ServingStatus,
)
    requires
        first != second,
    ensures
        set_events(statuses.insert(name, first), name, second) == seq![(name, second)],
        is_transition(statuses, name, first) ==> events_of_writes(
            statuses,
            seq![(name, first), (name, second)],
        ) == seq![(name, first), (name, second)],
{
    let both = seq![(name, first), (name, second)];
    let one = seq![(name, first)];
    assert(both.drop_last() =~= one);
    assert(one.drop_last() =~= Seq::<Change>::empty());
    reveal_with_fuel(after_writes, 3);
    reveal_with_fuel(events_of_writes, 3);
    assert(events_of_writes(statuses, one) =~= set_events(statuses, name, first));
    if is_transition(statuses, name, first) {
        assert(events_of_writes(statuses, both) =~= both);
    }
}

/// A shutdown publishes an event for a name exactly where the name is
/// registered and was not out of service; each such name gets one event, and
/// every event says `NotServing`. Afterwards every registered name is out of
/// service, and no name has joined or left.
pub proof fn shutdown_is_selective(order: Seq<Seq<char>>, statuses: Statuses)
    requires
        well_ordered(order, statuses),
    ensures
        forall|event: Change| #[trigger]
            shutdown_events(order, statuses).contains(event) <==> (statuses.contains_key(event.0)
                && statuses[event.0] != ServingStatus::NotServing && event.1
                == ServingStatus::NotServing),
        shutdown_events(order, statuses).no_duplicates(),
        forall|name: Seq<char>|
            lookup(retired(statuses), name) == (if statuses.contains_key(name) {
                Ok::<HealthCheckResponse, HealthError>(
                    HealthCheckResponse { status: ServingStatus::NotServing },
                )
            } else {
                Err::<HealthCheckResponse, HealthError>(HealthError::NotFound)
            }),
{
    lemma_retirements(order, statuses);
}

/// The events of retiring the names of `order`, none of which occurs twice:
/// one for each name that was not out of service, and no event twice.
proof fn lemma_retirements(order: Seq<Seq<char>>, statuses: Statuses)
    requires
        order.no_duplicates(),
    ensures
        forall|event: Change| #[trigger]
            shutdown_events(order, statuses).contains(event) <==> (order.contains(event.0)
                && statuses[event.0] != ServingStatus::NotServing && event.1
                == ServingStatus::NotServing),
        shutdown_events(order, statuses).no_duplicates(),
    decreases order.len(),
{
    let events = shutdown_events(order, statuses);
    if order.len() == 0 {
        assert(events =~= Seq::<Change>::empty());
    } else {
        let shorter = order.drop_last();
        let last = order.last();
        let earlier = shutdown_events(shorter, statuses);
        lemma_retirements(shorter, statuses);
        assert(!shorter.contains(last)) by {
            if shorter.contains(last) {
                let i = choose|i: int| 0 <= i < shorter.len() && shorter[i] == last;
                assert(order[i] == order[order.len() - 1]);
            }
        }
        assert forall|name: Seq<char>| order.contains(name) <==> (shorter.contains(name) || name
            == last) by {
            if order.contains(name) {
                let i = choose|i: int| 0 <= i < order.len() && order[i] == name;
                if i < shorter.len() {
                    assert(shorter[i] == name);
                }
            }
            if shorter.contains(name) {
                let i = choose|i: int| 0 <= i < shorter.len() && shorter[i] == name;
                assert(order[i] == name);
            }
            if name == last {
                assert(order[order.len() - 1] == name);
            }
        }
        if statuses[last] != ServingStatus::NotServing {
            let added = (last, ServingStatus::NotServing);
            assert(retirement(statuses)(last) == Some(added));
            assert(events =~= earlier.push(added));
            assert(!earlier.contains(added));
            assert forall|event: Change| #[trigger]
                events.contains(event) <==> (order.contains(event.0) && statuses[event.0]
                    != ServingStatus::NotServing && event.1 == ServingStatus::NotServing) by {
                if events.contains(event) {
                    let i = choose|i: int| 0 <= i < events.len() && events[i] == event;
                    if i < earlier.len() {
                        assert(earlier[i] == event);
                        assert(earlier.contains(event));
                    }
                }
                if earlier.contains(event) {
                    let i = choose|i: int| 0 <= i < earlier.len() && earlier[i] == event;
                    assert(events[i] == event);
                }
                if event == added {
                    assert(events[earlier.len() as int] == event);
                }
            }
            assert forall|i: int, j: int|
                0 <= i < events.len() && 0 <= j < events.len() && i != j implies events[i]
                != events[j] by {
                if i == earlier.len() {
                    assert(earlier.contains(earlier[j]));
                } else if j == earlier.len() {
                    assert(earlier.contains(earlier[i]));
                }
            }
        } else {
            assert(retirement(statuses)(last) == None::<Change>);
            assert(events =~= earlier);
        }
    }
}

/// The responses owed for two runs of events, one after the other, are those
/// owed for the first followed by those owed for the second.
pub proof fn responses_follow_the_events(first: Seq<Change>, second: Seq<Change>, name: Seq<char>)
    ensures
        responses_for(first + second, name) == responses_for(first, name) + responses_for(
            second,
            name,
        ),
    decreases second.len(),
{
    if second.len() == 0 {
        assert(first + second =~= first);
        assert(responses_for(second, name) =~= Seq::empty());
        assert(responses_for(first, name) + responses_for(second, name) =~= responses_for(
            first,
            name,
        ));
    } else {
        let shorter = second.drop_last();
        responses_follow_the_events(first, shorter, name);
        assert((first + second).drop_last() =~= first + shorter);
        assert((first + second).last() == second.last());
        match answer_to(name)(second.last()) {
            Some(response) => {
                assert(responses_for(first + second, name) =~= responses_for(first, name) + (
                responses_for(shorter, name) + seq![response]));
            },
            None => {},
        }
    }
}

/// A watcher is owed nothing for events about other services, however many
/// there are.
pub proof fn other_services_are_passed_over(events: Seq<Change>, name: Seq<char>)
    requires
        forall|i: int| 0 <= i < events.len() ==> (#[trigger] events[i]).0 != name,
    ensures
        responses_for(events, name) == Seq::<HealthCheckResponse>::empty(),
    decreases events.len(),
{
    if events.len() > 0 {
        let shorter = events.drop_last();
        assert forall|i: int| 0 <= i < shorter.len() implies (#[trigger] shorter[i]).0 != name by {
            assert(shorter[i] == events[i]);
        }
        other_services_are_passed_over(shorter, name);
        assert(events.last() == events[events.len() - 1]);
    }
}

/// Every response that a run of events owes to a watcher of `name` stands for
/// an event of that run about `name`, and carries the status of that event.
pub proof fn responses_come_from_own_events(events: Seq<Change>, name: Seq<char>, response: HealthCheckResponse)
    requires
        responses_for(events, name).contains(response),
    ensures
        events.contains((name, response.status)),
{
    events.lemma_filter_map_contains(answer_to(name), response);
    let event = choose|event: Change| #[trigger]
        events.contains(event) && answer_to(name)(event) == Some(response);
    assert(event == (name, response.status));
}

/// What a watcher has delivered, followed by what it is still owed, is what
/// the events published since it subscribed owe to its service: every one of
/// them, in the order of publication, and nothing else. A watcher that has
/// caught up has delivered them all.
pub proof fn watcher_misses_nothing(watcher: Watcher, log: Seq<Change>)
    requires
        watcher.attached(log),
    ensures
        watcher.delivered() + watcher.backlog(log) == responses_for(
            log.skip(watcher.origin()),
            watcher.name(),
        ),
        watcher.cursor() == log.len() ==> watcher.delivered() == responses_for(
            log.skip(watcher.origin()),
            watcher.name(),
        ),
{
    let examined = log.subrange(watcher.origin(), watcher.cursor());
    let ahead = log.skip(watcher.cursor());
    assert(log.skip(watcher.origin()) =~= examined + ahead);
    responses_follow_the_events(examined, ahead, watcher.name());
    if watcher.cursor() == log.len() {
        assert(log.skip(watcher.origin()) =~= examined);
    }
}

/// A watcher stays attached when the log grows, and what it is owed grows by
/// what the new events owe to its service.
pub proof fn publication_reaches_the_watcher(watcher: Watcher, log: Seq<Change>, longer: Seq<Change>)
    requires
        watcher.attached(log),
        log.is_prefix_of(longer),
    ensures
        watcher.attached(longer),
        watcher.backlog(longer) == watcher.backlog(log) + responses_for(
            longer.skip(log.len() as int),
            watcher.name(),
        ),
{
    assert(longer.subrange(watcher.origin(), watcher.cursor()) =~= log.subrange(
        watcher.origin(),
        watcher.cursor(),
    ));
    let added = longer.skip(log.len() as int);
    assert(longer.skip(watcher.cursor()) =~= log.skip(watcher.cursor()) + added);
    responses_follow_the_events(log.skip(watcher.cursor()), added, watcher.name());
}

/// What a watcher delivers is decided by where its cursor is: of two states
/// of watchers of one service that subscribed at the same point, the one that
/// is further on has delivered what the other has, followed by what the events
/// between the two cursors owe to the service.
pub proof fn delivery_follows_the_cursor(behind: Watcher, ahead: Watcher, log: Seq<Change>)
    requires
        behind.attached(log),
        ahead.attached(log),
        behind.name() == ahead.name(),
        behind.origin() == ahead.origin(),
        behind.cursor() <= ahead.cursor(),
    ensures
        ahead.delivered() == behind.delivered() + responses_for(
            log.subrange(behind.cursor(), ahead.cursor()),
            behind.name(),
        ),
{
    let shared = log.subrange(behind.origin(), behind.cursor());
    let between = log.subrange(behind.cursor(), ahead.cursor());
    assert(log.subrange(ahead.origin(), ahead.cursor()) =~= shared + between);
    responses_follow_the_events(shared, between, behind.name());
}

/// Two watchers of one service are owed the same responses in the same order,
/// however far each has got. What the earlier subscriber has delivered and is
/// still owed is what the events between the two subscriptions owe it, followed
/// by what the later subscriber has delivered and is still owed. Where both
/// subscribed at the same point, the two are owed the same from the start: the
/// one that is behind has delivered a prefix of what the other has, and at the
/// same cursor they have delivered the same.
pub proof fn watchers_are_isolated(first: Watcher, second: Watcher, log: Seq<Change>)
    requires
        first.attached(log),
        second.attached(log),
        first.name() == second.name(),
        first.origin() <= second.origin(),
    ensures
        first.delivered() + first.backlog(log) == responses_for(
            log.subrange(first.origin(), second.origin()),
            first.name(),
        ) + (second.delivered() + second.backlog(log)),
        first.origin() == second.origin() ==> first.delivered() + first.backlog(log)
            == second.delivered() + second.backlog(log),
        first.origin() == second.origin() && first.cursor() <= second.cursor()
            ==> first.delivered().is_prefix_of(second.delivered()),
        first.origin() == second.origin() && first.cursor() == second.cursor()
            ==> first.delivered() == second.delivered(),
{
    watcher_misses_nothing(first, log);
    watcher_misses_nothing(second, log);
    let earlier = log.subrange(first.origin(), second.origin());
    assert(log.skip(first.origin()) =~= earlier + log.skip(second.origin()));
    responses_follow_the_events(earlier, log.skip(second.origin()), first.name());
    if first.origin() == second.origin() {
        assert(earlier =~= Seq::<Change>::empty());
        assert(responses_for(earlier, first.name()) =~= Seq::<HealthCheckResponse>::empty());
        assert(responses_for(earlier, first.name()) + (second.delivered() + second.backlog(log))
            =~= second.delivered() + second.backlog(log));
        if first.cursor() <= second.cursor() {
            delivery_follows_the_cursor(first, second, log);
            assert(second.delivered().subrange(0, first.delivered().len() as int)
                =~= first.delivered());
        }
    }
}

/// One write is one `set_status`, and each further write is a `set_status` on
/// what the earlier ones left.
pub proof fn writes_are_made_in_turn(statuses: Statuses, writes: Seq<Change>, name: Seq<char>, status: ServingStatus)
    ensures
        after_writes(statuses, Seq::<Change>::empty()) == statuses,
        events_of_writes(statuses, Seq::<Change>::empty()) == Seq::<Change>::empty(),
        after_writes(statuses, writes.push((name, status))) == after_writes(statuses, writes).insert(
            name,
            status,
        ),
        events_of_writes(statuses, writes.push((name, status))) == events_of_writes(statuses, writes)
            + set_events(after_writes(statuses, writes), name, status),
{
    let longer = writes.push((name, status));
    assert(longer.drop_last() =~= writes);
    assert(longer.last() == (name, status));
}

/// After writes for pairwise distinct names, made in whatever order, every one
/// of them is in place with the status it wrote, and a name that none of them
/// wrote is as it was.
pub proof fn disjoint_writes_all_land(statuses: Statuses, writes: Seq<Change>)
    requires
        on_distinct_names(writes),
    ensures
        forall|i: int|
            0 <= i < writes.len() ==> after_writes(statuses, writes).contains_key(
                (#[trigger] writes[i]).0,
            ) && after_writes(statuses, writes)[writes[i].0] == writes[i].1,
        forall|name: Seq<char>|
            !(#[trigger] writes_to(writes, name)) ==> after_writes(statuses, writes).contains_key(name)
                == statuses.contains_key(name) && (statuses.contains_key(name) ==> after_writes(
                statuses,
                writes,
            )[name] == statuses[name]),
    decreases writes.len(),
{
    if writes.len() > 0 {
        let shorter = writes.drop_last();
        let last = writes.last();
        assert forall|i: int, j: int| 0 <= i < j < shorter.len() implies shorter[i].0
            != shorter[j].0 by {
            assert(shorter[i] == writes[i] && shorter[j] == writes[j]);
        }
        disjoint_writes_all_land(statuses, shorter);
        assert forall|i: int| 0 <= i < writes.len() implies after_writes(
            statuses,
            writes,
        ).contains_key((#[trigger] writes[i]).0) && after_writes(statuses, writes)[writes[i].0]
            == writes[i].1 by {
            if i < shorter.len() {
                assert(shorter[i] == writes[i]);
                assert(writes[i].0 != writes[writes.len() - 1].0);
            }
        }
        assert forall|name: Seq<char>| !(#[trigger] writes_to(writes, name)) implies after_writes(
            statuses,
            writes,
        ).contains_key(name) == statuses.contains_key(name) && (statuses.contains_key(name)
            ==> after_writes(statuses, writes)[name] == statuses[name]) by {
            assert(writes[writes.len() - 1].0 != name);
            assert(!writes_to(shorter, name)) by {
                if writes_to(shorter, name) {
                    let i = choose|i: int| 0 <= i < shorter.len() && (#[trigger] shorter[i]).0 == name;
                    assert(writes[i].0 == name);
                }
            }
        }
    }
}

/// Of writes for pairwise distinct names, the ones that publish are the ones
/// that are transitions of the statuses they all start from, whatever the
/// others write: the events are those writes, in the order in which they were
/// made.
pub proof fn disjoint_writes_publish_their_transitions(statuses: Statuses, writes: Seq<Change>)
    requires
        on_distinct_names(writes),
    ensures
        events_of_writes(statuses, writes) == writes.filter(changes(statuses)),
    decreases writes.len(),
{
    let publishes = changes(statuses);
    if writes.len() == 0 {
        assert(writes.filter(publishes) =~= Seq::<Change>::empty()) by {
            reveal(Seq::filter);
        }
    } else {
        let shorter = writes.drop_last();
        let last = writes.last();
        assert(on_distinct_names(shorter)) by {
            assert forall|i: int, j: int| 0 <= i < j < shorter.len() implies shorter[i].0
                != shorter[j].0 by {
                assert(shorter[i] == writes[i] && shorter[j] == writes[j]);
            }
        }
        disjoint_writes_publish_their_transitions(statuses, shorter);
        assert(!writes_to(shorter, last.0)) by {
            if writes_to(shorter, last.0) {
                let i = choose|i: int| 0 <= i < shorter.len() && (#[trigger] shorter[i]).0 == last.0;
                assert(writes[i].0 == writes[writes.len() - 1].0);
            }
        }
        assert(is_transition(after_writes(statuses, shorter), last.0, last.1) == publishes(last)) by {
            disjoint_writes_all_land(statuses, shorter);
        }
        assert(writes.filter(publishes) == (if publishes(last) {
            shorter.filter(publishes).push(last)
        } else {
            shorter.filter(publishes)
        })) by {
            reveal(Seq::filter);
        }
        if publishes(last) {
            assert(events_of_writes(statuses, shorter) + seq![last] =~= events_of_writes(
                statuses,
                shorter,
            ).push(last));
        } else {
            assert(events_of_writes(statuses, shorter) + Seq::<Change>::empty()
                =~= events_of_writes(statuses, shorter));
        }
    }
}

/// A filter that every write passes keeps them all.
proof fn lemma_all_pass(writes: Seq<Change>, passes: spec_fn(Change) -> bool)
    requires
        forall|i: int| 0 <= i < writes.len() ==> passes(#[trigger] writes[i]),
    ensures
        writes.filter(passes) == writes,
    decreases writes.len(),
{
    reveal(Seq::filter);
    if writes.len() > 0 {
        let shorter = writes.drop_last();
        assert forall|i: int| 0 <= i < shorter.len() implies passes(#[trigger] shorter[i]) by {
            assert(shorter[i] == writes[i]);
        }
        lemma_all_pass(shorter, passes);
        assert(passes(writes[writes.len() - 1]));
        assert(shorter.push(writes.last()) =~= writes);
    }
}

/// Writes for pairwise distinct names, each a transition of the statuses they
/// all start from, as where every name is new, publish one event each: the
/// events are the writes themselves, in the order in which they were made.
pub proof fn disjoint_writes_each_publish(statuses: Statuses, writes: Seq<Change>)
    requires
        on_distinct_names(writes),
        forall|i: int|
            0 <= i < writes.len() ==> is_transition(statuses, (#[trigger] writes[i]).0, writes[i].1),
    ensures
        events_of_writes(statuses, writes) == writes,
{
    disjoint_writes_publish_their_transitions(statuses, writes);
    assert forall|i: int| 0 <= i < writes.len() implies changes(statuses)(#[trigger] writes[i]) by {
        assert(is_transition(statuses, writes[i].0, writes[i].1));
    }
    lemma_all_pass(writes, changes(statuses));
}

/// The same writes for pairwise distinct names leave the same statuses in
/// whatever order they are made.
pub proof fn disjoint_writes_commute(statuses: Statuses, one_order: Seq<Change>, other_order: Seq<Change>)
    requires
        on_distinct_names(one_order),
        on_distinct_names(other_order),
        one_order.to_set() == other_order.to_set(),
    ensures
        after_writes(statuses, one_order) == after_writes(statuses, other_order),
{
    let left = after_writes(statuses, one_order);
    let right = after_writes(statuses, other_order);
    disjoint_writes_all_land(statuses, one_order);
    disjoint_writes_all_land(statuses, other_order);
    assert forall|name: Seq<char>| writes_to(one_order, name) implies writes_to(other_order, name)
        && left.contains_key(name) && right.contains_key(name) && left[name] == right[name] by {
        let i = choose|i: int| 0 <= i < one_order.len() && (#[trigger] one_order[i]).0 == name;
        assert(one_order.contains(one_order[i]));
        assert(one_order.to_set().contains(one_order[i]));
        assert(other_order.contains(one_order[i]));
        let j = choose|j: int| 0 <= j < other_order.len() && other_order[j] == one_order[i];
        assert(other_order[j].0 == name);
    }
    assert forall|name: Seq<char>| writes_to(other_order, name) implies writes_to(one_order, name) by {
        let j = choose|j: int| 0 <= j < other_order.len() && (#[trigger] other_order[j]).0 == name;
        assert(other_order.contains(other_order[j]));
        assert(other_order.to_set().contains(other_order[j]));
        assert(one_order.contains(other_order[j]));
        let i = choose|i: int| 0 <= i < one_order.len() && one_order[i] == other_order[j];
        assert(one_order[i].0 == name);
    }
    assert forall|name: Seq<char>| #[trigger]
        left.dom().contains(name) == right.dom().contains(name) by {
        if writes_to(one_order, name) {
            assert(left.contains_key(name) && right.contains_key(name));
        } else {
            assert(!writes_to(other_order, name));
            assert(left.contains_key(name) == statuses.contains_key(name));
            assert(right.contains_key(name) == statuses.contains_key(name));
        }
    }
    assert forall|name: Seq<char>| #[trigger] left.dom().contains(name) implies left[name]
        == right[name] by {
        if !writes_to(one_order, name) {
            assert(!writes_to(other_order, name));
            assert(left.contains_key(name) == statuses.contains_key(name));
        }
    }
    assert(left =~= right);
}

} // verus!
