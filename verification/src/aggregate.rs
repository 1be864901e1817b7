//! Aggregates: state that is rebuilt from a stream's events and that turns
//! commands into new events.

use crate::common::i64_event_version::EventVersion;
use crate::error::StoreError;
use crate::state::StoreState;
use crate::traits::event_store::{committed, EventStore};
use crate::types::event_read::{clones_of, EventRead};
use crate::types::event_read_range::EventsReadRange;
use crate::types::event_write::EventWrite;
use crate::types::expected_version::ExpectedVersion;
use vstd::prelude::*;

verus! {

/// The three operations that define an aggregate. None of them touches a
/// store: `init` and `apply` rebuild the state from a stream's history, and
/// `execute` says which events a command gives rise to in that state.
pub trait Aggregate<State, Command, Event> {
    /// Why `execute` turns a command down.
    type Rejection;

    /// The state before any event.
    fn init(&self) -> State;

    /// The state after `event` has happened in `state`.
    fn apply(&self, state: State, event: &Event) -> State;

    /// The events that `command` gives rise to in `state`.
    fn execute(&self, state: &State, command: &Command) -> Result<Vec<Event>, Self::Rejection>;
}

/// Why a command left the store as it was.
#[derive(Debug, PartialEq, Eq)]
pub enum HandlerError<Rejection> {
    /// The aggregate turned the command down.
    Rejected(Rejection),
    /// The store refused the events that the command gave rise to.
    Store(StoreError),
}

/// What the events of `history` hold, in order.
pub open spec fn payloads<Event, Meta>(
    history: Seq<EventRead<Event, Meta, EventVersion>>,
) -> Seq<Event> {
    history.map_values(|event: EventRead<Event, Meta, EventVersion>| event.data)
}

/// Whether `states` can be the states that the aggregate passes through
/// along `history`: what `init` returns, and after each event what `apply`
/// returns for the state before it.
pub open spec fn traces<State, Command, Event, A: Aggregate<State, Command, Event>>(
    aggregate: &A,
    history: Seq<Event>,
    states: Seq<State>,
) -> bool {
    &&& states.len() == history.len() + 1
    &&& call_ensures(A::init, (aggregate,), states[0])
    &&& forall|i: int|
        0 <= i < history.len() ==> call_ensures(
            A::apply,
            (aggregate, states[i], &history[i]),
            #[trigger] states[i + 1],
        )
}

/// Whether `state` can be what the aggregate makes of `history`: what `init`
/// returns, taken through `apply` once for each event, in order.
pub open spec fn rebuilds<State, Command, Event, A: Aggregate<State, Command, Event>>(
    aggregate: &A,
    history: Seq<Event>,
    state: State,
) -> bool {
    exists|states: Seq<State>| #[trigger]
        traces(aggregate, history, states) && states.last() == state
}

/// Whether `write` can be what `into` makes of a clone of `event`.
pub open spec fn converts<Event: Into<EventWrite<Event, Meta>> + Clone, Meta>(
    event: Event,
    write: EventWrite<Event, Meta>,
) -> bool {
    exists|copy: Event| #[trigger]
        cloned(event, copy) && call_ensures(
            <Event as Into<EventWrite<Event, Meta>>>::into,
            (copy,),
            write,
        )
}

/// Whether each event of `writes` can be what `into` makes of a clone of the
/// event of `events` at the same position.
pub open spec fn converted<Event: Into<EventWrite<Event, Meta>> + Clone, Meta>(
    events: Seq<Event>,
    writes: Seq<EventWrite<Event, Meta>>,
) -> bool {
    &&& writes.len() == events.len()
    &&& forall|i: int| 0 <= i < events.len() ==> #[trigger] converts(events[i], writes[i])
}

/// Whether `decision` can be what the aggregate decides on `command` in
/// `state`: the rejection that `execute` returns, or the events that it
/// returns, each cloned and converted.
pub open spec fn executed<
    State,
    Command,
    Event: Into<EventWrite<Event, Meta>> + Clone,
    Meta,
    A: Aggregate<State, Command, Event>,
>(
    aggregate: &A,
    state: State,
    command: &Command,
    decision: Result<Vec<EventWrite<Event, Meta>>, A::Rejection>,
) -> bool {
    match decision {
        Ok(writes) => exists|events: Vec<Event>| #[trigger]
            call_ensures(
                A::execute,
                (aggregate, &state, command),
                Ok::<Vec<Event>, A::Rejection>(events),
            ) && converted(events@, writes@),
        Err(rejection) => call_ensures(
            A::execute,
            (aggregate, &state, command),
            Err::<Vec<Event>, A::Rejection>(rejection),
        ),
    }
}

/// Whether `decision` can be what the aggregate decides on `command` after
/// `history`.
pub open spec fn decided<
    State,
    Command,
    Event: Into<EventWrite<Event, Meta>> + Clone,
    Meta,
    A: Aggregate<State, Command, Event>,
>(
    aggregate: &A,
    history: Seq<EventRead<Event, Meta, EventVersion>>,
    command: &Command,
    decision: Result<Vec<EventWrite<Event, Meta>>, A::Rejection>,
) -> bool {
    exists|state: State| #[trigger]
        rebuilds(aggregate, payloads(history), state) && executed(
            aggregate,
            state,
            command,
            decision,
        )
}

/// The state that the aggregate makes of `history`.
pub fn rebuild<State, Command, Event, Meta, A: Aggregate<State, Command, Event>>(
    aggregate: &A,
    history: &Vec<EventRead<Event, Meta, EventVersion>>,
) -> (state: State)
    ensures
        rebuilds(aggregate, payloads(history@), state),
{
    let mut state = aggregate.init();
    let ghost states = seq![state];
    let mut i: usize = 0;
    while i < history.len()
        invariant
            i <= history@.len(),
            traces(aggregate, payloads(history@).take(i as int), states),
            states.last() == state,
        decreases history@.len() - i,
    {
        state = aggregate.apply(state, &history[i].data);
        proof {
            let earlier = states;
            states = states.push(state);
            assert forall|k: int| 0 <= k < i + 1 implies call_ensures(
                A::apply,
                (aggregate, states[k], &payloads(history@).take(i + 1)[k]),
                #[trigger] states[k + 1],
            ) by {
                if k < i {
                    assert(states[k] == earlier[k] && states[k + 1] == earlier[k + 1]);
                    assert(payloads(history@).take(i + 1)[k] == payloads(history@).take(
                        i as int,
                    )[k]);
                }
            }
        }
        i += 1;
    }
    proof {
        assert(payloads(history@).take(i as int) =~= payloads(history@));
    }
    state
}

/// What the aggregate decides on `command` after `history`: the events to
/// append, ready for the store, or the aggregate's rejection.
pub fn decide<
    State,
    Command,
    Event: Into<EventWrite<Event, Meta>> + Clone,
    Meta,
    A: Aggregate<State, Command, Event>,
>(
    aggregate: &A,
    history: &Vec<EventRead<Event, Meta, EventVersion>>,
    command: &Command,
) -> (decision: Result<Vec<EventWrite<Event, Meta>>, A::Rejection>)
    ensures
        decided(aggregate, history@, command, decision),
{
    let state = rebuild(aggregate, history);
    let events = match aggregate.execute(&state, command) {
        Ok(events) => events,
        Err(rejection) => {
            proof {
                assert(executed(
                    aggregate,
                    state,
                    command,
                    Err::<Vec<EventWrite<Event, Meta>>, A::Rejection>(rejection),
                ));
            }
            return Err(rejection);
        },
    };
    let mut writes: Vec<EventWrite<Event, Meta>> = Vec::new();
    let mut i: usize = 0;
    while i < events.len()
        invariant
            i <= events@.len(),
            writes@.len() == i,
            forall|k: int| 0 <= k < i ==> #[trigger] converts(events@[k], writes@[k]),
        decreases events@.len() - i,
    {
        let copy = events[i].clone();
        let ghost copied = copy;
        let write: EventWrite<Event, Meta> = copy.into();
        writes.push(write);
        proof {
            assert(cloned(events@[i as int], copied) && call_ensures(
                <Event as Into<EventWrite<Event, Meta>>>::into,
                (copied,),
                writes@[i as int],
            ));
            assert(converts(events@[i as int], writes@[i as int]));
        }
        i += 1;
    }
    proof {
        assert(converted(events@, writes@));
        assert(executed(
            aggregate,
            state,
            command,
            Ok::<Vec<EventWrite<Event, Meta>>, A::Rejection>(writes),
        ));
    }
    Ok(writes)
}

/// Whether `after` and `res` are what the store and the handler make of a
/// decision of the aggregate: a rejection leaves the store as it was and is
/// the answer; events are appended to the stream `stream_id` under the guard
/// `version`, and what the store answers is the answer.
pub open spec fn handled<Event: Clone, Meta: Clone, Rejection>(
    before: StoreState<Event, Meta>,
    stream_id: Seq<char>,
    version: ExpectedVersion<EventVersion>,
    decision: Result<Vec<EventWrite<Event, Meta>>, Rejection>,
    after: StoreState<Event, Meta>,
    res: Result<Vec<EventRead<Event, Meta, EventVersion>>, HandlerError<Rejection>>,
) -> bool {
    match decision {
        Err(rejection) => {
            &&& after == before
            &&& res matches Err(HandlerError::Rejected(answer))
            &&& answer == rejection
        },
        Ok(writes) => match res {
            Ok(reads) => committed(
                before,
                stream_id,
                version,
                writes.deep_view(),
                after,
                Ok::<Vec<EventRead<Event, Meta, EventVersion>>, StoreError>(reads),
            ),
            Err(HandlerError::Store(refusal)) => committed(
                before,
                stream_id,
                version,
                writes.deep_view(),
                after,
                Err::<Vec<EventRead<Event, Meta, EventVersion>>, StoreError>(refusal),
            ),
            Err(HandlerError::Rejected(_)) => false,
        },
    }
}

/// Handles `command` for the aggregate whose events the stream `stream_id`
/// holds: reads the events of `range` from the store, rebuilds the
/// aggregate's state from them, lets the aggregate decide on the command in
/// that state, and appends the events that the command gives rise to under
/// the guard `expected_version`.
///
/// The handler reads once and appends once. It keeps no state between
/// calls and does not try again where the store refuses.
pub fn make_handler<
    State,
    Command,
    Event: Into<EventWrite<Event, Meta>> + Clone,
    Meta: Clone,
    A: Aggregate<State, Command, Event>,
    S: EventStore<Event, Meta>,
>(
    aggregate: &A,
    store: &mut S,
    command: &Command,
    stream_id: &str,
    range: &EventsReadRange<EventVersion>,
    expected_version: &ExpectedVersion<EventVersion>,
) -> (res: Result<Vec<EventRead<Event, Meta, EventVersion>>, HandlerError<A::Rejection>>)
    ensures
        final(store).state().wf(),
        exists|
            history: Vec<EventRead<Event, Meta, EventVersion>>,
            decision: Result<Vec<EventWrite<Event, Meta>>, A::Rejection>,
        |
            clones_of(history.deep_view(), old(store).state().events_in(stream_id@, *range))
                && #[trigger] decided(aggregate, history@, command, decision) && handled(
                old(store).state(),
                stream_id@,
                *expected_version,
                decision,
                final(store).state(),
                res,
            ),
{
    let ghost before = store.state();
    let history = match store.get_events(stream_id, range) {
        Ok(history) => history,
        Err(refusal) => {
            return Err(HandlerError::Store(refusal));
        },
    };
    let writes = match decide(aggregate, &history, command) {
        Ok(writes) => writes,
        Err(rejection) => {
            let res = Err(HandlerError::Rejected(rejection));
            proof {
                let decision = Err::<Vec<EventWrite<Event, Meta>>, A::Rejection>(rejection);
                assert(decided(aggregate, history@, command, decision));
                assert(handled(before, stream_id@, *expected_version, decision, before, res));
            }
            return res;
        },
    };
    let ghost decision = Ok::<Vec<EventWrite<Event, Meta>>, A::Rejection>(writes);
    let ghost written = writes.deep_view();
    match store.append_events(stream_id, expected_version, writes) {
        Ok(reads) => {
            let res = Ok(reads);
            proof {
                assert(decided(aggregate, history@, command, decision));
                assert(handled(
                    before,
                    stream_id@,
                    *expected_version,
                    decision,
                    store.state(),
                    res,
                ));
            }
            res
        },
        Err(refusal) => {
            let res = Err(HandlerError::Store(refusal));
            proof {
                assert(committed(
                    before,
                    stream_id@,
                    *expected_version,
                    written,
                    store.state(),
                    Err::<Vec<EventRead<Event, Meta, EventVersion>>, StoreError>(refusal),
                ));
                assert(decided(aggregate, history@, command, decision));
                assert(handled(
                    before,
                    stream_id@,
                    *expected_version,
                    decision,
                    store.state(),
                    res,
                ));
            }
            res
        },
    }
}

} // verus!
