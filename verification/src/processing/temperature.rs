//! The reader of one location's thermometer: what it waits for, what it does next, and what
//! it publishes.
//!
//! A reader alternates between one attempt to read its thermometer and one wait of a fixed
//! interval. It does neither itself: it is told what happened, as an [`Event`], and answers
//! with what has to be started next, as an [`Action`].

use crate::error::Error;
use crate::state::{SharedState, State};
use crate::w1::thermometer::Temperature;
use vstd::prelude::*;

pub mod hardware;
pub mod simulation;

verus! {

/// Thermometer location.
#[derive(Clone, Copy, Debug, PartialEq, Eq, Structural)]
pub enum Location {
    Inside,
    Outside,
}

/// What a reader is waiting for.
#[derive(Clone, Copy, Debug, PartialEq, Eq, Structural)]
pub enum Phase {
    /// The reader was made and not started yet: nothing is outstanding.
    Idle,
    /// One attempt to read the thermometer is outstanding.
    ReadPending,
    /// One wait of the polling interval is outstanding.
    WaitingInterval,
}

/// What a reader is told.
#[derive(Debug)]
pub enum Event {
    /// The reader is started.
    Started,
    /// The wait is over.
    TimerElapsed,
    /// The timer failed. The wait counts as over.
    TimerFailed,
    /// The attempt to read the thermometer ended, with the temperature or with the error of
    /// the read or of the parser.
    ReadFinished(Result<Temperature, Error>),
}

/// What has to be started next.
#[derive(Clone, Copy, Debug, PartialEq, Eq, Structural)]
pub enum Action {
    /// Nothing: what was outstanding still is.
    Nothing,
    /// One attempt to read the thermometer.
    Read,
    /// One wait of so many milliseconds.
    Wait(u64),
}

/// A failure to report.
#[derive(Debug)]
pub enum Failure {
    /// The timer failed.
    Timer,
    /// The read or the parser failed.
    Read(Error),
}

/// The answer of a reader to an event.
#[derive(Debug)]
pub struct Transition {
    /// What has to be started next.
    pub action: Action,
    /// The failure to report, if the event was one.
    pub failure: Option<Failure>,
}

/// The state after `value` was written for `location`: that field holds it, the other field
/// is as before.
pub open spec fn written(state: State, location: Location, value: Temperature) -> State {
    match location {
        Location::Inside => State { inside_temperature: Some(value), ..state },
        Location::Outside => State { outside_temperature: Some(value), ..state },
    }
}

/// The state after one attempt to read the thermometer of `location` ended with `outcome`:
/// a temperature is written, a failure leaves the state as it was.
pub open spec fn published(
    state: State,
    location: Location,
    outcome: Result<Temperature, Error>,
) -> State {
    match outcome {
        Ok(value) => written(state, location, value),
        Err(_) => state,
    }
}

/// The temperature that `state` holds for `location`.
pub open spec fn temperature_at(state: State, location: Location) -> Option<Temperature> {
    match location {
        Location::Inside => state.inside_temperature,
        Location::Outside => state.outside_temperature,
    }
}

/// The state after the attempts to read the thermometer of `location` ended, one after the
/// other, with `outcomes`.
pub open spec fn published_all(
    state: State,
    location: Location,
    outcomes: Seq<Result<Temperature, Error>>,
) -> State
    decreases outcomes.len(),
{
    if outcomes.len() == 0 {
        state
    } else {
        published(
            published_all(state, location, outcomes.drop_last()),
            location,
            outcomes.last(),
        )
    }
}

/// The temperature of the last of `outcomes` that is no failure, if there is one.
pub open spec fn latest_success(outcomes: Seq<Result<Temperature, Error>>) -> Option<
    Temperature,
>
    decreases outcomes.len(),
{
    if outcomes.len() == 0 {
        None
    } else {
        match outcomes.last() {
            Ok(value) => Some(value),
            Err(_) => latest_success(outcomes.drop_last()),
        }
    }
}

/// The state after attempts to read the thermometers of both locations ended in the order
/// of `attempts`, each with its location and its outcome.
pub open spec fn published_interleaved(
    state: State,
    attempts: Seq<(Location, Result<Temperature, Error>)>,
) -> State
    decreases attempts.len(),
{
    if attempts.len() == 0 {
        state
    } else {
        published(
            published_interleaved(state, attempts.drop_last()),
            attempts.last().0,
            attempts.last().1,
        )
    }
}

/// The outcomes of those of `attempts` that are of `location`, in their order.
pub open spec fn outcomes_at(
    attempts: Seq<(Location, Result<Temperature, Error>)>,
    location: Location,
) -> Seq<Result<Temperature, Error>>
    decreases attempts.len(),
{
    if attempts.len() == 0 {
        Seq::empty()
    } else if attempts.last().0 == location {
        outcomes_at(attempts.drop_last(), location).push(attempts.last().1)
    } else {
        outcomes_at(attempts.drop_last(), location)
    }
}

/// Writes `value` for `location`.
pub fn update_temperature(shared_state: &mut SharedState, location: Location, value: Temperature)
    ensures
        final(shared_state)@ == written(old(shared_state)@, location, value),
{
    match location {
        Location::Inside => shared_state.set_inside_temperature(value),
        Location::Outside => shared_state.set_outside_temperature(value),
    }
}

/// After any sequence of attempts to read one location's thermometer, the store holds for
/// that location the temperature of the last attempt that succeeded, or what it held before
/// where none did; for the other location it holds what it held before.
pub proof fn lemma_store_holds_latest_success(
    state: State,
    location: Location,
    outcomes: Seq<Result<Temperature, Error>>,
)
    ensures
        temperature_at(published_all(state, location, outcomes), location) == match latest_success(
            outcomes,
        ) {
            Some(value) => Some(value),
            None => temperature_at(state, location),
        },
        location == Location::Inside ==> published_all(
            state,
            location,
            outcomes,
        ).outside_temperature == state.outside_temperature,
        location == Location::Outside ==> published_all(
            state,
            location,
            outcomes,
        ).inside_temperature == state.inside_temperature,
    decreases outcomes.len(),
{
    if outcomes.len() > 0 {
        lemma_store_holds_latest_success(state, location, outcomes.drop_last());
    }
}

/// A temperature that the store holds is never taken away again: after any sequence of
/// attempts, a field that held a temperature holds one.
pub proof fn lemma_store_never_forgets(
    state: State,
    location: Location,
    outcomes: Seq<Result<Temperature, Error>>,
)
    ensures
        state.inside_temperature is Some ==> published_all(
            state,
            location,
            outcomes,
        ).inside_temperature is Some,
        state.outside_temperature is Some ==> published_all(
            state,
            location,
            outcomes,
        ).outside_temperature is Some,
    decreases outcomes.len(),
{
    if outcomes.len() > 0 {
        lemma_store_never_forgets(state, location, outcomes.drop_last());
    }
}

/// However the attempts of the two locations' readers are interleaved, the store holds for
/// each location what it would hold had that location's reader run alone: each field is a
/// whole temperature that its own reader published, or what the field held before.
pub proof fn lemma_interleaving_keeps_locations_apart(
    state: State,
    attempts: Seq<(Location, Result<Temperature, Error>)>,
    location: Location,
)
    ensures
        temperature_at(published_interleaved(state, attempts), location) == temperature_at(
            published_all(state, location, outcomes_at(attempts, location)),
            location,
        ),
    decreases attempts.len(),
{
    if attempts.len() > 0 {
        let before = attempts.drop_last();
        lemma_interleaving_keeps_locations_apart(state, before, location);
        if attempts.last().0 == location {
            let outcomes = outcomes_at(before, location);
            assert(outcomes.push(attempts.last().1).drop_last() =~= outcomes);
        }
    }
}

} // verus!
