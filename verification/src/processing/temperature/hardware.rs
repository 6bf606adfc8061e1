//! The reader of a thermometer that is read from its device.

use crate::processing::temperature::{
    published, temperature_at, update_temperature, Action, Event, Failure, Location, Phase,
    Transition,
};
use crate::state::{SharedState, State};
use vstd::prelude::*;

verus! {

/// What the reader waits for after `event` reached it in `phase`.
///
/// A reader that is started reads at once. A read that ended, with a temperature or without,
/// is followed by a wait; a wait that ended, or whose timer failed, by a read. An event that
/// the reader does not wait for changes nothing.
pub open spec fn next_phase(phase: Phase, event: Event) -> Phase {
    match (phase, event) {
        (Phase::Idle, Event::Started) => Phase::ReadPending,
        (Phase::ReadPending, Event::ReadFinished(_)) => Phase::WaitingInterval,
        (Phase::WaitingInterval, Event::TimerElapsed) => Phase::ReadPending,
        (Phase::WaitingInterval, Event::TimerFailed) => Phase::ReadPending,
        _ => phase,
    }
}

/// What has to be started after `event` reached a reader of the polling interval `interval`
/// in `phase`: what the reader then waits for, or nothing where the event changed nothing.
pub open spec fn next_action(phase: Phase, event: Event, interval: u64) -> Action {
    match (phase, event) {
        (Phase::Idle, Event::Started) => Action::Read,
        (Phase::ReadPending, Event::ReadFinished(_)) => Action::Wait(interval),
        (Phase::WaitingInterval, Event::TimerElapsed) => Action::Read,
        (Phase::WaitingInterval, Event::TimerFailed) => Action::Read,
        _ => Action::Nothing,
    }
}

/// The failure to report after `event` reached the reader in `phase`.
pub open spec fn reported(phase: Phase, event: Event) -> Option<Failure> {
    match (phase, event) {
        (Phase::ReadPending, Event::ReadFinished(Err(error))) => Some(Failure::Read(error)),
        (Phase::WaitingInterval, Event::TimerFailed) => Some(Failure::Timer),
        _ => None,
    }
}

/// The state of the store after `event` reached the reader of `location` in `phase`: the
/// outcome of a read that the reader waited for is published, and nothing else is.
pub open spec fn stored(state: State, location: Location, phase: Phase, event: Event) -> State {
    match (phase, event) {
        (Phase::ReadPending, Event::ReadFinished(outcome)) => published(state, location, outcome),
        _ => state,
    }
}

/// What the reader waits for after `events` reached it, one by one, in `phase`.
pub open spec fn phase_after(phase: Phase, events: Seq<Event>) -> Phase
    decreases events.len(),
{
    if events.len() == 0 {
        phase
    } else {
        next_phase(phase_after(phase, events.drop_last()), events.last())
    }
}

/// What had to be started, in order, while `events` reached a reader one by one that was in
/// `phase` before the first.
pub open spec fn actions_after(phase: Phase, events: Seq<Event>, interval: u64) -> Seq<Action>
    decreases events.len(),
{
    if events.len() == 0 {
        Seq::empty()
    } else {
        let before = actions_after(phase, events.drop_last(), interval);
        let action = next_action(phase_after(phase, events.drop_last()), events.last(), interval);
        if action == Action::Nothing {
            before
        } else {
            before.push(action)
        }
    }
}

/// The state of the store after `events` reached the reader of `location`, one by one, that
/// was in `phase` before the first.
pub open spec fn stored_after(
    state: State,
    location: Location,
    phase: Phase,
    events: Seq<Event>,
) -> State
    decreases events.len(),
{
    if events.len() == 0 {
        state
    } else {
        stored(
            stored_after(state, location, phase, events.drop_last()),
            location,
            phase_after(phase, events.drop_last()),
            events.last(),
        )
    }
}

/// Whether `actions` are a read, a wait of `interval`, a read, and so on in turn.
pub open spec fn alternating(actions: Seq<Action>, interval: u64) -> bool {
    forall|i: int|
        0 <= i < actions.len() ==> #[trigger] actions[i] == if i % 2 == 0 {
            Action::Read
        } else {
            Action::Wait(interval)
        }
}

/// Whatever events reach a new reader, and in whatever order, what it has started is a read
/// first, and then waits and reads in turn: no read is started before the wait that follows
/// the last read is over, and never two at a time. What it waits for is what it started
/// last.
pub proof fn lemma_reads_and_waits_alternate(events: Seq<Event>, interval: u64)
    ensures
        alternating(actions_after(Phase::Idle, events, interval), interval),
        phase_after(Phase::Idle, events) == if actions_after(Phase::Idle, events, interval).len()
            == 0 {
            Phase::Idle
        } else if actions_after(Phase::Idle, events, interval).len() % 2 == 1 {
            Phase::ReadPending
        } else {
            Phase::WaitingInterval
        },
    decreases events.len(),
{
    if events.len() > 0 {
        lemma_reads_and_waits_alternate(events.drop_last(), interval);
    }
}

/// Whatever events reach a reader, the store holds for the other location what it held
/// before, and for the reader's own location either what it held before or the temperature
/// of a read that ended well: no failure and no timer writes to the store.
pub proof fn lemma_only_temperatures_read_are_stored(
    state: State,
    location: Location,
    phase: Phase,
    events: Seq<Event>,
)
    ensures
        location == Location::Inside ==> stored_after(
            state,
            location,
            phase,
            events,
        ).outside_temperature == state.outside_temperature,
        location == Location::Outside ==> stored_after(
            state,
            location,
            phase,
            events,
        ).inside_temperature == state.inside_temperature,
        temperature_at(stored_after(state, location, phase, events), location) == temperature_at(
            state,
            location,
        ) || exists|i: int|
            0 <= i < events.len() && #[trigger] events[i] == Event::ReadFinished(
                Ok(temperature_at(stored_after(state, location, phase, events), location)->0),
            ),
    decreases events.len(),
{
    if events.len() > 0 {
        let before = events.drop_last();
        lemma_only_temperatures_read_are_stored(state, location, phase, before);
        let held = temperature_at(stored_after(state, location, phase, events), location);
        let held_before = temperature_at(stored_after(state, location, phase, before), location);
        if held == held_before {
            if held != temperature_at(state, location) {
                let i = choose|i: int|
                    0 <= i < before.len() && #[trigger] before[i] == Event::ReadFinished(
                        Ok(held_before->0),
                    );
                assert(events[i] == before[i]);
            }
        } else {
            assert(events[events.len() - 1] == Event::ReadFinished(Ok(held->0)));
        }
    }
}

/// The reader of the thermometer of one location.
#[derive(Debug)]
pub struct TemperatureReader {
    location: Location,
    interval: u64,
    phase: Phase,
}

impl TemperatureReader {
    /// The location whose thermometer is read.
    pub closed spec fn spec_location(&self) -> Location {
        self.location
    }

    /// The polling interval, in milliseconds.
    pub closed spec fn spec_interval(&self) -> u64 {
        self.interval
    }

    /// What the reader waits for.
    pub closed spec fn spec_phase(&self) -> Phase {
        self.phase
    }

    /// A reader for `location` that waits `interval` milliseconds after each read. It is not
    /// started yet.
    pub fn new(location: Location, interval: u64) -> (reader: TemperatureReader)
        ensures
            reader.location() == location,
            reader.interval() == interval,
            reader.phase() == Phase::Idle,
    {
        TemperatureReader { location, interval, phase: Phase::Idle }
    }

    /// The location whose thermometer is read.
    #[verifier::when_used_as_spec(spec_location)]
    pub fn location(&self) -> (location: Location)
        ensures
            location == self.spec_location(),
    {
        self.location
    }

    /// The polling interval, in milliseconds.
    #[verifier::when_used_as_spec(spec_interval)]
    pub fn interval(&self) -> (interval: u64)
        ensures
            interval == self.spec_interval(),
    {
        self.interval
    }

    /// What the reader waits for.
    #[verifier::when_used_as_spec(spec_phase)]
    pub fn phase(&self) -> (phase: Phase)
        ensures
            phase == self.spec_phase(),
    {
        self.phase
    }

    /// Takes `event`: publishes a temperature that was read, and answers with what has to be
    /// started next and with the failure to report, if there is one.
    pub fn step(&mut self, event: Event, shared_state: &mut SharedState) -> (transition: Transition)
        ensures
            final(self).location() == old(self).location(),
            final(self).interval() == old(self).interval(),
            final(self).phase() == next_phase(old(self).phase(), event),
            transition.action == next_action(old(self).phase(), event, old(self).interval()),
            transition.failure == reported(old(self).phase(), event),
            final(shared_state)@ == stored(
                old(shared_state)@,
                old(self).location(),
                old(self).phase(),
                event,
            ),
    {
        match (self.phase, event) {
            (Phase::Idle, Event::Started) => {
                self.phase = Phase::ReadPending;
                Transition { action: Action::Read, failure: None }
            },
            (Phase::ReadPending, Event::ReadFinished(Ok(value))) => {
                update_temperature(shared_state, self.location, value);
                self.phase = Phase::WaitingInterval;
                Transition { action: Action::Wait(self.interval), failure: None }
            },
            (Phase::ReadPending, Event::ReadFinished(Err(error))) => {
                self.phase = Phase::WaitingInterval;
                Transition { action: Action::Wait(self.interval), failure: Some(Failure::Read(error)) }
            },
            (Phase::WaitingInterval, Event::TimerElapsed) => {
                self.phase = Phase::ReadPending;
                Transition { action: Action::Read, failure: None }
            },
            (Phase::WaitingInterval, Event::TimerFailed) => {
                self.phase = Phase::ReadPending;
                Transition { action: Action::Read, failure: Some(Failure::Timer) }
            },
            _ => Transition { action: Action::Nothing, failure: None },
        }
    }
}

} // verus!
