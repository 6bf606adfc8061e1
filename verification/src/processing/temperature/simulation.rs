//! The reader of a thermometer that is simulated: in place of a read it moves a temperature
//! up and down between two bounds, by a fixed step, and it never fails.

use crate::processing::temperature::{
    update_temperature, written, Action, Event, Failure, Location, Phase, Transition,
};
use crate::state::SharedState;
use crate::w1::thermometer::Temperature;
use vstd::prelude::*;

verus! {

/// The lowest temperature that is simulated, in thousandths of a degree Celsius.
pub const MIN_TEMPERATURE: i64 = -10_000;

/// The highest temperature that is simulated, in thousandths of a degree Celsius.
pub const MAX_TEMPERATURE: i64 = 10_000;

/// The temperature that the simulation starts from: the lowest inside, the highest outside.
pub open spec fn first_temperature(location: Location) -> int {
    match location {
        Location::Inside => MIN_TEMPERATURE as int,
        Location::Outside => MAX_TEMPERATURE as int,
    }
}

/// The step that the simulation starts with: up by a degree inside, down by half a degree
/// outside.
pub open spec fn first_step(location: Location) -> int {
    match location {
        Location::Inside => 1_000,
        Location::Outside => -500,
    }
}

/// The temperature of the next tick.
pub open spec fn next_temperature(temperature: int, step: int) -> int {
    temperature + step
}

/// The step after the next tick: turned round where the tick reached a bound.
pub open spec fn next_step(temperature: int, step: int) -> int {
    if next_temperature(temperature, step) <= MIN_TEMPERATURE || next_temperature(
        temperature,
        step,
    ) >= MAX_TEMPERATURE {
        -step
    } else {
        step
    }
}

/// Whether a temperature and a step are such as the simulation reaches: the temperature
/// lies between the bounds, a whole number of steps from them, and at a bound the step leads
/// back between them.
pub open spec fn on_course(temperature: int, step: int) -> bool {
    &&& MIN_TEMPERATURE <= temperature <= MAX_TEMPERATURE
    &&& step == 1_000 || step == -1_000 || step == 500 || step == -500
    &&& (temperature - MIN_TEMPERATURE) % 500 == 0
    &&& (step == 1_000 || step == -1_000) ==> (temperature - MIN_TEMPERATURE) % 1_000 == 0
    &&& temperature == MIN_TEMPERATURE ==> step > 0
    &&& temperature == MAX_TEMPERATURE ==> step < 0
}

/// Whether `event` makes a reader tick in `phase`: its start, and the end of a wait.
pub open spec fn ticks(phase: Phase, event: Event) -> bool {
    match (phase, event) {
        (Phase::Idle, Event::Started) => true,
        (Phase::WaitingInterval, Event::TimerElapsed) => true,
        (Phase::WaitingInterval, Event::TimerFailed) => true,
        _ => false,
    }
}

/// The simulation starts on course.
pub proof fn lemma_starts_on_course(location: Location)
    ensures
        on_course(first_temperature(location), first_step(location)),
{
}

/// A tick keeps the simulation on course: the temperature never leaves the bounds.
pub proof fn lemma_stays_on_course(temperature: int, step: int)
    requires
        on_course(temperature, step),
    ensures
        on_course(next_temperature(temperature, step), next_step(temperature, step)),
        MIN_TEMPERATURE <= next_temperature(temperature, step) <= MAX_TEMPERATURE,
{
}

/// The temperature and the step of the simulation for `location` after so many ticks.
pub open spec fn course(location: Location, ticks: nat) -> (int, int)
    decreases ticks,
{
    if ticks == 0 {
        (first_temperature(location), first_step(location))
    } else {
        let before = course(location, (ticks - 1) as nat);
        (next_temperature(before.0, before.1), next_step(before.0, before.1))
    }
}

/// However long the simulation runs, its temperature lies between the bounds.
pub proof fn lemma_course_stays_between_bounds(location: Location, ticks: nat)
    ensures
        on_course(course(location, ticks).0, course(location, ticks).1),
        MIN_TEMPERATURE <= course(location, ticks).0 <= MAX_TEMPERATURE,
    decreases ticks,
{
    if ticks == 0 {
        lemma_starts_on_course(location);
    } else {
        let before = course(location, (ticks - 1) as nat);
        lemma_course_stays_between_bounds(location, (ticks - 1) as nat);
        lemma_stays_on_course(before.0, before.1);
    }
}

/// The reader of the simulated thermometer of one location.
#[derive(Debug)]
pub struct TemperatureReader {
    location: Location,
    interval: u64,
    phase: Phase,
    temperature: i64,
    temperature_step: i64,
}

impl TemperatureReader {
    #[verifier::type_invariant]
    spec fn well_formed(self) -> bool {
        on_course(self.temperature as int, self.temperature_step as int)
    }

    /// The location whose thermometer is simulated.
    pub closed spec fn spec_location(&self) -> Location {
        self.location
    }

    /// The polling interval, in milliseconds.
    pub closed spec fn spec_interval(&self) -> u64 {
        self.interval
    }

    /// What the reader waits for.
    pub closed spec fn spec_phase(&self) -> Phase {
        self.phase
    }

    /// The temperature of the last tick, in thousandths of a degree Celsius.
    pub closed spec fn spec_temperature(&self) -> i64 {
        self.temperature
    }

    /// What the next tick adds to the temperature.
    pub closed spec fn spec_temperature_step(&self) -> i64 {
        self.temperature_step
    }

    /// A reader for `location` that waits `interval` milliseconds after each tick. It is not
    /// started yet.
    pub fn new(location: Location, interval: u64) -> (reader: TemperatureReader)
        ensures
            reader.location() == location,
            reader.interval() == interval,
            reader.phase() == Phase::Idle,
            reader.temperature() == first_temperature(location),
            reader.temperature_step() == first_step(location),
    {
        let (temperature, temperature_step): (i64, i64) = match location {
            Location::Inside => (MIN_TEMPERATURE, 1_000),
            Location::Outside => (MAX_TEMPERATURE, -500),
        };
        TemperatureReader { location, interval, phase: Phase::Idle, temperature, temperature_step }
    }

    /// The location whose thermometer is simulated.
    #[verifier::when_used_as_spec(spec_location)]
    pub fn location(&self) -> (location: Location)
        ensures
            location == self.spec_location(),
    {
        self.location
    }

    /// The polling interval, in milliseconds.
    #[verifier::when_used_as_spec(spec_interval)]
    pub fn interval(&self) -> (interval: u64)
        ensures
            interval == self.spec_interval(),
    {
        self.interval
    }

    /// What the reader waits for.
    #[verifier::when_used_as_spec(spec_phase)]
    pub fn phase(&self) -> (phase: Phase)
        ensures
            phase == self.spec_phase(),
    {
        self.phase
    }

    /// The temperature of the last tick, in thousandths of a degree Celsius. It lies between
    /// the bounds.
    #[verifier::when_used_as_spec(spec_temperature)]
    pub fn temperature(&self) -> (temperature: i64)
        ensures
            temperature == self.spec_temperature(),
            MIN_TEMPERATURE <= temperature <= MAX_TEMPERATURE,
    {
        proof {
            use_type_invariant(self);
        }
        self.temperature
    }

    /// What the next tick adds to the temperature.
    #[verifier::when_used_as_spec(spec_temperature_step)]
    pub fn temperature_step(&self) -> (step: i64)
        ensures
            step == self.spec_temperature_step(),
    {
        self.temperature_step
    }

    /// Takes `event`. The start of the reader and the end of each wait are a tick: the
    /// temperature moves by one step, is published, and a wait has to be started. Any other
    /// event changes nothing.
    pub fn step(&mut self, event: Event, shared_state: &mut SharedState) -> (transition: Transition)
        ensures
            final(self).location() == old(self).location(),
            final(self).interval() == old(self).interval(),
            ticks(old(self).phase(), event) ==> {
                &&& final(self).phase() == Phase::WaitingInterval
                &&& final(self).temperature() == next_temperature(
                    old(self).temperature() as int,
                    old(self).temperature_step() as int,
                )
                &&& final(self).temperature_step() == next_step(
                    old(self).temperature() as int,
                    old(self).temperature_step() as int,
                )
                &&& MIN_TEMPERATURE <= final(self).temperature() <= MAX_TEMPERATURE
                &&& transition.action == Action::Wait(old(self).interval())
                &&& transition.failure == if event is TimerFailed {
                    Some(Failure::Timer)
                } else {
                    None::<Failure>
                }
                &&& final(shared_state)@ == written(
                    old(shared_state)@,
                    old(self).location(),
                    Temperature { value: final(self).temperature() },
                )
            },
            !ticks(old(self).phase(), event) ==> {
                &&& final(self).phase() == old(self).phase()
                &&& final(self).temperature() == old(self).temperature()
                &&& final(self).temperature_step() == old(self).temperature_step()
                &&& transition.action == Action::Nothing
                &&& transition.failure is None
                &&& final(shared_state)@ == old(shared_state)@
            },
    {
        proof {
            use_type_invariant(&*self);
        }
        let failure = match (self.phase, event) {
            (Phase::Idle, Event::Started) => None,
            (Phase::WaitingInterval, Event::TimerElapsed) => None,
            (Phase::WaitingInterval, Event::TimerFailed) => Some(Failure::Timer),
            _ => {
                return Transition { action: Action::Nothing, failure: None };
            },
        };
        proof {
            lemma_stays_on_course(self.temperature as int, self.temperature_step as int);
        }
        let temperature = self.temperature + self.temperature_step;
        let temperature_step = if temperature <= MIN_TEMPERATURE || temperature
            >= MAX_TEMPERATURE {
            -self.temperature_step
        } else {
            self.temperature_step
        };
        let value = Temperature::new(temperature);
        update_temperature(shared_state, self.location, value);
        *self = TemperatureReader {
            location: self.location,
            interval: self.interval,
            phase: Phase::WaitingInterval,
            temperature,
            temperature_step,
        };
        Transition { action: Action::Wait(self.interval), failure }
    }
}

} // verus!
