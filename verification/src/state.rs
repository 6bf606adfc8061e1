//! The store of the latest temperature of each location.

use crate::w1::thermometer::Temperature;
use vstd::prelude::*;

verus! {

/// Application state: the latest temperature of each location, absent until a first one was
/// measured.
#[derive(Clone, Copy, Debug, PartialEq, Eq)]
pub struct State {
    pub inside_temperature: Option<Temperature>,
    pub outside_temperature: Option<Temperature>,
}

impl State {
    /// The state in which no temperature is known.
    pub open spec fn empty() -> State {
        State { inside_temperature: None, outside_temperature: None }
    }
}

impl Default for State {
    fn default() -> (s: State)
        ensures
            s == State::empty(),
    {
        State { inside_temperature: None, outside_temperature: None }
    }
}

/// The holder of the application state. Its view is the state that it holds.
///
/// A write replaces one field as a whole and a snapshot copies both, so that no reader of a
/// snapshot sees a temperature half written.
#[derive(Debug)]
pub struct SharedState {
    state: State,
}

impl View for SharedState {
    type V = State;

    closed spec fn view(&self) -> State {
        self.state
    }
}

impl SharedState {
    /// Create new `SharedState`, in which no temperature is known.
    pub fn new() -> (s: SharedState)
        ensures
            s@ == State::empty(),
    {
        SharedState { state: State::default() }
    }

    /// Set inside temperature.
    pub fn set_inside_temperature(&mut self, value: Temperature)
        ensures
            final(self)@ == (State { inside_temperature: Some(value), ..old(self)@ }),
    {
        self.state.inside_temperature = Some(value);
    }

    /// Set outside temperature.
    pub fn set_outside_temperature(&mut self, value: Temperature)
        ensures
            final(self)@ == (State { outside_temperature: Some(value), ..old(self)@ }),
    {
        self.state.outside_temperature = Some(value);
    }

    /// `State` snapshot.
    pub fn state(&self) -> (s: State)
        ensures
            s == self@,
    {
        self.state
    }
}

} // verus!
