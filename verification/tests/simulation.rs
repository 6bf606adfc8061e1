use thermometer::error::Error;
use thermometer::processing::temperature::simulation::{
    TemperatureReader, MAX_TEMPERATURE, MIN_TEMPERATURE,
};
use thermometer::processing::temperature::{Action, Event, Failure, Location, Phase};
use thermometer::state::SharedState;
use thermometer::w1::thermometer::Temperature;

#[test]
fn the_simulation_starts_at_a_bound() {
    let inside = TemperatureReader::new(Location::Inside, 500);
    assert_eq!(inside.temperature(), -10_000);
    assert_eq!(inside.temperature_step(), 1_000);
    assert_eq!(inside.phase(), Phase::Idle);
    assert_eq!(inside.location(), Location::Inside);
    assert_eq!(inside.interval(), 500);
    let outside = TemperatureReader::new(Location::Outside, 2_000);
    assert_eq!(outside.temperature(), 10_000);
    assert_eq!(outside.temperature_step(), -500);
    assert_eq!(outside.interval(), 2_000);
    assert_eq!(MIN_TEMPERATURE, -10_000);
    assert_eq!(MAX_TEMPERATURE, 10_000);
}

#[test]
fn the_first_tick_comes_with_the_start() {
    let mut store = SharedState::new();
    let mut reader = TemperatureReader::new(Location::Inside, 500);
    let transition = reader.step(Event::Started, &mut store);
    assert_eq!(transition.action, Action::Wait(500));
    assert!(transition.failure.is_none());
    assert_eq!(reader.phase(), Phase::WaitingInterval);
    assert_eq!(reader.temperature(), -9_000);
    assert_eq!(store.state().inside_temperature, Some(Temperature::new(-9_000)));
    assert_eq!(store.state().outside_temperature, None);
}

#[test]
fn the_inside_temperature_turns_at_the_bounds() {
    let mut store = SharedState::new();
    let mut reader = TemperatureReader::new(Location::Inside, 500);
    reader.step(Event::Started, &mut store);
    for _ in 0..18 {
        reader.step(Event::TimerElapsed, &mut store);
    }
    assert_eq!(reader.temperature(), 9_000);
    assert_eq!(reader.temperature_step(), 1_000);
    reader.step(Event::TimerElapsed, &mut store);
    assert_eq!(reader.temperature(), 10_000);
    assert_eq!(reader.temperature_step(), -1_000);
    assert_eq!(store.state().inside_temperature, Some(Temperature::new(10_000)));
    reader.step(Event::TimerElapsed, &mut store);
    assert_eq!(reader.temperature(), 9_000);
    for _ in 0..19 {
        reader.step(Event::TimerElapsed, &mut store);
    }
    assert_eq!(reader.temperature(), -10_000);
    assert_eq!(reader.temperature_step(), 1_000);
    assert_eq!(store.state().inside_temperature, Some(Temperature::new(-10_000)));
}

#[test]
fn the_outside_temperature_turns_at_the_bounds() {
    let mut store = SharedState::new();
    let mut reader = TemperatureReader::new(Location::Outside, 500);
    reader.step(Event::Started, &mut store);
    assert_eq!(reader.temperature(), 9_500);
    assert_eq!(store.state().outside_temperature, Some(Temperature::new(9_500)));
    for _ in 0..39 {
        reader.step(Event::TimerElapsed, &mut store);
    }
    assert_eq!(reader.temperature(), -10_000);
    assert_eq!(reader.temperature_step(), 500);
    reader.step(Event::TimerElapsed, &mut store);
    assert_eq!(reader.temperature(), -9_500);
    assert_eq!(store.state().inside_temperature, None);
}

#[test]
fn the_simulation_stays_between_the_bounds() {
    let mut store = SharedState::new();
    let mut inside = TemperatureReader::new(Location::Inside, 500);
    let mut outside = TemperatureReader::new(Location::Outside, 500);
    inside.step(Event::Started, &mut store);
    outside.step(Event::Started, &mut store);
    for _ in 0..1_000 {
        let transition = inside.step(Event::TimerElapsed, &mut store);
        assert_eq!(transition.action, Action::Wait(500));
        outside.step(Event::TimerElapsed, &mut store);
        let snapshot = store.state();
        let i = snapshot.inside_temperature.unwrap().value;
        let o = snapshot.outside_temperature.unwrap().value;
        assert!(MIN_TEMPERATURE <= i && i <= MAX_TEMPERATURE);
        assert!(MIN_TEMPERATURE <= o && o <= MAX_TEMPERATURE);
        assert_eq!(i, inside.temperature());
        assert_eq!(o, outside.temperature());
    }
}

#[test]
fn a_failed_timer_is_reported_and_ticks() {
    let mut store = SharedState::new();
    let mut reader = TemperatureReader::new(Location::Inside, 500);
    reader.step(Event::Started, &mut store);
    let transition = reader.step(Event::TimerFailed, &mut store);
    assert_eq!(transition.action, Action::Wait(500));
    assert!(matches!(transition.failure, Some(Failure::Timer)));
    assert_eq!(reader.temperature(), -8_000);
    assert_eq!(store.state().inside_temperature, Some(Temperature::new(-8_000)));
}

#[test]
fn the_simulation_ignores_what_it_does_not_wait_for() {
    let mut store = SharedState::new();
    let mut reader = TemperatureReader::new(Location::Inside, 500);
    let transition = reader.step(Event::TimerElapsed, &mut store);
    assert_eq!(transition.action, Action::Nothing);
    assert_eq!(reader.phase(), Phase::Idle);
    assert_eq!(reader.temperature(), -10_000);
    assert_eq!(store.state().inside_temperature, None);
    reader.step(Event::Started, &mut store);
    for event in [
        Event::Started,
        Event::ReadFinished(Ok(Temperature::new(5))),
        Event::ReadFinished(Err(Error::from("x"))),
    ] {
        let transition = reader.step(event, &mut store);
        assert_eq!(transition.action, Action::Nothing);
        assert!(transition.failure.is_none());
        assert_eq!(reader.temperature(), -9_000);
        assert_eq!(reader.phase(), Phase::WaitingInterval);
    }
    assert_eq!(store.state().inside_temperature, Some(Temperature::new(-9_000)));
}
