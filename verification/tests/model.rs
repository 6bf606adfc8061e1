use thermometer::model::Model;

#[test]
fn a_model_holds_its_lines() {
    let model = Model::new("Inside temperature 21.5 °C", "Outside temperature N/A", "14:03:07", "2018-08-05");
    assert_eq!(model.inside_temperature(), "Inside temperature 21.5 °C");
    assert_eq!(model.outside_temperature(), "Outside temperature N/A");
    assert_eq!(model.time(), "14:03:07");
    assert_eq!(model.date(), "2018-08-05");
}

#[test]
fn a_model_is_made_of_readings_and_a_timestamp() {
    let model = Model::from_readings(Some("27.1 °C"), None, "2018-08-05T14:03:07+02:00").unwrap();
    assert_eq!(model.inside_temperature(), "Inside temperature 27.1 °C");
    assert_eq!(model.outside_temperature(), "Outside temperature N/A");
    assert_eq!(model.date(), "2018-08-05");
    assert_eq!(model.time(), "14:03:07");
    let model = Model::from_readings(None, Some("-58.0 °F"), "2024-02-29T23:59:59Z").unwrap();
    assert_eq!(model.inside_temperature(), "Inside temperature N/A");
    assert_eq!(model.outside_temperature(), "Outside temperature -58.0 °F");
    assert_eq!(model.date(), "2024-02-29");
    assert_eq!(model.time(), "23:59:59");
}

#[test]
fn a_timestamp_of_nineteen_characters_is_enough() {
    let model = Model::from_readings(None, None, "2018-08-05T14:03:07").unwrap();
    assert_eq!(model.date(), "2018-08-05");
    assert_eq!(model.time(), "14:03:07");
}

#[test]
fn a_timestamp_too_short_or_not_in_ascii_gives_no_model() {
    assert!(Model::from_readings(None, None, "2018-08-05T14:03:0").is_none());
    assert!(Model::from_readings(Some("1.0 °C"), None, "").is_none());
    assert!(Model::from_readings(None, None, "2018-08-05T14:03:07\u{e9}").is_none());
    assert!(Model::from_readings(None, None, "２０１８-08-05T14:03:07+02:00").is_none());
}
