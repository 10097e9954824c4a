use gates::active_hours::{ActiveHoursPerWeek, UtcTime};
use gates::business_hours::{self, is_outside_of_business_times, BusinessTimes, BusinessWeek, Weekday};
use gates::types::{Gate, GateKey, GateState, UtcDateTime};

fn given_business_times() -> BusinessTimes {
    BusinessTimes {
        start: UtcTime::_new(7, 0, 0).unwrap(),
        end: UtcTime::_new(18, 30, 0).unwrap(),
    }
}

fn setup_date_time(time_str: &str) -> UtcDateTime {
    UtcDateTime::parse_from_rfc3339(&format!("1970-01-01T{time_str}+00:00")).expect("failed to parse date")
}

fn at(text: &str) -> UtcDateTime {
    UtcDateTime::parse_from_rfc3339(text).expect("failed to parse date")
}

fn monday_only() -> BusinessWeek {
    BusinessWeek {
        monday: Some(given_business_times()),
        tuesday: None,
        wednesday: None,
        thursday: None,
        friday: None,
        saturday: None,
        sunday: None,
    }
}

#[test]
fn should_be_outside_of_business_times_for_time_before_start() {
    let actual = given_business_times().is_outside_of_business_times(setup_date_time("06:00:00"));
    assert_eq!(true, actual);
}

#[test]
fn should_not_be_outside_of_business_times_for_time_equal_to_start() {
    let actual = given_business_times().is_outside_of_business_times(setup_date_time("07:00:00"));
    assert_eq!(false, actual);
}

#[test]
fn should_not_be_outside_of_business_times_for_time_between_start_and_end() {
    let actual = given_business_times().is_outside_of_business_times(setup_date_time("13:00:00"));
    assert_eq!(false, actual);
}

#[test]
fn should_not_be_outside_of_business_times_for_time_equal_to_end() {
    let actual = given_business_times().is_outside_of_business_times(setup_date_time("18:30:00"));
    assert_eq!(false, actual);
}

#[test]
fn should_be_outside_of_business_times_for_time_after_end() {
    let actual = given_business_times().is_outside_of_business_times(setup_date_time("19:00:00"));
    assert_eq!(true, actual);
}

#[test]
fn should_be_open_during_business_times() {
    for hour in ["08", "11", "18"] {
        let monday = at(&format!("2023-06-05T{hour}:00:00+00:00"));
        let switch = business_hours::default();
        assert_eq!(false, switch.is_closed(monday));
    }
}

#[test]
fn should_be_closed_outside_of_business_times() {
    for hour in ["06", "20"] {
        let monday = at(&format!("2023-06-05T{hour}:00:00+00:00"));
        let switch = business_hours::default();
        assert_eq!(true, switch.is_closed(monday));
    }
}

#[test]
fn should_be_closed_on_a_day_without_configured_business_times() {
    let sunday = at("2023-06-04T13:59:59+00:00");
    let switch = business_hours::default();
    assert!(switch.is_closed(sunday));
}

#[test]
fn should_be_open_at_start() {
    let cases = [
        ("06:59", true, "should be closed right before start business times"),
        ("07:00", false, "should be open at the start of business times"),
        ("07:01", false, "should be open a second into business times"),
    ];
    for (hour_and_minute, expected, msg) in cases {
        let monday = at(&format!("2023-06-05T{hour_and_minute}:00+00:00"));
        let switch = business_hours::default();
        assert_eq!(expected, switch.is_closed(monday), "{msg}");
    }
}

#[test]
fn should_be_closed_at_end() {
    let cases = [
        ("18:29", false, "should be open right before end of business times"),
        ("18:30", false, "should be open at the end of business times"),
        ("18:31", true, "should be closed a second after business times"),
    ];
    for (hour_and_minute, expected, msg) in cases {
        let monday = at(&format!("2023-06-05T{hour_and_minute}:00+00:00"));
        let switch = business_hours::default();
        assert_eq!(expected, switch.is_closed(monday), "{msg}");
    }
}

#[test]
fn should_return_closed_gate() {
    let sunday = at("2023-06-04T13:59:59+00:00");
    let switch = business_hours::default();
    assert!(switch.is_closed(sunday));
    let actual = switch.close_if_time(
        sunday,
        Gate {
            key: GateKey::new("unused", "unused", "unused"),
            state: GateState::Open,
            comments: Vec::new(),
            last_updated: UtcDateTime::epoch(),
            display_order: None,
        },
    );
    assert_eq!(actual.state, GateState::Closed);
}

#[test]
fn monday_window_is_inclusive_at_both_ends() {
    let week = monday_only();
    assert!(is_outside_of_business_times(&week, at("2023-06-05T06:59:00+00:00")));
    assert!(!is_outside_of_business_times(&week, at("2023-06-05T07:00:00+00:00")));
    assert!(!is_outside_of_business_times(&week, at("2023-06-05T18:30:00+00:00")));
    assert!(is_outside_of_business_times(&week, at("2023-06-05T18:31:00+00:00")));
}

#[test]
fn a_fraction_of_a_second_after_the_end_is_closed() {
    let week = monday_only();
    assert!(is_outside_of_business_times(&week, at("2023-06-05T18:30:00.5+00:00")));
    assert!(is_outside_of_business_times(&week, at("2023-06-05T06:59:59.999+00:00")));
}

#[test]
fn a_day_without_window_is_closed_all_day() {
    let week = monday_only();
    for time in ["00:00:00", "07:00:00", "12:00:00", "18:30:00", "23:59:59.999999999"] {
        let tuesday = at(&format!("2023-06-06T{time}+00:00"));
        assert!(is_outside_of_business_times(&week, tuesday), "{time}");
    }
}

#[test]
fn offsets_are_read_in_utc() {
    let week = monday_only();
    // 08:00 at +02:00 is 06:00 UTC on Monday.
    assert!(is_outside_of_business_times(&week, at("2023-06-05T08:00:00+02:00")));
    // 01:00 on Tuesday at +02:00 is 23:00 UTC on Monday.
    assert!(is_outside_of_business_times(&week, at("2023-06-06T01:00:00+02:00")));
    assert!(!is_outside_of_business_times(&week, at("2023-06-05T20:00:00+02:00")));
}

#[test]
fn weekdays_before_the_epoch() {
    assert_eq!(at("1969-12-31T23:00:00+00:00").weekday(), Weekday::Wednesday);
    assert_eq!(at("1970-01-01T00:00:00+00:00").weekday(), Weekday::Thursday);
    assert_eq!(at("2023-06-05T12:00:00+00:00").weekday(), Weekday::Monday);
    assert_eq!(at("0001-01-01T00:00:00+00:00").weekday(), Weekday::Monday);
    assert_eq!(at("9999-12-31T23:59:59+00:00").weekday(), Weekday::Friday);
    assert_eq!(at("1969-12-31T23:00:00+00:00").nanos_from_midnight(), 23 * 3600 * 1_000_000_000);
}

#[test]
fn default_week_windows() {
    let week = BusinessWeek::default();
    assert_eq!(week.friday, Some(BusinessTimes { start: UtcTime::_new(10, 0, 0).unwrap(), end: UtcTime::_new(16, 0, 0).unwrap() }));
    assert_eq!(week.saturday, None);
    assert_eq!(*week.business_times_by_weekday(Weekday::Monday), Some(given_business_times()));
}

#[test]
fn weekday_names() {
    assert_eq!(Weekday::Monday.as_str(), "monday");
    assert_eq!(Weekday::Sunday.as_str(), "sunday");
}

#[test]
fn utc_time_text_and_validation() {
    assert_eq!(UtcTime::_new(7, 5, 9).unwrap()._to_string(), "07:05:09Z");
    assert_eq!(UtcTime::_new(23, 59, 59).unwrap().to_hms_string(), "23:59:59");
    assert!(UtcTime::_new(24, 0, 0).is_err());
    assert!(UtcTime::_new(0, 60, 0).is_err());
    assert!(UtcTime::_new(0, 0, 60).is_err());
    assert_eq!(ActiveHoursPerWeek::new().monday, None);
}
