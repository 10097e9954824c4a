use gates::active_hours::UtcTime;
use gates::business_hours::{BusinessTimes, BusinessWeek, Weekday};
use gates::config::{decode_business_week, decode_optional_day, encode_business_week, is_week_wf, Config};
use gates::record::{Attribute, AttributeValue};

fn text(name: &str, value: &str) -> Attribute {
    Attribute { name: name.to_owned(), value: AttributeValue::S(value.to_owned()) }
}

fn window(start: &str, end: &str) -> Vec<Attribute> {
    vec![text("start", start), text("end", end)]
}

#[test]
fn should_save_and_get_config() {
    let config = Config::default();
    let rec = config.encode();
    assert_eq!(rec[0], text("id", "DefaultId"));
    assert_eq!(Config::decode(&rec), Ok(Config::default()));
}

#[test]
fn week_map_holds_configured_days_only() {
    let rec = encode_business_week(&BusinessWeek::default());
    let names: Vec<&str> = rec.iter().map(|a| a.name.as_str()).collect();
    assert_eq!(names, vec!["monday", "tuesday", "wednesday", "thursday", "friday"]);
    assert_eq!(rec[0].value, AttributeValue::M(window("07:00:00", "18:30:00")));
    assert_eq!(decode_business_week(&rec), Ok(BusinessWeek::default()));
}

#[test]
fn a_day_that_is_not_a_map_has_no_window() {
    let rec = vec![text("monday", "closed"), Attribute { name: "friday".to_owned(), value: AttributeValue::M(window("10:00:00", "16:00:00")) }];
    assert_eq!(decode_optional_day(Weekday::Monday, &rec), Ok(None));
    let week = decode_business_week(&rec).unwrap();
    assert_eq!(week.monday, None);
    assert_eq!(
        week.friday,
        Some(BusinessTimes { start: UtcTime::_new(10, 0, 0).unwrap(), end: UtcTime::_new(16, 0, 0).unwrap() })
    );
}

#[test]
fn an_unreadable_window_fails_the_week() {
    let rec = vec![Attribute { name: "monday".to_owned(), value: AttributeValue::M(window("25:00:00", "18:00:00")) }];
    assert!(decode_business_week(&rec).is_err());
    let rec = vec![Attribute { name: "monday".to_owned(), value: AttributeValue::M(vec![text("start", "07:00:00")]) }];
    assert!(decode_business_week(&rec).is_err());
    assert!(Config::decode(&vec![text("id", "x")]).is_err());
}

#[test]
fn week_validity() {
    assert!(is_week_wf(&BusinessWeek::default()));
    let bad = BusinessWeek {
        sunday: Some(BusinessTimes { start: UtcTime { hour: 24, minute: 0, second: 0 }, end: UtcTime::_new(1, 0, 0).unwrap() }),
        ..BusinessWeek::default()
    };
    assert!(!is_week_wf(&bad));
}
