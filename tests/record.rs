use gates::datetime::{parse_decimal_u32, u32_to_decimal};
use gates::record::{
    decode_gate, decode_optional_u32, decode_string, encode_comment, encode_gate, find_field,
    get_service_environment, is_writable, Attribute, AttributeValue,
};
use gates::types::{Comment, Gate, GateKey, GateState, UtcDateTime};

fn date(text: &str) -> UtcDateTime {
    UtcDateTime::parse_from_rfc3339(text).expect("failed creating date")
}

fn some_gate(display_order: Option<u32>) -> Gate {
    Gate {
        key: GateKey::new("some group", "some service", "some environment"),
        state: GateState::Open,
        comments: vec![
            Comment {
                id: "Comment1".to_owned(),
                message: "Some comment message".to_owned(),
                created: date("2021-04-12T22:10:57+02:00"),
            },
            Comment {
                id: "Comment2".to_owned(),
                message: "Some other comment message".to_owned(),
                created: date("2022-04-12T22:10:57.25+02:00"),
            },
        ],
        last_updated: date("2023-04-12T22:10:57+02:00"),
        display_order,
    }
}

fn text(name: &str, value: &str) -> Attribute {
    Attribute { name: name.to_owned(), value: AttributeValue::S(value.to_owned()) }
}

#[test]
fn sort_key_joins_service_and_environment() {
    assert_eq!(get_service_environment("svc", "live"), "svc#live");
    assert_eq!(get_service_environment("", ""), "#");
}

#[test]
fn encodes_the_record_layout() {
    let gate = some_gate(Some(12));
    let rec = encode_gate(&gate);
    assert_eq!(rec.len(), 8);
    assert_eq!(rec[0], text("group", "some group"));
    assert_eq!(rec[1], text("service_environment", "some service#some environment"));
    assert_eq!(rec[4], text("state", "open"));
    assert_eq!(rec[5], text("last_updated", "2023-04-12T20:10:57+00:00"));
    assert_eq!(rec[7], Attribute { name: "display_order".to_owned(), value: AttributeValue::N("12".to_owned()) });
    match &rec[6].value {
        AttributeValue::M(es) => {
            assert_eq!(es.len(), 2);
            assert_eq!(es[0].name, "Comment1");
            assert_eq!(es[1].value, AttributeValue::M(encode_comment(&gate.comments[1])));
        },
        other => panic!("comments are not a map: {other:?}"),
    }
    assert_eq!(encode_gate(&some_gate(None)).len(), 7);
}

#[test]
fn comment_record_holds_rfc3339_creation_time() {
    let rec = encode_comment(&Comment { id: "1234".to_owned(), message: "m".to_owned(), created: date("2023-04-12T22:10:57.5+02:00") });
    assert_eq!(rec, vec![text("id", "1234"), text("message", "m"), text("created", "2023-04-12T20:10:57.500+00:00")]);
}

#[test]
fn decoding_an_encoded_gate_gives_it_back() {
    for order in [None, Some(0), Some(7), Some(u32::MAX)] {
        let gate = some_gate(order);
        assert!(is_writable(&gate));
        assert_eq!(decode_gate(&encode_gate(&gate)), Ok(gate));
    }
    let closed = Gate { state: GateState::Closed, comments: Vec::new(), ..some_gate(None) };
    assert_eq!(decode_gate(&encode_gate(&closed)), Ok(closed));
}

#[test]
fn a_missing_or_unreadable_field_fails_the_record() {
    let mut rec = encode_gate(&some_gate(None));
    rec.remove(0);
    assert!(decode_gate(&rec).is_err());

    let mut rec = encode_gate(&some_gate(None));
    rec[4] = text("state", "OPEN");
    assert!(decode_gate(&rec).is_err());

    let mut rec = encode_gate(&some_gate(None));
    rec[5] = text("last_updated", "yesterday");
    assert!(decode_gate(&rec).is_err());

    let mut rec = encode_gate(&some_gate(None));
    rec.push(Attribute { name: "display_order".to_owned(), value: AttributeValue::N("-1".to_owned()) });
    assert!(decode_gate(&rec).is_err());

    let mut rec = encode_gate(&some_gate(None));
    rec[6] = Attribute { name: "comments".to_owned(), value: AttributeValue::M(vec![text("c", "not a map")]) };
    assert!(decode_gate(&rec).is_err());
}

#[test]
fn field_lookup_and_scalars() {
    let rec = vec![text("a", "1"), Attribute { name: "n".to_owned(), value: AttributeValue::N("42".to_owned()) }, text("a", "2")];
    assert_eq!(find_field(&rec, "a"), Some(&AttributeValue::S("1".to_owned())));
    assert_eq!(find_field(&rec, "b"), None);
    assert_eq!(decode_string("a", &rec), Ok("1".to_owned()));
    assert!(decode_string("n", &rec).is_err());
    assert!(decode_string("b", &rec).is_err());
    assert_eq!(decode_optional_u32("n", &rec), Ok(Some(42)));
    assert_eq!(decode_optional_u32("b", &rec), Ok(None));
    assert!(decode_optional_u32("a", &rec).is_err());
}

#[test]
fn decimal_numbers() {
    assert_eq!(u32_to_decimal(0), "0");
    assert_eq!(u32_to_decimal(1907), "1907");
    assert_eq!(u32_to_decimal(u32::MAX), "4294967295");
    assert_eq!(parse_decimal_u32("4294967295"), Some(u32::MAX));
    assert_eq!(parse_decimal_u32("4294967296"), None);
    assert_eq!(parse_decimal_u32("007"), Some(7));
    assert_eq!(parse_decimal_u32(""), None);
    assert_eq!(parse_decimal_u32("1a"), None);
    assert_eq!(parse_decimal_u32("+1"), None);
}

#[test]
fn timestamps_outside_four_digit_years_are_refused() {
    assert_eq!(UtcDateTime::new(-62135596801, 0), None);
    assert!(UtcDateTime::new(253402300799, 999_999_999).is_some());
    assert_eq!(UtcDateTime::new(0, 1_000_000_000), None);
    let gate = Gate { last_updated: UtcDateTime { secs: i64::MAX, nanos: 0 }, ..some_gate(None) };
    assert!(!is_writable(&gate));
    assert_eq!(date("1970-01-01T01:00:00+01:00"), UtcDateTime::epoch());
}
