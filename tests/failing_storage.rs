use gates::business_hours::BusinessWeek;
use gates::clock::{self, Clock};
use gates::id_provider::{self, IdProvider};
use gates::storage::{DeleteError, FindError, InsertError, Storage, UpdateError};
use gates::types::{Comment, Gate, GateKey, GateState, UtcDateTime};
use gates::use_cases::{add_comment, delete_comment, get_gate, list_gates, update_display_order, update_gate_state};

/// A repository whose every call fails, as a broken backend would.
struct FailingStorage {
    decode_failure: bool,
}

impl FailingStorage {
    fn find_error(&self) -> FindError {
        if self.decode_failure {
            FindError::ItemCouldNotBeDecoded("some error".to_owned())
        } else {
            FindError::Other("some error".to_owned())
        }
    }
}

impl Storage for FailingStorage {
    fn insert(&mut self, _gate: &Gate) -> Result<(), InsertError> {
        Err(InsertError::Other("could not insert".to_owned()))
    }

    fn find_one(&self, _key: GateKey) -> Result<Option<Gate>, FindError> {
        Err(self.find_error())
    }

    fn find_all(&self) -> Result<Vec<Gate>, FindError> {
        Err(self.find_error())
    }

    fn delete(&mut self, _key: GateKey) -> Result<(), DeleteError> {
        Err(DeleteError::Other("some error".to_owned()))
    }

    fn update_state_and_last_updated(&mut self, _: GateKey, _: GateState, _: UtcDateTime) -> Result<Gate, UpdateError> {
        Err(UpdateError::Other("some error".to_owned()))
    }

    fn update_display_order_and_last_updated(&mut self, _: GateKey, _: u32, _: UtcDateTime) -> Result<Gate, UpdateError> {
        Err(UpdateError::Other("some error".to_owned()))
    }

    fn update_comment_and_last_updated(&mut self, _: GateKey, _: Comment, _: UtcDateTime) -> Result<Gate, UpdateError> {
        Err(UpdateError::Other("some error".to_owned()))
    }

    fn delete_comment_by_id_and_update_last_updated(
        &mut self,
        _: GateKey,
        _: String,
        _: UtcDateTime,
    ) -> Result<Gate, UpdateError> {
        Err(UpdateError::Other("some error".to_owned()))
    }
}

fn input() -> get_gate::Input {
    get_gate::Input {
        group: "some-group".to_owned(),
        service: "some-service".to_owned(),
        environment: "some-environment".to_owned(),
    }
}

#[test]
fn should_return_error_if_storage_fails_to_decode_item() {
    let storage = FailingStorage { decode_failure: true };
    let result = get_gate::execute(input(), &storage, &BusinessWeek::default(), UtcDateTime::epoch());
    assert_eq!(result.is_err(), true);
    assert_eq!(result.expect_err("unexpected groups"), get_gate::Error::Internal("some error".to_owned()));
}

#[test]
fn should_return_error_if_storage_fails_to_decode() {
    let storage = FailingStorage { decode_failure: true };
    let result = list_gates::execute(&storage, &BusinessWeek::default(), UtcDateTime::epoch());
    assert_eq!(result.is_err(), true);
    assert_eq!(result.expect_err("unexpected groups"), list_gates::Error::Internal("some error".to_owned()));
}

#[test]
fn should_return_error_if_storage_fails() {
    let storage = FailingStorage { decode_failure: false };
    let result = list_gates::execute(&storage, &BusinessWeek::default(), UtcDateTime::epoch());
    assert_eq!(result.expect_err("unexpected groups"), list_gates::Error::Internal("some error".to_owned()));
}

#[test]
fn transport_failures_are_internal_errors() {
    let mut storage = FailingStorage { decode_failure: false };
    let monday_noon = UtcDateTime::parse_from_rfc3339("2023-06-05T12:00:00Z").unwrap();
    let result = update_gate_state::execute(
        update_gate_state::Input {
            group: "g".to_owned(),
            service: "s".to_owned(),
            environment: "e".to_owned(),
            state: GateState::Open,
        },
        &mut storage,
        &BusinessWeek::default(),
        monday_noon,
    );
    assert_eq!(result, Err(update_gate_state::Error::Internal("some error".to_owned())));
    let result = add_comment::execute(
        add_comment::Input {
            group: "g".to_owned(),
            service: "s".to_owned(),
            environment: "e".to_owned(),
            message: "some message".to_owned(),
        },
        &mut storage,
        monday_noon,
        "id".to_owned(),
    );
    assert_eq!(result, Err(add_comment::Error::Internal("some error".to_owned())));
    let result = delete_comment::execute(
        delete_comment::Input {
            group: "g".to_owned(),
            service: "s".to_owned(),
            environment: "e".to_owned(),
            comment_id: "c".to_owned(),
        },
        &mut storage,
        monday_noon,
    );
    assert_eq!(result, Err(delete_comment::Error::Internal("some error".to_owned())));
    let result = update_display_order::execute(
        update_display_order::Input {
            group: "g".to_owned(),
            service: "s".to_owned(),
            environment: "e".to_owned(),
            display_order: 1,
        },
        &mut storage,
        monday_noon,
    );
    assert_eq!(result, Err(update_display_order::Error::Internal("some error".to_owned())));
}

#[test]
fn system_clock_and_ids() {
    let now = clock::default().now();
    assert!(UtcDateTime::new(now.secs, now.nanos).is_some());
    assert!(now.secs > 1_600_000_000);
    let ids = id_provider::default();
    let (a, b) = (ids.get(), ids.get());
    assert!(!a.is_empty());
    assert_ne!(a, b);
}
