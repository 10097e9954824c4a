use gates::memory::InMemoryStorage;
use gates::storage::{DeleteError, InsertError, Storage, UpdateError};
use gates::types::{Comment, Gate, GateKey, GateState, UtcDateTime};

fn date(text: &str) -> UtcDateTime {
    UtcDateTime::parse_from_rfc3339(text).expect("failed creating date")
}

fn some_gate(group: &str, service: &str, environment: &str) -> Gate {
    Gate {
        key: GateKey::new(group, service, environment),
        state: GateState::Open,
        comments: vec![
            Comment {
                id: "Comment1".to_owned(),
                message: "Some comment message".to_owned(),
                created: date("2021-04-12T22:10:57+02:00"),
            },
            Comment {
                id: "Comment2".to_owned(),
                message: "Some other comment message".to_owned(),
                created: date("2022-04-12T22:10:57+02:00"),
            },
        ],
        last_updated: date("2023-04-12T22:10:57+02:00"),
        display_order: Some(2),
    }
}

fn storage_with(gates: &[&Gate]) -> InMemoryStorage {
    let mut storage = InMemoryStorage::new();
    for gate in gates {
        storage.insert(gate).expect("storage failed to insert gate");
    }
    storage
}

#[test]
fn should_insert_gate_and_find_one() {
    let gate = some_gate("some group", "some service", "some environment");
    let storage = storage_with(&[&gate]);
    let stored_gate = storage
        .find_one(gate.key.clone())
        .expect("storage failed to find gate")
        .expect("gate not found");
    assert_eq!(stored_gate, gate);
}

#[test]
fn should_not_insert_if_item_already_exists() {
    let gate = some_gate("some group", "some service", "some environment");
    let mut storage = storage_with(&[&gate]);
    let mut second = some_gate("some group", "some service", "some environment");
    second.state = GateState::Closed;
    let result = storage.insert(&second);
    assert_eq!(result.is_err(), true);
    assert!(matches!(result, Err(InsertError::ItemAlreadyExists(_))), "expected error not found");
    assert_eq!(storage.find_all().unwrap(), vec![gate]);
}

#[test]
fn should_not_find_one_if_gate_not_exists() {
    let storage = InMemoryStorage::new();
    let stored_gate = storage
        .find_one(GateKey::new("some group", "some service", "some environment"))
        .expect("storage failed to find gate");
    assert_eq!(stored_gate.is_none(), true);
}

#[test]
fn should_insert_and_find_all() {
    let gate1 = some_gate("some group", "some service", "some environment");
    let gate2 = some_gate("some other group", "some other service", "some other environment");
    let storage = storage_with(&[&gate1, &gate2]);
    let stored_gates = storage.find_all().expect("storage failed to find gates");
    assert_eq!(stored_gates.len(), 2);
    assert_eq!(stored_gates, vec![gate1, gate2]);
}

#[test]
fn should_insert_and_delete() {
    let gate = some_gate("some group", "some service", "some environment");
    let mut storage = storage_with(&[&gate]);
    assert_eq!(storage.find_all().expect("storage failed to find gates").len(), 1);
    storage.delete(gate.key.clone()).expect("storage failed to delete gate");
    assert_eq!(storage.find_all().expect("storage failed to find gates").len(), 0);
    assert_eq!(storage.find_one(gate.key.clone()).unwrap(), None);
}

#[test]
fn should_fail_to_delete_item_if_item_does_not_exist() {
    let gate = some_gate("some group", "some service", "some environment");
    let mut storage = storage_with(&[&gate]);
    let result = storage.delete(GateKey::new("some group", "some service", "some wrong environment"));
    assert_eq!(result.is_err(), true);
    assert!(matches!(result, Err(DeleteError::ItemToDeleteNotFound(_))));
    let stored_gates = storage.find_all().expect("storage failed to find gates");
    assert_eq!(stored_gates.len(), 1);
    assert_eq!(stored_gates, vec![gate]);
}

#[test]
fn should_update_state_and_last_modified() {
    let gate = some_gate("some group", "some service", "some environment");
    assert_eq!(gate.state, GateState::Open);
    let mut storage = storage_with(&[&gate]);
    let now = date("2025-04-12T22:10:57+02:00");
    let updated = storage
        .update_state_and_last_updated(gate.key.clone(), GateState::Closed, now)
        .expect("storage failed to update gate state");
    let expected = Gate { state: GateState::Closed, last_updated: now, ..gate };
    assert_eq!(updated, expected);
    let stored_gates = storage.find_all().expect("storage failed to find gates");
    assert_eq!(stored_gates.len(), 1);
    assert_eq!(*stored_gates.first().expect("failed to get stored gate"), expected);
}

#[test]
fn should_fail_to_update_state_and_last_modified_of_item_that_does_not_exist() {
    let gate = some_gate("some group", "some service", "some environment");
    let mut storage = storage_with(&[&gate]);
    let now = date("2025-04-12T22:10:57+02:00");
    let result = storage.update_state_and_last_updated(
        GateKey::new("some group", "some service", "some wrong environment"),
        GateState::Closed,
        now,
    );
    assert_eq!(result.is_err(), true);
    assert!(matches!(result, Err(UpdateError::ItemToUpdateNotFound(_))));
    let stored_gates = storage.find_all().expect("storage failed to find gates");
    assert_eq!(stored_gates.len(), 1);
    assert_eq!(*stored_gates.first().expect("failed to get stored gate"), gate);
}

#[test]
fn should_add_new_comment_and_update_last_modified() {
    let gate = some_gate("some group", "some service", "some environment");
    let mut storage = storage_with(&[&gate]);
    let now = date("2025-04-12T22:10:57+02:00");
    let new_comment = Comment {
        id: "NewCommentId".to_owned(),
        message: "Some new comment message".to_owned(),
        created: now,
    };
    storage
        .update_comment_and_last_updated(gate.key.clone(), new_comment.clone(), now)
        .expect("storage failed to update gate comment");
    let stored_gates = storage.find_all().expect("storage failed to find gates");
    assert_eq!(stored_gates.len(), 1);
    let mut comments = gate.comments.clone();
    comments.push(new_comment);
    assert_eq!(
        *stored_gates.first().expect("failed to get stored gate"),
        Gate { comments, last_updated: now, ..gate }
    );
}

#[test]
fn should_update_existing_comment_and_update_last_modified() {
    let gate = some_gate("some group", "some service", "some environment");
    let mut storage = storage_with(&[&gate]);
    let now = date("2025-04-12T22:10:57+02:00");
    let changed_comment = Comment {
        id: "Comment1".to_owned(),
        message: "Some changed comment message".to_owned(),
        created: now,
    };
    storage
        .update_comment_and_last_updated(gate.key.clone(), changed_comment.clone(), now)
        .expect("storage failed to update gate comment");
    let stored_gates = storage.find_all().expect("storage failed to find gates");
    assert_eq!(stored_gates.len(), 1);
    assert_eq!(
        *stored_gates.first().expect("failed to get stored gate"),
        Gate {
            key: gate.key,
            state: gate.state,
            comments: vec![
                changed_comment,
                Comment {
                    id: "Comment2".to_owned(),
                    message: "Some other comment message".to_owned(),
                    created: date("2022-04-12T22:10:57+02:00"),
                },
            ],
            last_updated: now,
            display_order: gate.display_order,
        }
    );
}

#[test]
fn should_fail_updating_comment_and_update_last_modified_if_item_does_not_exist() {
    let mut storage = InMemoryStorage::new();
    let now = date("2025-04-12T22:10:57+02:00");
    let result = storage.update_comment_and_last_updated(
        GateKey::new("some group", "some service", "some environment"),
        Comment { id: "Comment1".to_owned(), message: "Some changed comment message".to_owned(), created: now },
        now,
    );
    assert_eq!(result.is_err(), true);
    assert_eq!(storage.find_all().expect("storage failed to find gates").len(), 0);
}

#[test]
fn should_delete_comment_by_id_and_update_last_modified() {
    let gate = some_gate("some group", "some service", "some environment");
    let mut storage = storage_with(&[&gate]);
    let now = date("2025-04-12T22:10:57+02:00");
    storage
        .delete_comment_by_id_and_update_last_updated(gate.key.clone(), "Comment1".to_owned(), now)
        .expect("storage failed to delete gate comment");
    let stored_gates = storage.find_all().expect("storage failed to find gates");
    assert_eq!(stored_gates.len(), 1);
    assert_eq!(
        *stored_gates.first().expect("failed to get stored gate"),
        Gate {
            comments: vec![Comment {
                id: "Comment2".to_owned(),
                message: "Some other comment message".to_owned(),
                created: date("2022-04-12T22:10:57+02:00"),
            }],
            last_updated: now,
            ..gate
        }
    );
}

#[test]
fn should_fail_to_delete_comment_by_id_and_update_last_modified_if_comment_does_not_exist() {
    let gate = some_gate("some group", "some service", "some environment");
    let mut storage = storage_with(&[&gate]);
    let now = date("2025-04-12T22:10:57+02:00");
    let result = storage.delete_comment_by_id_and_update_last_updated(
        gate.key.clone(),
        "NonExistentCommentId".to_owned(),
        now,
    );
    assert_eq!(result.is_err(), true);
    assert!(matches!(result, Err(UpdateError::ItemToUpdateNotFound(_))));
    let stored_gates = storage.find_all().expect("storage failed to find gates");
    assert_eq!(stored_gates.len(), 1);
    assert_eq!(*stored_gates.first().expect("failed to get stored gate"), gate);
}

#[test]
fn should_fail_to_delete_comment_by_id_and_update_last_modified_if_item_does_not_exist() {
    let mut storage = InMemoryStorage::new();
    let now = date("2025-04-12T22:10:57+02:00");
    let result = storage.delete_comment_by_id_and_update_last_updated(
        GateKey::new("some group", "some service", "some environment"),
        "Comment1".to_owned(),
        now,
    );
    assert_eq!(result.is_err(), true);
    assert_eq!(storage.find_all().expect("storage failed to find gates").len(), 0);
}

#[test]
fn second_insert_of_a_key_fails_and_keeps_the_first() {
    let key = GateKey::new("g", "s", "e");
    let first = Gate::new(key.clone(), date("2023-01-01T00:00:00Z"), Some(1));
    let second = Gate::new(key.clone(), date("2024-01-01T00:00:00Z"), None);
    let mut storage = InMemoryStorage::new();
    assert_eq!(storage.insert(&first), Ok(()));
    assert!(matches!(storage.insert(&second), Err(InsertError::ItemAlreadyExists(_))));
    assert_eq!(storage.find_all().unwrap(), vec![first]);
}

#[test]
fn every_write_on_an_absent_key_is_not_found() {
    let other = some_gate("g", "s", "other");
    let mut storage = storage_with(&[&other]);
    let key = GateKey::new("g", "s", "e");
    let now = date("2025-01-01T00:00:00Z");
    assert!(matches!(
        storage.update_state_and_last_updated(key.clone(), GateState::Open, now),
        Err(UpdateError::ItemToUpdateNotFound(_))
    ));
    assert!(matches!(
        storage.update_display_order_and_last_updated(key.clone(), 3, now),
        Err(UpdateError::ItemToUpdateNotFound(_))
    ));
    assert!(matches!(
        storage.update_comment_and_last_updated(
            key.clone(),
            Comment { id: "c".to_owned(), message: "m".to_owned(), created: now },
            now
        ),
        Err(UpdateError::ItemToUpdateNotFound(_))
    ));
    assert!(matches!(
        storage.delete_comment_by_id_and_update_last_updated(key.clone(), "Comment1".to_owned(), now),
        Err(UpdateError::ItemToUpdateNotFound(_))
    ));
    assert!(matches!(storage.delete(key), Err(DeleteError::ItemToDeleteNotFound(_))));
    assert_eq!(storage.find_all().unwrap(), vec![other]);
}

#[test]
fn upserting_one_id_twice_keeps_one_comment_with_the_last_message() {
    let key = GateKey::new("g", "s", "e");
    let mut storage = storage_with(&[&Gate::new(key.clone(), date("2023-01-01T00:00:00Z"), None)]);
    let t1 = date("2023-01-02T00:00:00Z");
    let t2 = date("2023-01-03T00:00:00Z");
    storage
        .update_comment_and_last_updated(key.clone(), Comment { id: "c1".to_owned(), message: "a".to_owned(), created: t1 }, t1)
        .unwrap();
    let g = storage
        .update_comment_and_last_updated(key.clone(), Comment { id: "c1".to_owned(), message: "b".to_owned(), created: t2 }, t2)
        .unwrap();
    assert_eq!(g.comments, vec![Comment { id: "c1".to_owned(), message: "b".to_owned(), created: t2 }]);
    assert_eq!(storage.find_one(key).unwrap().unwrap(), g);
}

#[test]
fn display_order_is_set_and_stamped() {
    let gate = some_gate("g", "s", "e");
    let mut storage = storage_with(&[&gate]);
    let now = date("2025-01-01T00:00:00Z");
    let g = storage.update_display_order_and_last_updated(gate.key.clone(), 0, now).unwrap();
    assert_eq!(g, Gate { display_order: Some(0), last_updated: now, ..gate });
}
