use gates::demo::{random_quote, FakeQuotesProvider, QuotesProvider, RandomQuotesProvider, ReadOnlyStorage};
use gates::memory::InMemoryStorage;
use gates::storage::{DeleteError, InsertError, Storage};
use gates::types::{Comment, Gate, GateKey, GateState, UtcDateTime};

fn now() -> UtcDateTime {
    UtcDateTime::parse_from_rfc3339("2024-02-03T04:05:06.789+00:00").unwrap()
}

fn empty_key() -> GateKey {
    GateKey::new("", "", "")
}

fn input_key() -> GateKey {
    GateKey::new("input", "input", "input")
}

fn plain_gate(key: GateKey) -> Gate {
    Gate {
        key,
        state: GateState::default(),
        comments: Vec::new(),
        last_updated: UtcDateTime::epoch(),
        display_order: None,
    }
}

fn proxy_with(gate: Gate) -> InMemoryStorage {
    let mut storage = InMemoryStorage::new();
    storage.insert(&gate).unwrap();
    storage
}

#[test]
fn should_not_insert() {
    let mut storage = ReadOnlyStorage::new(InMemoryStorage::new());
    let actual = storage.insert(&plain_gate(empty_key()));
    assert!(actual.is_err());
    assert!(matches!(actual, Err(InsertError::NotPermitted(_))));
    assert_eq!(storage.find_all().unwrap(), Vec::new());
}

#[test]
fn should_not_delete() {
    let mut storage = ReadOnlyStorage::new(proxy_with(plain_gate(empty_key())));
    let actual = storage.delete(empty_key());
    assert!(actual.is_err());
    assert!(matches!(actual, Err(DeleteError::NotPermitted(_))));
    assert_eq!(storage.find_all().unwrap(), vec![plain_gate(empty_key())]);
}

#[test]
fn should_sanitize_last_updated_comment() {
    let now = now();
    let mut storage = ReadOnlyStorage::new(proxy_with(plain_gate(empty_key())));
    let actual = storage.update_comment_and_last_updated(
        empty_key(),
        Comment { id: "some_id".to_owned(), message: "some dirty comment message".to_owned(), created: now },
        now,
    );
    assert!(actual.is_ok());
    assert_eq!(
        actual.expect(""),
        Gate {
            key: empty_key(),
            state: GateState::default(),
            comments: vec![Comment { id: "some_id".to_owned(), message: "random quote".to_owned(), created: now }],
            last_updated: now,
            display_order: None,
        }
    );
}

#[test]
fn sanitizing_keeps_id_and_creation_time() {
    let created = UtcDateTime::parse_from_rfc3339("2020-01-01T00:00:00Z").unwrap();
    let mut storage = ReadOnlyStorage::new(proxy_with(plain_gate(empty_key())));
    let g = storage
        .update_comment_and_last_updated(
            empty_key(),
            Comment { id: "x".to_owned(), message: "<script>".to_owned(), created },
            now(),
        )
        .unwrap();
    assert_eq!(g.comments, vec![Comment { id: "x".to_owned(), message: random_quote(), created }]);
    assert_eq!(g.last_updated, now());
}

#[test]
fn should_read_one_gate_from_proxy() {
    let storage = ReadOnlyStorage::new(proxy_with(plain_gate(input_key())));
    let actual = storage.find_one(input_key());
    assert!(actual.is_ok());
    assert_eq!(actual.unwrap(), Some(plain_gate(input_key())));
    assert_eq!(storage.find_one(empty_key()).unwrap(), storage.proxy.find_one(empty_key()).unwrap());
}

#[test]
fn should_read_all_gates_from_proxy() {
    let output = GateKey::new("output", "output", "output");
    let storage = ReadOnlyStorage::new(proxy_with(plain_gate(output.clone())));
    let actual = storage.find_all();
    assert!(actual.is_ok());
    assert_eq!(actual.unwrap(), Vec::from([plain_gate(output)]));
}

#[test]
fn should_update_state_and_last_updated_on_proxy() {
    let now = now();
    let mut storage = ReadOnlyStorage::new(proxy_with(plain_gate(input_key())));
    let actual = storage.update_state_and_last_updated(input_key(), GateState::Closed, now);
    assert!(actual.is_ok());
    assert_eq!(actual.unwrap(), Gate { last_updated: now, ..plain_gate(input_key()) });
}

#[test]
fn should_update_display_order_and_last_updated_on_proxy() {
    let now = now();
    let mut storage = ReadOnlyStorage::new(proxy_with(plain_gate(input_key())));
    let actual = storage.update_display_order_and_last_updated(input_key(), 0, now);
    assert!(actual.is_ok());
    assert_eq!(actual.unwrap(), Gate { last_updated: now, display_order: Some(0), ..plain_gate(input_key()) });
}

#[test]
fn should_delete_comment_by_id_and_update_last_updated_on_proxy() {
    let now = now();
    let mut gate = plain_gate(input_key());
    gate.comments.push(Comment { id: 0.to_string(), message: "m".to_owned(), created: now });
    let mut storage = ReadOnlyStorage::new(proxy_with(gate));
    let actual = storage.delete_comment_by_id_and_update_last_updated(input_key(), 0.to_string(), now);
    assert!(actual.is_ok());
    assert_eq!(actual.unwrap(), Gate { last_updated: now, ..plain_gate(input_key()) });
}

#[test]
fn quote_providers() {
    let provider = RandomQuotesProvider::new_boxed(vec!["a".to_owned(), "b".to_owned(), "c".to_owned()]);
    assert_eq!(provider.quote_at(4), Ok("b".to_owned()));
    assert!(["a", "b", "c"].contains(&provider.random_quote().unwrap().as_str()));
    assert!(RandomQuotesProvider::new_boxed(Vec::new()).quote_at(1).is_err());
    assert_eq!(FakeQuotesProvider::new().random_quote(), Ok("random quote".to_owned()));
}
