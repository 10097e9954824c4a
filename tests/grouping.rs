use gates::grouping::{compare_text, ordered_by_group, Comparison};
use gates::types::{Gate, GateKey, GateState, UtcDateTime};

fn gate(group: &str, service: &str, environment: &str, display_order: Option<u32>) -> Gate {
    Gate {
        key: GateKey::new(group, service, environment),
        state: GateState::Open,
        comments: Vec::new(),
        last_updated: UtcDateTime::epoch(),
        display_order,
    }
}

#[test]
fn should_list_gates_of_same_group() {
    let groups = ordered_by_group(vec![
        gate("some group", "2 some other service", "some environment", None),
        gate("some group", "1 some service", "some other environment", None),
        gate("some group", "1 some service", "some environment", None),
    ]);
    assert_eq!(groups.len(), 1);
    assert_eq!(groups[0].name, "some group");
    let services: Vec<&str> = groups[0].services.iter().map(|s| s.name.as_str()).collect();
    assert_eq!(services, vec!["1 some service", "2 some other service"]);
    let environments: Vec<&str> = groups[0].services[0].environments.iter().map(|e| e.name.as_str()).collect();
    assert_eq!(environments, vec!["some other environment", "some environment"]);
}

#[test]
fn should_list_gates_of_different_groups() {
    let groups = ordered_by_group(vec![
        gate("some other group", "some other service", "some other environment", None),
        gate("some group", "some service", "some environment", None),
    ]);
    let names: Vec<&str> = groups.iter().map(|g| g.name.as_str()).collect();
    assert_eq!(names, vec!["some group", "some other group"]);
    assert_eq!(groups[1].services[0].environments[0].gate, gate("some other group", "some other service", "some other environment", None));
}

#[test]
fn environments_follow_display_order_with_unordered_first() {
    let groups = ordered_by_group(vec![
        gate("g", "s", "c", Some(3)),
        gate("g", "s", "a", Some(1)),
        gate("g", "s", "x", None),
        gate("g", "s", "b", Some(1)),
    ]);
    let environments: Vec<&str> = groups[0].services[0].environments.iter().map(|e| e.name.as_str()).collect();
    assert_eq!(environments, vec!["x", "a", "b", "c"]);
    assert!(ordered_by_group(Vec::new()).is_empty());
}

#[test]
fn text_comparison() {
    assert!(matches!(compare_text("abc", "abd"), Comparison::Less));
    assert!(matches!(compare_text("ab", "abc"), Comparison::Less));
    assert!(matches!(compare_text("b", "abc"), Comparison::Greater));
    assert!(matches!(compare_text("same", "same"), Comparison::Equal));
    assert!(matches!(compare_text("Z", "a"), Comparison::Less));
}
