use plz::config::VariableConfig;
use plz::config::VariableConfigMap;

#[test]
fn insert_keeps_order_and_replaces_in_place() {
    let mut map = VariableConfigMap::new();
    map.insert(
        "a".to_string(),
        VariableConfig::ShorthandLiteral("one".to_string()),
    );
    map.insert(
        "b".to_string(),
        VariableConfig::ShorthandLiteral("two".to_string()),
    );
    assert_eq!(map.len(), 2);

    // Rebinding an existing key keeps its position and the map's size.
    map.insert(
        "a".to_string(),
        VariableConfig::ShorthandLiteral("three".to_string()),
    );
    assert_eq!(map.len(), 2);
    let a = map.get(&"a".to_string()).unwrap();
    assert!(matches!(a, VariableConfig::ShorthandLiteral(value) if value == "three"));
    assert_eq!(map.entries[0].0, "a");
    assert_eq!(map.entries[1].0, "b");
}

#[test]
fn lookup_distinguishes_bound_from_absent() {
    let mut map = VariableConfigMap::new();
    assert_eq!(map.len(), 0);
    assert!(!map.contains_key("a"));
    assert!(map.get(&"a".to_string()).is_none());

    map.insert(
        "a".to_string(),
        VariableConfig::ShorthandLiteral("one".to_string()),
    );
    assert!(map.contains_key("a"));
    assert!(!map.contains_key("b"));
}

#[test]
fn extend_overlays_the_other_map() {
    let mut parent = VariableConfigMap::new();
    parent.insert(
        "kept".to_string(),
        VariableConfig::ShorthandLiteral("parent".to_string()),
    );
    parent.insert(
        "shadowed".to_string(),
        VariableConfig::ShorthandLiteral("parent".to_string()),
    );

    let mut child = VariableConfigMap::new();
    child.insert(
        "shadowed".to_string(),
        VariableConfig::ShorthandLiteral("child".to_string()),
    );
    child.insert(
        "added".to_string(),
        VariableConfig::ShorthandLiteral("child".to_string()),
    );

    let mut merged = parent.clone();
    merged.extend(child);

    assert_eq!(merged.len(), 3);
    let kept = merged.get(&"kept".to_string()).unwrap();
    assert!(matches!(kept, VariableConfig::ShorthandLiteral(value) if value == "parent"));
    let shadowed = merged.get(&"shadowed".to_string()).unwrap();
    assert!(matches!(shadowed, VariableConfig::ShorthandLiteral(value) if value == "child"));
    let added = merged.get(&"added".to_string()).unwrap();
    assert!(matches!(added, VariableConfig::ShorthandLiteral(value) if value == "child"));
}
