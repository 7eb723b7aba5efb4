use differential_logging::attribute::{AsAid, AttributeRegistry, SIZE_ATTRIBUTE};

fn keys(names: &[&str]) -> Vec<String> {
    names.iter().map(|name| name.to_string()).collect()
}

#[test]
fn the_size_attribute_has_its_well_known_name() {
    assert_eq!(SIZE_ATTRIBUTE, "differential.event/size");
    assert_eq!(String::from_name(SIZE_ATTRIBUTE), "differential.event/size");
}

#[test]
fn string_keys_stand_for_their_own_name() {
    let key = String::from_name("a/b");
    assert_eq!(key, "a/b");
    assert!(key.same(&"a/b".to_string()));
    assert!(!key.same(&"a/c".to_string()));
    assert!(!key.same(&String::new()));
    assert_eq!(key.duplicate(), key);
}

#[test]
fn every_requested_key_has_a_channel_of_its_own() {
    let requested = keys(&["a", "b", SIZE_ATTRIBUTE]);
    let registry = AttributeRegistry::new(&requested);
    assert_eq!(registry.len(), 3);
    assert_eq!(registry.resolve(&"a".to_string()), Some(0));
    assert_eq!(registry.resolve(&"b".to_string()), Some(1));
    assert_eq!(registry.resolve(&SIZE_ATTRIBUTE.to_string()), Some(2));
    assert_eq!(registry.key(0), Some(&"a".to_string()));
    assert_eq!(registry.key(1), Some(&"b".to_string()));
    assert_eq!(registry.key(2), Some(&SIZE_ATTRIBUTE.to_string()));
    assert_eq!(registry.key(3), None);
}

#[test]
fn a_key_that_was_not_requested_has_no_channel() {
    let registry = AttributeRegistry::new(&keys(&["a", "b"]));
    assert_eq!(registry.resolve(&"c".to_string()), None);
    assert_eq!(registry.resolve(&SIZE_ATTRIBUTE.to_string()), None);
    assert_eq!(registry.resolve(&String::new()), None);
}

#[test]
fn an_empty_request_gives_an_empty_registry() {
    let registry: AttributeRegistry<String> = AttributeRegistry::new(&Vec::new());
    assert_eq!(registry.len(), 0);
    assert_eq!(registry.resolve(&"a".to_string()), None);
    assert!(registry.channels().is_empty());
}

#[test]
fn a_repeated_key_is_registered_once() {
    let registry = AttributeRegistry::new(&keys(&["a", "b", "a", "c", "b", "a"]));
    assert_eq!(registry.len(), 3);
    assert_eq!(registry.resolve(&"a".to_string()), Some(0));
    assert_eq!(registry.resolve(&"b".to_string()), Some(1));
    assert_eq!(registry.resolve(&"c".to_string()), Some(2));
}

#[test]
fn channels_are_listed_in_the_order_of_their_handles() {
    let registry = AttributeRegistry::new(&keys(&["x", "y", "x", "z"]));
    assert_eq!(
        registry.channels(),
        vec![("x".to_string(), 0usize), ("y".to_string(), 1usize), ("z".to_string(), 2usize)]
    );
}
