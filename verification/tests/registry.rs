use rlib::registry::{LibEntry, Registry};

fn entry(flags: &str) -> LibEntry {
    LibEntry {
        flags: flags.to_string(),
        name: "n".to_string(),
        version: "1.0.0".to_string(),
        features: vec!["f".to_string()],
    }
}

#[test]
fn a_new_registry_is_empty() {
    let r = Registry::new();
    assert!(r.is_empty());
    assert!(r.get("a").is_none());
    assert!(r.keys().is_empty());
}

#[test]
fn what_was_put_in_is_found() {
    let r = Registry::new().insert("b".to_string(), entry("1")).insert("a".to_string(), entry("2"));
    assert!(!r.is_empty());
    assert_eq!(r.get("a").unwrap().flags, "2");
    assert_eq!(r.get("b").unwrap().flags, "1");
    assert!(r.get("c").is_none());
    assert_eq!(r.keys(), vec!["a", "b"]);
}

#[test]
fn an_entry_takes_the_place_of_one_with_its_key() {
    let r = Registry::new().insert("a".to_string(), entry("1")).insert("a".to_string(), entry("2"));
    assert_eq!(r.keys(), vec!["a"]);
    assert_eq!(r.get("a").unwrap().flags, "2");
}

#[test]
fn what_was_taken_out_is_gone() {
    let r = Registry::new()
        .insert("a".to_string(), entry("1"))
        .insert("b".to_string(), entry("2"))
        .insert("c".to_string(), entry("3"));
    let (r, was) = r.remove("a");
    assert!(was);
    assert!(r.get("a").is_none());
    assert_eq!(r.keys(), vec!["b", "c"]);
    let (r, was) = r.remove("a");
    assert!(!was);
    assert_eq!(r.get("c").unwrap().flags, "3");
}

#[test]
fn copies_hold_the_same() {
    let r = Registry::new().insert("a".to_string(), entry("1"));
    let s = r.copy();
    assert_eq!(s.keys(), r.keys());
    let e = s.get("a").unwrap().copy();
    assert_eq!((e.flags.as_str(), e.name.as_str(), e.version.as_str()), ("1", "n", "1.0.0"));
    assert_eq!(e.features, vec!["f"]);
    let v = s.into_entries();
    assert_eq!(v.len(), 1);
    assert_eq!(v[0].0, "a");
}
