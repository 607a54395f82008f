use intelligence::language::Space;
use intelligence::names::NameMap;

#[test]
fn insert_then_get_gives_the_value_back() {
    let mut m: NameMap<Space> = NameMap::new();
    assert_eq!(m.len(), 0);
    assert!(!m.contains_key("a"));
    assert_eq!(m.get("a"), None);
    m.insert("a".to_string(), Space::Unit);
    m.insert("b".to_string(), Space::Logic { bits: 3 });
    assert!(m.contains_key("a"));
    assert_eq!(m.get("a"), Some(&Space::Unit));
    assert_eq!(m.get("b"), Some(&Space::Logic { bits: 3 }));
    assert_eq!(m.len(), 2);
}

#[test]
fn insert_replaces_in_place() {
    let mut m: NameMap<Space> = NameMap::new();
    m.insert("a".to_string(), Space::Unit);
    m.insert("b".to_string(), Space::Unit);
    m.insert("a".to_string(), Space::Quantum { qubits: 1 });
    assert_eq!(m.len(), 2);
    assert_eq!(m.get("a"), Some(&Space::Quantum { qubits: 1 }));
    assert_eq!(m.value_at(0), &Space::Quantum { qubits: 1 });
    assert_eq!(m.value_at(1), &Space::Unit);
}

#[test]
fn names_are_compared_by_their_characters() {
    let mut m: NameMap<Space> = NameMap::new();
    m.insert("tensor".to_string(), Space::Unit);
    assert!(!m.contains_key("Tensor"));
    assert!(!m.contains_key("tenso"));
    let joined = String::from("tens") + "or";
    assert!(m.contains_key(&joined));
}

#[test]
fn clone_keeps_names_and_values() {
    let mut m: NameMap<Space> = NameMap::new();
    m.insert("x".to_string(), Space::Scalar("f64".to_string()));
    let c = m.clone();
    assert_eq!(c.len(), 1);
    assert_eq!(c.get("x"), Some(&Space::Scalar("f64".to_string())));
}
