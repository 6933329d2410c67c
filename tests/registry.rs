use drg_difficulty_editor::difficulty::Difficulty;
use drg_difficulty_editor::editor::DifficultyEditorApp;
use drg_difficulty_editor::registry::DifficultyRegistry;

fn keys_and_names(reg: &DifficultyRegistry) -> Vec<(String, String)> {
    reg.entries()
        .into_iter()
        .map(|(k, d)| (k, d.name))
        .collect()
}

#[test]
fn base_difficulties_are_five_hazards_in_order() {
    let reg = DifficultyEditorApp::load_base_difficulties();
    assert_eq!(reg.len(), 5);
    let expected: Vec<(String, String)> = (1..=5)
        .map(|n| (format!("Hazard {n}"), format!("Hazard {n}")))
        .collect();
    assert_eq!(keys_and_names(&reg), expected);
    for (_, d) in reg.entries() {
        assert_eq!(d.description, "Default Difficulty");
    }
}

#[test]
fn lookup_of_missing_key_is_absent() {
    let reg = DifficultyEditorApp::load_base_difficulties();
    assert!(reg.get("Haz9").is_none());
    assert!(reg.get("Haz5").is_none());
    assert!(reg.get("").is_none());
    assert!(reg.get("hazard 1").is_none());
    assert!(DifficultyRegistry::new().get("Hazard 1").is_none());
}

#[test]
fn lookup_of_present_key_finds_its_entry() {
    let reg = DifficultyEditorApp::load_base_difficulties();
    assert_eq!(reg.get("Hazard 3").map(|d| d.name.clone()), Some("Hazard 3".to_string()));
    assert_eq!(reg.get("Hazard 5").map(|d| d.name.clone()), Some("Hazard 5".to_string()));
}

#[test]
fn repeated_iteration_gives_the_same_sequence() {
    let reg = DifficultyEditorApp::load_base_difficulties();
    let first = keys_and_names(&reg);
    let second = keys_and_names(&reg);
    let third = keys_and_names(&reg);
    assert_eq!(first, second);
    assert_eq!(second, third);
}

#[test]
fn new_registry_is_empty() {
    let reg = DifficultyRegistry::new();
    assert_eq!(reg.len(), 0);
    assert!(reg.entries().is_empty());
}

#[test]
fn insert_of_new_key_appends_it() {
    let mut reg = DifficultyRegistry::new();
    assert!(reg.insert("b".to_string(), Difficulty::from_name("B")).is_none());
    assert!(reg.insert("a".to_string(), Difficulty::from_name("A")).is_none());
    assert_eq!(reg.len(), 2);
    assert_eq!(
        keys_and_names(&reg),
        vec![("b".to_string(), "B".to_string()), ("a".to_string(), "A".to_string())]
    );
}

#[test]
fn insert_of_present_key_replaces_value_and_moves_it_last() {
    let mut reg = DifficultyRegistry::new();
    reg.insert("a".to_string(), Difficulty::from_name("A1"));
    reg.insert("b".to_string(), Difficulty::from_name("B"));
    let old = reg.insert("a".to_string(), Difficulty::from_name("A2"));
    assert_eq!(old.map(|d| d.name), Some("A1".to_string()));
    assert_eq!(reg.len(), 2);
    assert_eq!(
        keys_and_names(&reg),
        vec![("b".to_string(), "B".to_string()), ("a".to_string(), "A2".to_string())]
    );
    assert_eq!(reg.get("a").map(|d| d.name.clone()), Some("A2".to_string()));
}
