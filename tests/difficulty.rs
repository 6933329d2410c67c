use drg_difficulty_editor::difficulty::Difficulty;

#[test]
fn default_difficulty_has_placeholder_texts() {
    let d = Difficulty::default();
    assert_eq!(d.name, "Custom Difficulty");
    assert_eq!(d.description, "Default Difficulty");
}

#[test]
fn from_name_keeps_name_and_default_description() {
    for s in ["Hazard 1", "", "Elite Deep Dive", "ünïcødé"] {
        let d = Difficulty::from_name(s);
        assert_eq!(d.name, s);
        assert_eq!(d.description, "Default Difficulty");
    }
}

#[test]
fn with_name_overwrites_name_only() {
    let mut d = Difficulty {
        name: "Old".to_string(),
        description: "Custom text".to_string(),
    };
    d.with_name("New");
    assert_eq!(d.name, "New");
    assert_eq!(d.description, "Custom text");
}

#[test]
fn with_name_chains_on_the_same_record() {
    let mut d = Difficulty::from_name("First");
    d.with_name("Second").with_name("Third");
    assert_eq!(d.name, "Third");
    assert_eq!(d.description, "Default Difficulty");
}
