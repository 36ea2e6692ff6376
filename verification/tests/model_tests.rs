use rusty_dungeon::model::{CharacterType, Switch};

#[test]
fn switch_toggles() {
    let mut s = Switch::new(false);
    assert!(!s.on);
    s.switch();
    assert!(s.on);
    s.switch();
    assert!(!s.on);
}

#[test]
fn character_types_differ() {
    assert_ne!(CharacterType::Player, CharacterType::Monster);
}
