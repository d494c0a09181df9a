use fivetris::config::key_names::KeyName;

#[test]
fn looks_up_serialized_and_alias_names() {
    assert_eq!(KeyName::lookup("escape"), Some(KeyName::Escape));
    assert_eq!(KeyName::lookup("Esc"), Some(KeyName::Escape));
    assert_eq!(KeyName::lookup("left"), Some(KeyName::Left));
    assert_eq!(KeyName::lookup("arrow_left"), Some(KeyName::Left));
    assert_eq!(KeyName::lookup("ArrowDown"), Some(KeyName::Down));
    assert_eq!(KeyName::lookup("space"), Some(KeyName::Space));
    assert_eq!(KeyName::lookup("unknown"), None);
}

#[test]
fn every_key_is_found_by_its_saved_and_shown_names() {
    for key in KeyName::all() {
        assert_eq!(KeyName::lookup(key.serialized_name()), Some(key));
        assert_eq!(KeyName::lookup(key.display_name()), Some(key));
    }
}

#[test]
fn lookup_ignores_surrounding_space_and_case() {
    assert_eq!(KeyName::lookup("  F6 "), Some(KeyName::F6));
    assert_eq!(KeyName::lookup("SLASH"), Some(KeyName::Slash));
    assert_eq!(KeyName::lookup(","), Some(KeyName::Comma));
}
