use rpg_raid_shop::display_name::{DisplayName, NameError, PlayerId, DISPLAY_NAME_MAX_LEN};

#[test]
fn display_name_keeps_valid_characters() {
    let name = DisplayName::new("Alice_99-x").unwrap();
    assert_eq!(name.as_str(), "Alice_99-x");
}

#[test]
fn display_name_trims_surrounding_whitespace() {
    let name = DisplayName::new("  \tBob \n").unwrap();
    assert_eq!(name.as_str(), "Bob");
}

#[test]
fn display_name_drops_invalid_characters() {
    let name = DisplayName::new("a b!c@d#e").unwrap();
    assert_eq!(name.as_str(), "abcde");
}

#[test]
fn display_name_drops_non_ascii_letters() {
    let name = DisplayName::new("Zoë Ωmega7").unwrap();
    assert_eq!(name.as_str(), "Zomega7");
}

#[test]
fn display_name_caps_length() {
    let raw = "abcdefghijklmnopqrstuvwxyz0123456789";
    let name = DisplayName::new(raw).unwrap();
    assert_eq!(name.as_str().len(), DISPLAY_NAME_MAX_LEN);
    assert_eq!(name.as_str(), "abcdefghijklmnopqrstuvwx");
}

#[test]
fn display_name_cap_counts_only_kept_characters() {
    let raw = "!!!!abcdefghij klmnopqrstuvwxyz";
    let name = DisplayName::new(raw).unwrap();
    assert_eq!(name.as_str(), "abcdefghijklmnopqrstuvwx");
}

#[test]
fn display_name_empty_input_is_empty_error() {
    assert_eq!(DisplayName::new(""), Err(NameError::Empty));
    assert_eq!(DisplayName::new("   \t\r\n"), Err(NameError::Empty));
}

#[test]
fn display_name_unicode_whitespace_is_empty_error() {
    assert_eq!(DisplayName::new("\u{3000}\u{a0}\u{2003}"), Err(NameError::Empty));
}

#[test]
fn display_name_without_valid_characters_is_rejected() {
    assert_eq!(DisplayName::new(" !?* "), Err(NameError::NoValidCharacters));
    assert_eq!(DisplayName::new("ÄÖÜ"), Err(NameError::NoValidCharacters));
}

#[test]
fn display_name_renormalizing_is_identity() {
    let name = DisplayName::new(" x-Y_z 12 ").unwrap();
    let again = DisplayName::new(name.as_str()).unwrap();
    assert_eq!(again, name);
}

#[test]
fn display_name_into_inner_and_clone() {
    let name = DisplayName::new("Carol").unwrap();
    let copy = name.clone();
    assert_eq!(copy.into_inner(), String::from("Carol"));
    assert_eq!(name.into_inner(), "Carol".to_string());
}

#[test]
fn name_error_messages() {
    assert_eq!(NameError::Empty.message(), "name cannot be empty");
    assert_eq!(
        NameError::NoValidCharacters.message(),
        "name must contain letters or numbers"
    );
}

#[test]
fn player_id_default_is_zero() {
    assert_eq!(PlayerId::default(), PlayerId(0));
}

/// The whitespace set that the library's contracts name, written out again.
fn listed_white_space(c: char) -> bool {
    c == ' '
        || ('\u{9}'..='\u{d}').contains(&c)
        || c == '\u{85}'
        || c == '\u{a0}'
        || c == '\u{1680}'
        || ('\u{2000}'..='\u{200a}').contains(&c)
        || c == '\u{2028}'
        || c == '\u{2029}'
        || c == '\u{202f}'
        || c == '\u{205f}'
        || c == '\u{3000}'
}

#[test]
fn white_space_list_matches_std() {
    for c in (0u32..=0x10FFFF).filter_map(char::from_u32) {
        assert_eq!(listed_white_space(c), c.is_whitespace(), "char {:?}", c);
    }
}

#[test]
fn single_characters_are_empty_exactly_when_whitespace() {
    for c in (0u32..0x3100).filter_map(char::from_u32) {
        let result = DisplayName::new(&c.to_string());
        assert_eq!(result == Err(NameError::Empty), c.is_whitespace(), "char {:?}", c);
    }
}
