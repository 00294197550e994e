use rpg_raid_shop::guests::{
    default_guest_name, identity_fits_guest_name, plan_registration, sanitize_guest_name,
    RegistrationPlan,
};

#[test]
fn sanitize_accepts_and_normalizes() {
    assert_eq!(sanitize_guest_name(" Dark Knight! ".to_string()), Ok("DarkKnight".to_string()));
}

#[test]
fn sanitize_rejects_empty() {
    assert_eq!(
        sanitize_guest_name("   ".to_string()),
        Err("guest name cannot be empty".to_string())
    );
}

#[test]
fn sanitize_rejects_without_letters() {
    assert_eq!(
        sanitize_guest_name("!!!".to_string()),
        Err("guest name must contain letters or numbers".to_string())
    );
}

#[test]
fn default_guest_name_uses_identity_prefix() {
    let hex = "c2004fa2f1e0b2a9d3e4f5a6b7c8d9e0";
    assert!(identity_fits_guest_name(hex));
    assert_eq!(default_guest_name(hex).as_str(), "Guest_c2004fa2");
    assert_eq!(default_guest_name("ab").as_str(), "Guest_ab");
}

#[test]
fn identity_with_odd_characters_does_not_fit() {
    assert!(!identity_fits_guest_name("ab cd"));
    assert!(identity_fits_guest_name("abcdefgh ij"));
}

#[test]
fn registration_plans() {
    assert_eq!(plan_registration(false, Some(3)), RegistrationPlan::Skip);
    assert_eq!(plan_registration(true, Some(3)), RegistrationPlan::Refresh { id: 3 });
    assert_eq!(plan_registration(true, None), RegistrationPlan::Insert);
}

#[test]
fn sanitize_keeps_unicode_letters_and_digits() {
    assert_eq!(sanitize_guest_name("é".to_string()), Ok("é".to_string()));
    assert_eq!(
        sanitize_guest_name("  Zoë Ωmega-٣ ".to_string()),
        Ok("ZoëΩmega-٣".to_string())
    );
}

#[test]
fn sanitize_caps_at_twenty_four_characters() {
    let long: String = "ä".repeat(30);
    assert_eq!(sanitize_guest_name(long), Ok("ä".repeat(24)));
}

#[test]
fn sanitize_unicode_whitespace_only_is_empty() {
    assert_eq!(
        sanitize_guest_name("\u{3000}\u{a0}".to_string()),
        Err("guest name cannot be empty".to_string())
    );
}

#[test]
fn ascii_alphanumerics_are_letters_and_digits() {
    for b in 0u8..128 {
        let c = b as char;
        let kept = sanitize_guest_name(format!("{c}")).is_ok();
        assert_eq!(kept, c.is_ascii_alphanumeric() || c == '_' || c == '-', "char {:?}", c);
    }
}
