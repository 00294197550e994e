use rpg_raid_shop::faction::Faction;

#[test]
fn factions_differing_are_hostile() {
    assert!(Faction::Player.is_hostile(Faction::Hostile));
    assert!(Faction::Hostile.is_hostile(Faction::Player));
}

#[test]
fn faction_is_not_hostile_to_itself() {
    assert!(!Faction::Player.is_hostile(Faction::Player));
    assert!(!Faction::Hostile.is_hostile(Faction::Hostile));
}
