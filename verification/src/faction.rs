//! Which side a character fights on, and the single rule that says who is an enemy.
use vstd::prelude::*;

verus! {

/// The side a character belongs to.
#[derive(PartialEq, Eq, Structural, Copy, Clone, Debug)]
pub enum Faction {
    Player,
    Hostile,
}

/// Two factions are hostile exactly when they differ.
pub open spec fn hostile(a: Faction, b: Faction) -> bool {
    a != b
}

impl Faction {
    /// The one place the hostility rule lives: every targeting decision asks this.
    pub fn is_hostile(self, other: Faction) -> (r: bool)
        ensures
            r == hostile(self, other),
    {
        self != other
    }
}

/// Hostility is symmetric: if `a` is hostile to `b`, then `b` is hostile to `a`.
pub proof fn hostility_is_symmetric(a: Faction, b: Faction)
    ensures
        hostile(a, b) == hostile(b, a),
{
}

/// No faction is hostile to itself.
pub proof fn no_faction_is_hostile_to_itself(a: Faction)
    ensures
        !hostile(a, a),
{
}

} // verus!
