//! The client's bookkeeping of what it draws from the server's snapshot: the
//! local player's square, which squares of other players to move, spawn and
//! remove, which colour a player gets, and whom the camera follows.
use crate::display_name::PlayerId;
use vstd::prelude::*;

verus! {

// ---------------------------------------------------------------------------
// Matching the drawn squares to the snapshot
// ---------------------------------------------------------------------------
/// Where `id` last occurs in `ids`: the entry that a map built from `ids` in
/// order keeps for it.
pub open spec fn last_position(ids: Seq<PlayerId>, id: PlayerId) -> Option<int>
    decreases ids.len(),
{
    if ids.len() == 0 {
        None
    } else if ids.last() == id {
        Some(ids.len() - 1)
    } else {
        last_position(ids.drop_last(), id)
    }
}

/// Some drawn square stands for player `id`.
pub open spec fn drawn(visuals: Seq<(PlayerId, u64)>, id: PlayerId) -> bool {
    exists|k: int| 0 <= k < visuals.len() && (#[trigger] visuals[k]).0 == id
}

/// The square at `k` is the last one drawn for its player, and that player is
/// gone from the snapshot.
pub open spec fn stale_at(remote: Seq<PlayerId>, visuals: Seq<(PlayerId, u64)>, k: int) -> bool {
    &&& !remote.contains(visuals[k].0)
    &&& forall|j: int| k < j < visuals.len() ==> (#[trigger] visuals[j]).0 != visuals[k].0
}

/// For the first `n` squares, in order: each square whose player is in the
/// snapshot, paired with the snapshot entry it should move to (the last one
/// for that player).
pub open spec fn moves_upto(remote: Seq<PlayerId>, visuals: Seq<(PlayerId, u64)>, n: int) -> Seq<
    (u64, usize),
>
    decreases n,
{
    if n <= 0 {
        Seq::empty()
    } else {
        let rest = moves_upto(remote, visuals, n - 1);
        match last_position(remote, visuals[n - 1].0) {
            Some(i) => rest.push((visuals[n - 1].1, i as usize)),
            None => rest,
        }
    }
}

/// For the first `n` snapshot entries, in order: those whose player has no
/// square yet.
pub open spec fn spawns_upto(remote: Seq<PlayerId>, visuals: Seq<(PlayerId, u64)>, n: int) -> Seq<
    usize,
>
    decreases n,
{
    if n <= 0 {
        Seq::empty()
    } else {
        let rest = spawns_upto(remote, visuals, n - 1);
        if drawn(visuals, remote[n - 1]) {
            rest
        } else {
            rest.push((n - 1) as usize)
        }
    }
}

/// For the first `n` squares, in order: those to remove.
pub open spec fn despawns_upto(remote: Seq<PlayerId>, visuals: Seq<(PlayerId, u64)>, n: int) -> Seq<
    u64,
>
    decreases n,
{
    if n <= 0 {
        Seq::empty()
    } else {
        let rest = despawns_upto(remote, visuals, n - 1);
        if stale_at(remote, visuals, n - 1) {
            rest.push(visuals[n - 1].1)
        } else {
            rest
        }
    }
}

/// What to do with the squares drawn for other players.
pub struct RemoteSyncPlan {
    /// Squares to move, each with the snapshot entry whose position it takes.
    pub moves: Vec<(u64, usize)>,
    /// Snapshot entries that need a new square.
    pub spawns: Vec<usize>,
    /// Squares to remove.
    pub despawns: Vec<u64>,
}

/// Where `id` last occurs in `remote`.
fn last_index(remote: &Vec<PlayerId>, id: PlayerId) -> (r: Option<usize>)
    ensures
        match r {
            Some(i) => last_position(remote@, id) == Some(i as int),
            None => last_position(remote@, id) is None,
        },
{
    let mut i = remote.len();
    assert(remote@.take(i as int) == remote@);
    while i > 0
        invariant
            i <= remote@.len(),
            last_position(remote@, id) == last_position(remote@.take(i as int), id),
        decreases i,
    {
        assert(remote@.take(i as int).drop_last() == remote@.take(i - 1));
        if remote[i - 1].0 == id.0 {
            return Some(i - 1);
        }
        i = i - 1;
    }
    None
}

/// Whether some square stands for `id`.
fn is_drawn(visuals: &Vec<(PlayerId, u64)>, id: PlayerId) -> (r: bool)
    ensures
        r == drawn(visuals@, id),
{
    let mut k: usize = 0;
    while k < visuals.len()
        invariant
            k <= visuals@.len(),
            forall|j: int| 0 <= j < k ==> (#[trigger] visuals@[j]).0 != id,
        decreases visuals@.len() - k,
    {
        if visuals[k].0.0 == id.0 {
            return true;
        }
        k = k + 1;
    }
    false
}

/// Whether `remote` holds `id`.
fn in_snapshot(remote: &Vec<PlayerId>, id: PlayerId) -> (r: bool)
    ensures
        r == remote@.contains(id),
{
    let mut i: usize = 0;
    while i < remote.len()
        invariant
            i <= remote@.len(),
            forall|j: int| 0 <= j < i ==> remote@[j] != id,
        decreases remote@.len() - i,
    {
        if remote[i].0 == id.0 {
            return true;
        }
        i = i + 1;
    }
    false
}

/// Whether the square at `k` is the last one for its player and that player
/// has left the snapshot.
fn is_stale(remote: &Vec<PlayerId>, visuals: &Vec<(PlayerId, u64)>, k: usize) -> (r: bool)
    requires
        k < visuals@.len(),
    ensures
        r == stale_at(remote@, visuals@, k as int),
{
    if in_snapshot(remote, visuals[k].0) {
        return false;
    }
    assert(k < visuals.len());
    let mut j = k + 1;
    while j < visuals.len()
        invariant
            k < j <= visuals@.len(),
            forall|m: int| k < m < j ==> (#[trigger] visuals@[m]).0 != visuals@[k as int].0,
        decreases visuals@.len() - j,
    {
        if visuals[j].0.0 == visuals[k].0.0 {
            return false;
        }
        j = j + 1;
    }
    true
}

/// Matches the squares drawn for other players (`visuals`: player and square,
/// in query order) to the players of the latest snapshot (`remote`, in
/// snapshot order): each square of a listed player moves to that player's
/// (last) entry; each entry whose player has no square gets a new one; and the
/// last square of each player no longer listed is removed.
pub fn plan_remote_sync(remote: &Vec<PlayerId>, visuals: &Vec<(PlayerId, u64)>) -> (r:
    RemoteSyncPlan)
    ensures
        r.moves@ == moves_upto(remote@, visuals@, visuals@.len() as int),
        r.spawns@ == spawns_upto(remote@, visuals@, remote@.len() as int),
        r.despawns@ == despawns_upto(remote@, visuals@, visuals@.len() as int),
{
    let mut moves: Vec<(u64, usize)> = Vec::new();
    let mut k: usize = 0;
    while k < visuals.len()
        invariant
            k <= visuals@.len(),
            moves@ == moves_upto(remote@, visuals@, k as int),
        decreases visuals@.len() - k,
    {
        let (id, entity) = visuals[k];
        match last_index(remote, id) {
            Some(i) => moves.push((entity, i)),
            None => {},
        }
        k = k + 1;
    }
    let mut spawns: Vec<usize> = Vec::new();
    let mut i: usize = 0;
    while i < remote.len()
        invariant
            i <= remote@.len(),
            spawns@ == spawns_upto(remote@, visuals@, i as int),
        decreases remote@.len() - i,
    {
        if !is_drawn(visuals, remote[i]) {
            spawns.push(i);
        }
        i = i + 1;
    }
    let mut despawns: Vec<u64> = Vec::new();
    let mut k: usize = 0;
    while k < visuals.len()
        invariant
            k <= visuals@.len(),
            despawns@ == despawns_upto(remote@, visuals@, k as int),
        decreases visuals@.len() - k,
    {
        if is_stale(remote, visuals, k) {
            despawns.push(visuals[k].1);
        }
        k = k + 1;
    }
    RemoteSyncPlan { moves, spawns, despawns }
}

proof fn lemma_spawns_upto(remote: Seq<PlayerId>, visuals: Seq<(PlayerId, u64)>, n: int, x: usize)
    requires
        0 <= n <= remote.len() <= usize::MAX,
    ensures
        spawns_upto(remote, visuals, n).contains(x) <==> (x < n && !drawn(visuals, remote[x as int])),
    decreases n,
{
    if n > 0 {
        lemma_spawns_upto(remote, visuals, n - 1, x);
        let prev = spawns_upto(remote, visuals, n - 1);
        if !drawn(visuals, remote[n - 1]) {
            let cur = prev.push((n - 1) as usize);
            if cur.contains(x) {
                let m = choose|m: int| 0 <= m < cur.len() && cur[m] == x;
                if m < prev.len() {
                    assert(prev[m] == x);
                }
            }
            if prev.contains(x) {
                let m = choose|m: int| 0 <= m < prev.len() && prev[m] == x;
                assert(cur[m] == x);
            }
            if x == n - 1 {
                assert(cur[prev.len() as int] == x);
            }
        }
    }
}

/// After a sync, every player of the snapshot has a square: an old one, or a
/// new one spawned for exactly the players that had none.
pub proof fn every_remote_player_gets_a_square(
    remote: Seq<PlayerId>,
    visuals: Seq<(PlayerId, u64)>,
    i: int,
)
    requires
        0 <= i < remote.len() <= usize::MAX,
    ensures
        drawn(visuals, remote[i]) || spawns_upto(remote, visuals, remote.len() as int).contains(
            i as usize,
        ),
        spawns_upto(remote, visuals, remote.len() as int).contains(i as usize) ==> !drawn(
            visuals,
            remote[i],
        ),
{
    lemma_spawns_upto(remote, visuals, remote.len() as int, i as usize);
}

proof fn lemma_despawns_upto(remote: Seq<PlayerId>, visuals: Seq<(PlayerId, u64)>, n: int, e: u64)
    requires
        0 <= n <= visuals.len(),
    ensures
        despawns_upto(remote, visuals, n).contains(e) <==> exists|k: int|
            0 <= k < n && stale_at(remote, visuals, k) && #[trigger] visuals[k].1 == e,
    decreases n,
{
    if n > 0 {
        lemma_despawns_upto(remote, visuals, n - 1, e);
        let prev = despawns_upto(remote, visuals, n - 1);
        if stale_at(remote, visuals, n - 1) {
            let cur = prev.push(visuals[n - 1].1);
            if cur.contains(e) {
                let m = choose|m: int| 0 <= m < cur.len() && cur[m] == e;
                if m < prev.len() {
                    assert(prev[m] == e);
                }
            }
            if prev.contains(e) {
                let m = choose|m: int| 0 <= m < prev.len() && prev[m] == e;
                assert(cur[m] == e);
            }
            if visuals[n - 1].1 == e {
                assert(cur[prev.len() as int] == e);
            }
        }
    }
}

/// A sync removes only squares of players who left the snapshot, and of each
/// such player it removes the last square drawn.
pub proof fn only_departed_players_lose_their_square(
    remote: Seq<PlayerId>,
    visuals: Seq<(PlayerId, u64)>,
    e: u64,
)
    ensures
        despawns_upto(remote, visuals, visuals.len() as int).contains(e) <==> exists|k: int|
            0 <= k < visuals.len() && stale_at(remote, visuals, k) && #[trigger] visuals[k].1 == e,
{
    lemma_despawns_upto(remote, visuals, visuals.len() as int, e);
}

/// `i` is where `id` last occurs in `remote`.
pub open spec fn is_last_of(remote: Seq<PlayerId>, id: PlayerId, i: int) -> bool {
    &&& 0 <= i < remote.len()
    &&& remote[i] == id
    &&& forall|j: int| i < j < remote.len() ==> remote[j] != id
}

/// `mv` moves a drawn square to the entry where its player last occurs in
/// `remote`.
pub open spec fn moves_a_listed_square(
    remote: Seq<PlayerId>,
    visuals: Seq<(PlayerId, u64)>,
    mv: (u64, usize),
) -> bool {
    exists|k: int|
        0 <= k < visuals.len() && #[trigger] visuals[k].1 == mv.0 && is_last_of(
            remote,
            visuals[k].0,
            mv.1 as int,
        )
}

proof fn lemma_last_position(remote: Seq<PlayerId>, id: PlayerId)
    ensures
        match last_position(remote, id) {
            Some(i) => is_last_of(remote, id, i),
            None => forall|j: int| 0 <= j < remote.len() ==> remote[j] != id,
        },
    decreases remote.len(),
{
    if remote.len() > 0 && remote.last() != id {
        lemma_last_position(remote.drop_last(), id);
        assert forall|j: int| 0 <= j < remote.drop_last().len() implies remote.drop_last()[j]
            == remote[j] by {}
    }
}

/// Where `id` last occurs is unique.
proof fn lemma_last_of_unique(remote: Seq<PlayerId>, id: PlayerId, i: int, j: int)
    requires
        is_last_of(remote, id, i),
        is_last_of(remote, id, j),
    ensures
        i == j,
{
    if i < j {
        assert(remote[j] != id);
    }
    if j < i {
        assert(remote[i] != id);
    }
}

proof fn lemma_moves_upto(remote: Seq<PlayerId>, visuals: Seq<(PlayerId, u64)>, n: int)
    requires
        0 <= n <= visuals.len(),
        remote.len() <= usize::MAX,
    ensures
        forall|k: int, i: int|
            0 <= k < n && is_last_of(remote, visuals[k].0, i) ==> #[trigger] moves_upto(
                remote,
                visuals,
                n,
            ).contains((#[trigger] visuals[k].1, i as usize)),
        forall|m: int|
            0 <= m < moves_upto(remote, visuals, n).len() ==> moves_a_listed_square(
                remote,
                visuals,
                #[trigger] moves_upto(remote, visuals, n)[m],
            ),
    decreases n,
{
    if n > 0 {
        lemma_moves_upto(remote, visuals, n - 1);
        lemma_last_position(remote, visuals[n - 1].0);
        let prev = moves_upto(remote, visuals, n - 1);
        let cur = moves_upto(remote, visuals, n);
        assert forall|k: int, i: int|
            0 <= k < n && is_last_of(remote, visuals[k].0, i) implies #[trigger] cur.contains(
            (#[trigger] visuals[k].1, i as usize),
        ) by {
            if k < n - 1 {
                assert(prev.contains((visuals[k].1, i as usize)));
                let m = choose|m: int| 0 <= m < prev.len() && prev[m] == (visuals[k].1, i as usize);
                assert(cur[m] == prev[m]);
            } else {
                match last_position(remote, visuals[n - 1].0) {
                    Some(p) => {
                        lemma_last_of_unique(remote, visuals[k].0, i, p);
                        assert(cur[prev.len() as int] == (visuals[k].1, i as usize));
                    },
                    None => {
                        assert(remote[i] != visuals[k].0);
                    },
                }
            }
        }
        assert forall|m: int| 0 <= m < cur.len() implies moves_a_listed_square(
            remote,
            visuals,
            #[trigger] cur[m],
        ) by {
            if m < prev.len() {
                assert(cur[m] == prev[m]);
                assert(moves_a_listed_square(remote, visuals, prev[m]));
            } else {
                let p = last_position(remote, visuals[n - 1].0)->Some_0;
                assert(cur[m] == (visuals[n - 1].1, p as usize));
                assert(visuals[n - 1].1 == cur[m].0);
            }
        }
    }
}

/// The squares of the first `n` whose player is in the snapshot, in order,
/// are the squares that `moves_upto` moves, in order.
proof fn lemma_moves_in_square_order(
    remote: Seq<PlayerId>,
    visuals: Seq<(PlayerId, u64)>,
    n: int,
)
    requires
        0 <= n <= visuals.len(),
    ensures
        moves_upto(remote, visuals, n).map_values(|mv: (u64, usize)| mv.0) == visuals.take(
            n,
        ).filter(|v: (PlayerId, u64)| remote.contains(v.0)).map_values(|v: (PlayerId, u64)| v.1),
    decreases n,
{
    let listed = |v: (PlayerId, u64)| remote.contains(v.0);
    let square = |v: (PlayerId, u64)| v.1;
    let entity = |mv: (u64, usize)| mv.0;
    if n == 0 {
        assert(visuals.take(0) =~= Seq::<(PlayerId, u64)>::empty());
        assert(moves_upto(remote, visuals, 0).map_values(entity) =~= Seq::<u64>::empty());
        assert(visuals.take(0).filter(listed).map_values(square) =~= Seq::<u64>::empty());
    } else {
        lemma_moves_in_square_order(remote, visuals, n - 1);
        lemma_last_position(remote, visuals[n - 1].0);
        let t = visuals.take(n);
        assert(t.drop_last() =~= visuals.take(n - 1));
        assert(t.last() == visuals[n - 1]);
        reveal_with_fuel(Seq::filter, 1);
        let prev = moves_upto(remote, visuals, n - 1);
        let fprev = visuals.take(n - 1).filter(listed);
        match last_position(remote, visuals[n - 1].0) {
            Some(i) => {
                assert(remote.contains(visuals[n - 1].0)) by {
                    assert(remote[i] == visuals[n - 1].0);
                }
                assert(t.filter(listed) == fprev.push(visuals[n - 1]));
                assert(prev.push((visuals[n - 1].1, i as usize)).map_values(entity)
                    =~= prev.map_values(entity).push(visuals[n - 1].1));
                assert(fprev.push(visuals[n - 1]).map_values(square) =~= fprev.map_values(
                    square,
                ).push(visuals[n - 1].1));
            },
            None => {
                assert(!remote.contains(visuals[n - 1].0));
                assert(t.filter(listed) == fprev);
            },
        }
    }
}

/// Every square of a player who is in the snapshot moves to that player's
/// last entry, whatever order the squares come in; every move is such a
/// square with such an entry; and the squares moved are exactly those of
/// listed players, each once, in the order the squares are given.
pub proof fn every_listed_square_moves(remote: Seq<PlayerId>, visuals: Seq<(PlayerId, u64)>)
    requires
        remote.len() <= usize::MAX,
    ensures
        forall|k: int, i: int|
            0 <= k < visuals.len() && is_last_of(remote, visuals[k].0, i) ==> #[trigger] moves_upto(
                remote,
                visuals,
                visuals.len() as int,
            ).contains((#[trigger] visuals[k].1, i as usize)),
        forall|m: int|
            0 <= m < moves_upto(remote, visuals, visuals.len() as int).len()
                ==> moves_a_listed_square(
                remote,
                visuals,
                #[trigger] moves_upto(remote, visuals, visuals.len() as int)[m],
            ),
        moves_upto(remote, visuals, visuals.len() as int).map_values(|mv: (u64, usize)| mv.0)
            == visuals.filter(|v: (PlayerId, u64)| remote.contains(v.0)).map_values(
            |v: (PlayerId, u64)| v.1,
        ),
{
    lemma_moves_upto(remote, visuals, visuals.len() as int);
    lemma_moves_in_square_order(remote, visuals, visuals.len() as int);
    assert(visuals.take(visuals.len() as int) =~= visuals);
}

// ---------------------------------------------------------------------------
// Colours
// ---------------------------------------------------------------------------
/// How many colours the player palette holds.
pub const PALETTE_SIZE: usize = 8;

/// The palette slot of player `id`: ids take the colours in turn.
pub fn palette_index(id: PlayerId) -> (r: usize)
    ensures
        r == id.0 % (PALETTE_SIZE as u64),
        r < PALETTE_SIZE,
{
    (id.0 % (PALETTE_SIZE as u64)) as usize
}

// ---------------------------------------------------------------------------
// The camera
// ---------------------------------------------------------------------------
/// How the camera's follow target changes.
#[derive(Clone, Copy, Debug, PartialEq, Eq, Structural)]
pub enum FollowUpdate {
    /// Leave it as it is.
    Keep,
    /// Stop following anything.
    Stop,
    /// Follow this entity, at the standard smoothness.
    Follow(u64),
}

/// The follow target after `u`: an entity, and whether the smoothness is the
/// standard one.
pub open spec fn apply_follow(current: Option<(u64, bool)>, u: FollowUpdate) -> Option<(u64, bool)> {
    match u {
        FollowUpdate::Keep => current,
        FollowUpdate::Stop => None,
        FollowUpdate::Follow(e) => Some((e, true)),
    }
}

/// The camera's follow target against the local player: with no local player
/// the camera stops following; otherwise it follows the local player at the
/// standard smoothness, changing its target only when that is not already so.
pub open spec fn follow_rule(current: Option<(u64, bool)>, local_player: Option<u64>) -> FollowUpdate {
    match local_player {
        None => if current is Some {
            FollowUpdate::Stop
        } else {
            FollowUpdate::Keep
        },
        Some(p) => match current {
            Some((e, standard)) => if e == p && standard {
                FollowUpdate::Keep
            } else {
                FollowUpdate::Follow(p)
            },
            None => FollowUpdate::Follow(p),
        },
    }
}

/// Decides how the camera's follow target (`current`: the followed entity and
/// whether its smoothness is the standard one) must change for the camera to
/// follow `local_player`.
pub fn follow_target_update(current: Option<(u64, bool)>, local_player: Option<u64>) -> (r:
    FollowUpdate)
    ensures
        r == follow_rule(current, local_player),
{
    match local_player {
        None => match current {
            Some(_) => FollowUpdate::Stop,
            None => FollowUpdate::Keep,
        },
        Some(p) => match current {
            Some((e, standard)) => if e == p && standard {
                FollowUpdate::Keep
            } else {
                FollowUpdate::Follow(p)
            },
            None => FollowUpdate::Follow(p),
        },
    }
}

/// Once the camera's target is updated, the next sync against the same local
/// player leaves it alone, and the camera then follows exactly the local
/// player.
pub proof fn follow_sync_settles(current: Option<(u64, bool)>, local_player: Option<u64>)
    ensures
        ({
            let next = apply_follow(current, follow_rule(current, local_player));
            &&& follow_rule(next, local_player) == FollowUpdate::Keep
            &&& next == match local_player {
                Some(p) => Some((p, true)),
                None => None::<(u64, bool)>,
            }
        }),
{
}

// ---------------------------------------------------------------------------
// The local player's square
// ---------------------------------------------------------------------------
/// What to do with the square drawn for the local player.
#[derive(Clone, Copy, Debug, PartialEq, Eq, Structural)]
pub enum LocalVisualAction {
    /// Nothing to change.
    Keep,
    /// The snapshot has a local player but nothing draws it: spawn its square.
    Spawn,
    /// The snapshot has no local player: remove every square drawn for it.
    DespawnAll,
}

/// The local player's square follows the snapshot: it is removed when the
/// snapshot has no local player, and spawned when there is one but no square.
pub open spec fn local_visual_rule(has_local_player: bool, drawn_squares: nat) -> LocalVisualAction {
    if !has_local_player {
        if drawn_squares > 0 {
            LocalVisualAction::DespawnAll
        } else {
            LocalVisualAction::Keep
        }
    } else if drawn_squares == 0 {
        LocalVisualAction::Spawn
    } else {
        LocalVisualAction::Keep
    }
}

/// Decides what to do with the local player's square, given whether the
/// snapshot has a local player and how many squares draw it.
pub fn local_visual_action(has_local_player: bool, drawn_squares: usize) -> (r: LocalVisualAction)
    ensures
        r == local_visual_rule(has_local_player, drawn_squares as nat),
{
    if !has_local_player {
        if drawn_squares > 0 {
            LocalVisualAction::DespawnAll
        } else {
            LocalVisualAction::Keep
        }
    } else if drawn_squares == 0 {
        LocalVisualAction::Spawn
    } else {
        LocalVisualAction::Keep
    }
}

/// The squares left after `a`.
pub open spec fn squares_after(drawn_squares: nat, a: LocalVisualAction) -> nat {
    match a {
        LocalVisualAction::Keep => drawn_squares,
        LocalVisualAction::Spawn => drawn_squares + 1,
        LocalVisualAction::DespawnAll => 0,
    }
}

/// After the local player's square is brought in line with the snapshot, a
/// square is drawn exactly when the snapshot has a local player, and the next
/// update changes nothing.
pub proof fn local_square_matches_snapshot(has_local_player: bool, drawn_squares: nat)
    ensures
        ({
            let after = squares_after(
                drawn_squares,
                local_visual_rule(has_local_player, drawn_squares),
            );
            &&& (after > 0 <==> has_local_player)
            &&& local_visual_rule(has_local_player, after) == LocalVisualAction::Keep
        }),
{
}

} // verus!
