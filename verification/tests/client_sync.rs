use rpg_raid_shop::display_name::PlayerId;
use rpg_raid_shop::client_sync::{
    follow_target_update, local_visual_action, palette_index, plan_remote_sync, FollowUpdate,
    LocalVisualAction, PALETTE_SIZE,
};

#[test]
fn sync_spawns_new_players() {
    let plan = plan_remote_sync(&vec![PlayerId(2), PlayerId(3)], &vec![]);
    assert!(plan.moves.is_empty());
    assert_eq!(plan.spawns, vec![0, 1]);
    assert!(plan.despawns.is_empty());
}

#[test]
fn sync_moves_known_and_removes_departed() {
    let remote = vec![PlayerId(2), PlayerId(5)];
    let visuals = vec![(PlayerId(2), 100), (PlayerId(9), 101), (PlayerId(5), 102)];
    let plan = plan_remote_sync(&remote, &visuals);
    assert_eq!(plan.moves, vec![(100, 0), (102, 1)]);
    assert!(plan.spawns.is_empty());
    assert_eq!(plan.despawns, vec![101]);
}

#[test]
fn sync_duplicate_ids_follow_map_semantics() {
    let remote = vec![PlayerId(4), PlayerId(7), PlayerId(4)];
    let visuals = vec![(PlayerId(8), 1), (PlayerId(4), 2), (PlayerId(8), 3)];
    let plan = plan_remote_sync(&remote, &visuals);
    // The square for player 4 takes the last snapshot entry for player 4.
    assert_eq!(plan.moves, vec![(2, 2)]);
    // Player 7 has no square yet.
    assert_eq!(plan.spawns, vec![1]);
    // Of the two squares for departed player 8, the last one is removed.
    assert_eq!(plan.despawns, vec![3]);
}

#[test]
fn palette_cycles_through_eight_colours() {
    assert_eq!(PALETTE_SIZE, 8);
    assert_eq!(palette_index(PlayerId(0)), 0);
    assert_eq!(palette_index(PlayerId(7)), 7);
    assert_eq!(palette_index(PlayerId(8)), 0);
    assert_eq!(palette_index(PlayerId(13)), 5);
    assert_eq!(palette_index(PlayerId(u64::MAX)), 7);
}

#[test]
fn camera_follow_updates() {
    assert_eq!(follow_target_update(None, None), FollowUpdate::Keep);
    assert_eq!(follow_target_update(Some((3, true)), None), FollowUpdate::Stop);
    assert_eq!(follow_target_update(None, Some(3)), FollowUpdate::Follow(3));
    assert_eq!(follow_target_update(Some((3, true)), Some(3)), FollowUpdate::Keep);
    assert_eq!(follow_target_update(Some((3, false)), Some(3)), FollowUpdate::Follow(3));
    assert_eq!(follow_target_update(Some((2, true)), Some(3)), FollowUpdate::Follow(3));
}

#[test]
fn camera_follow_settles_after_one_update() {
    let first = follow_target_update(Some((2, false)), Some(9));
    assert_eq!(first, FollowUpdate::Follow(9));
    assert_eq!(follow_target_update(Some((9, true)), Some(9)), FollowUpdate::Keep);
}

#[test]
fn local_square_follows_snapshot() {
    assert_eq!(local_visual_action(true, 0), LocalVisualAction::Spawn);
    assert_eq!(local_visual_action(true, 1), LocalVisualAction::Keep);
    assert_eq!(local_visual_action(false, 2), LocalVisualAction::DespawnAll);
    assert_eq!(local_visual_action(false, 0), LocalVisualAction::Keep);
}
