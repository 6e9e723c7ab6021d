use mine_idler::loot::{LootTable, LootTableEntry, LootTableItemEntry, QualityDistribution};
use mine_idler::mine::{
    find_mine_location, mining_tick_action, new_session_map, start_mining, stop_mining,
    MineLocation, MiningTickAction, StartMiningError, StopMiningReason,
};

fn location(id: u32, name: &str) -> MineLocation {
    MineLocation {
        id,
        name: name.to_owned(),
        loot_table: LootTable(vec![LootTableEntry::Item(LootTableItemEntry {
            weight: 1,
            id: 1,
            quality_distribution: QualityDistribution::Uniform,
        })]),
    }
}

fn locations() -> Vec<MineLocation> {
    vec![location(0, "starter"), location(1, "cavern")]
}

#[test]
fn find_mine_location_by_name() {
    let locs = locations();
    assert_eq!(find_mine_location(&locs, &"starter".to_owned()), Some(0));
    assert_eq!(find_mine_location(&locs, &"cavern".to_owned()), Some(1));
    assert_eq!(find_mine_location(&locs, &"nowhere".to_owned()), None);
}

#[test]
fn start_refuses_an_unknown_location() {
    let mut sessions = new_session_map();
    let r = start_mining(&mut sessions, &locations(), 5, &"nowhere".to_owned(), None, 100);
    assert!(matches!(r, Err(StartMiningError::InvalidLocation)));
}

#[test]
fn start_refuses_a_full_inventory() {
    let mut sessions = new_session_map();
    let r = start_mining(&mut sessions, &locations(), 5, &"starter".to_owned(), None, 0);
    assert!(matches!(r, Err(StartMiningError::InventoryFull)));
    let r = start_mining(&mut sessions, &locations(), 5, &"starter".to_owned(), None, -3);
    assert!(matches!(r, Err(StartMiningError::InventoryFull)));
}

#[test]
fn start_keeps_a_supplied_resume_token() {
    let mut sessions = new_session_map();
    let s = start_mining(&mut sessions, &locations(), 5, &"starter".to_owned(), Some(77), 10)
        .unwrap();
    assert_eq!(s.token, 77);
    assert_eq!(s.location_index, 0);
    assert!(s.superseded.is_none());
}

#[test]
fn second_start_supersedes_and_old_token_stops_rolling() {
    // "Last start wins": the second start overwrites the entry, and a tick
    // of the old loop sees the mismatch and stops silently.
    let mut sessions = new_session_map();
    let locs = locations();
    let first = start_mining(&mut sessions, &locs, 5, &"starter".to_owned(), Some(11), 10)
        .unwrap();
    let second = start_mining(&mut sessions, &locs, 5, &"cavern".to_owned(), Some(22), 10)
        .unwrap();
    assert_eq!(second.superseded, Some((11, 0)));
    let old_tick = mining_tick_action(None, &sessions, 5, first.token);
    assert!(matches!(old_tick, MiningTickAction::StopSilently));
    let new_tick = mining_tick_action(None, &sessions, 5, second.token);
    assert!(matches!(new_tick, MiningTickAction::RollLoot));
}

#[test]
fn stale_stop_token_is_a_no_op() {
    let mut sessions = new_session_map();
    let locs = locations();
    start_mining(&mut sessions, &locs, 5, &"starter".to_owned(), Some(11), 10).unwrap();
    start_mining(&mut sessions, &locs, 5, &"starter".to_owned(), Some(22), 10).unwrap();
    // The session with token 11 was superseded; stopping with it changes
    // nothing, and the active session keeps rolling.
    let stopped = stop_mining(&mut sessions, 5, StopMiningReason::Manual, Some(11));
    assert!(stopped.is_none());
    assert!(matches!(
        mining_tick_action(None, &sessions, 5, 22),
        MiningTickAction::RollLoot
    ));
}

#[test]
fn matching_stop_token_removes_the_session() {
    let mut sessions = new_session_map();
    let locs = locations();
    start_mining(&mut sessions, &locs, 5, &"starter".to_owned(), Some(11), 10).unwrap();
    let stopped = stop_mining(&mut sessions, 5, StopMiningReason::Manual, Some(11)).unwrap();
    assert_eq!(stopped.token, 11);
    assert_eq!(stopped.location_id, 0);
    assert!(matches!(stopped.reason, StopMiningReason::Manual));
    assert!(matches!(
        mining_tick_action(None, &sessions, 5, 11),
        MiningTickAction::StopSilently
    ));
}

#[test]
fn tokenless_stop_always_removes_whatever_is_active() {
    let mut sessions = new_session_map();
    let locs = locations();
    start_mining(&mut sessions, &locs, 5, &"starter".to_owned(), Some(11), 10).unwrap();
    start_mining(&mut sessions, &locs, 5, &"cavern".to_owned(), Some(22), 10).unwrap();
    let stopped = stop_mining(&mut sessions, 5, StopMiningReason::InventoryFull, None).unwrap();
    assert_eq!(stopped.token, 22);
    assert!(matches!(stopped.reason, StopMiningReason::InventoryFull));
    // Nothing is left to stop.
    assert!(stop_mining(&mut sessions, 5, StopMiningReason::Manual, None).is_none());
}

#[test]
fn tick_obeys_a_pending_stop_signal_first() {
    let mut sessions = new_session_map();
    let locs = locations();
    let s = start_mining(&mut sessions, &locs, 5, &"starter".to_owned(), None, 10).unwrap();
    assert!(matches!(
        mining_tick_action(Some(StopMiningReason::Manual), &sessions, 5, s.token),
        MiningTickAction::StopSilently
    ));
    assert!(matches!(
        mining_tick_action(Some(StopMiningReason::InventoryFull), &sessions, 5, s.token),
        MiningTickAction::EmitInventoryFullAndStop
    ));
    assert!(matches!(
        mining_tick_action(None, &sessions, 5, s.token),
        MiningTickAction::RollLoot
    ));
}

#[test]
fn sessions_are_independent_per_user() {
    let mut sessions = new_session_map();
    let locs = locations();
    start_mining(&mut sessions, &locs, 1, &"starter".to_owned(), Some(11), 10).unwrap();
    start_mining(&mut sessions, &locs, 2, &"cavern".to_owned(), Some(22), 10).unwrap();
    stop_mining(&mut sessions, 1, StopMiningReason::Manual, None).unwrap();
    assert!(matches!(
        mining_tick_action(None, &sessions, 2, 22),
        MiningTickAction::RollLoot
    ));
}
