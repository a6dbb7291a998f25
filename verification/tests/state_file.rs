use extended_connector::amount::Amount;
use extended_connector::rounding::hours_left;
use extended_connector::state::{
    backup_path, legacy_state_path, resolve_state_path, temp_path, BotState, ClockFault, FileContent, LoadAction,
    LoadEvent, LoadStage, SaveAction, SaveEvent, SaveStage,
};
use extended_connector::types::DeltaNeutralPosition;

fn amount(x: f64) -> Amount {
    Amount { bits: x.to_bits() }
}

fn state_opened_at(opened_at: u64) -> BotState {
    BotState {
        current_position: Some(DeltaNeutralPosition {
            symbol: "BTC".to_string(),
            extended_position: None,
            pacifica_position: None,
            opened_at,
            target_notional_usd: amount(100.0),
        }),
        last_rotation_time: Some(opened_at),
        total_rotations: 3,
    }
}

/// Loads with these events, and gives the last action.
fn load(events: Vec<LoadEvent>) -> LoadAction {
    let mut stage = LoadStage::Start;
    let mut last = LoadAction::Await;
    for event in events {
        let (next, action) = BotState::load_from_file(stage, event);
        stage = next;
        last = action;
    }
    last
}

/// Saves with these events, and gives all actions.
fn save(events: Vec<SaveEvent>) -> Vec<SaveAction> {
    let mut stage = SaveStage::Start;
    let mut actions = Vec::new();
    for event in events {
        let (next, action) = BotState::save_to_file(stage, event);
        stage = next;
        actions.push(action);
    }
    actions
}

#[test]
fn a_new_state_is_empty() {
    let state = BotState::new();
    assert!(state.current_position.is_none());
    assert!(state.last_rotation_time.is_none());
    assert_eq!(state.total_rotations, 0);
}

#[test]
fn a_position_is_rotated_after_the_full_hours() {
    let state = state_opened_at(1000);
    assert!(!state.should_rotate_at(24, 1000 + 24 * 3600 - 1));
    assert!(state.should_rotate_at(24, 1000 + 24 * 3600));
    assert!(state.should_rotate_at(24, 1000 + 25 * 3600));
    assert!(state.should_rotate_at(0, 1000));
    assert!(!BotState::new().should_rotate_at(0, 0));
}

#[test]
fn the_clock_decides_on_the_rotation() {
    assert_eq!(BotState::new().should_rotate(0), Ok(false));
    assert_eq!(state_opened_at(0).should_rotate(24), Ok(true));
    assert_eq!(state_opened_at(0).should_rotate(u64::MAX), Ok(false));
    assert_eq!(state_opened_at(u64::MAX).should_rotate(24), Err(ClockFault::BeforeOpening));
}

#[test]
fn each_fault_of_the_clock_is_told() {
    let state = state_opened_at(1000);
    assert_eq!(state.should_rotate_given(1, None), Err(ClockFault::BeforeEpoch));
    assert_eq!(state.should_rotate_given(1, Some(999)), Err(ClockFault::BeforeOpening));
    assert_eq!(state.should_rotate_given(1, Some(4599)), Ok(false));
    assert_eq!(state.should_rotate_given(1, Some(4600)), Ok(true));
    assert_eq!(BotState::new().should_rotate_given(1, None), Ok(false));
    assert_eq!(state.elapsed_secs_given(None), Err(ClockFault::BeforeEpoch));
    assert_eq!(state.elapsed_secs_given(Some(999)), Err(ClockFault::BeforeOpening));
    assert_eq!(state.elapsed_secs_given(Some(1007)), Ok(Some(7)));
    assert_eq!(BotState::new().elapsed_secs_given(None), Ok(None));
}

/// The hours left as the floating point of the machine computes them.
fn machine_hours(hold: u64, elapsed: u64) -> f64 {
    (hold as f64 - elapsed as f64 / 3600.0).max(0.0)
}

#[test]
fn hours_are_rounded_as_the_machine_rounds_them() {
    let mut seed: u64 = 0x9e37_79b9_7f4a_7c15;
    let mut random = || {
        seed ^= seed << 13;
        seed ^= seed >> 7;
        seed ^= seed << 17;
        seed
    };
    for _ in 0..20_000 {
        let hold = random() >> (random() % 64);
        let elapsed = random() >> (random() % 64);
        let hours = hours_left(hold, elapsed);
        assert_eq!(hours.bits, machine_hours(hold, elapsed).to_bits(), "{} {}", hold, elapsed);
    }
    for hold in [0, 1, 24, 1 << 53, (1 << 53) + 1, u64::MAX - 1025, u64::MAX - 1024, u64::MAX] {
        for elapsed in [0, 1, 1800, 3599, 3600, 86_399, 1 << 53, (1 << 53) + 1, u64::MAX] {
            let hours = hours_left(hold, elapsed);
            assert_eq!(hours.bits, machine_hours(hold, elapsed).to_bits(), "{} {}", hold, elapsed);
        }
    }
}

#[test]
fn no_hours_are_left_exactly_when_the_rotation_is_due() {
    let state = state_opened_at(1000);
    for hold in [0u64, 1, 2, 3, 7, 23, 24, 1000, 999_983, 1_000_000, 2_501_999_792_983] {
        for away in [0u64, 1, 2, 59, 3599, 3600, 3601, 7200, 86_400] {
            for elapsed in [(hold * 3600).saturating_sub(away), hold * 3600 + away] {
                let now = Some(1000 + elapsed);
                let hours = state.hours_until_rotation_given(hold, now).unwrap().unwrap();
                let hours = f64::from_bits(hours.bits);
                let due = state.should_rotate_given(hold, now).unwrap();
                assert_eq!(hours == 0.0, due, "{} {}", hold, elapsed);
                assert!(0.0 <= hours && hours <= hold as f64);
            }
        }
    }
}

#[test]
fn the_age_of_a_position_is_told() {
    assert_eq!(state_opened_at(1000).elapsed_secs_at(1005), Some(5));
    assert_eq!(BotState::new().elapsed_secs_at(1005), None);
}

#[test]
fn the_hours_until_rotation_are_told() {
    let state = state_opened_at(1000);
    assert_eq!(state.hours_until_rotation_given(24, Some(1000 + 21 * 3600 + 1800)), Ok(Some(amount(2.5))));
    assert_eq!(state.hours_until_rotation_given(24, Some(1000 + 25 * 3600)), Ok(Some(amount(0.0))));
    assert_eq!(state.hours_until_rotation_given(24, None), Err(ClockFault::BeforeEpoch));
    assert_eq!(state.hours_until_rotation_given(24, Some(999)), Err(ClockFault::BeforeOpening));
    assert_eq!(BotState::new().hours_until_rotation_given(24, None), Ok(None));
    assert_eq!(BotState::new().hours_until_rotation(24), Ok(None));
    assert_eq!(state_opened_at(u64::MAX).hours_until_rotation(24), Err(ClockFault::BeforeOpening));
    // The clock of a machine that runs this stands after 2023.
    assert_eq!(state_opened_at(0).hours_until_rotation(24), Ok(Some(amount(0.0))));
    let left = state_opened_at(0).hours_until_rotation(10_000_000).unwrap().unwrap();
    assert!(f64::from_bits(left.bits) < 10_000_000.0 - 472_000.0);
}

#[test]
fn the_environment_names_the_state_file() {
    let named = resolve_state_path(Some("/app/state/bot_state.json".to_string()), false);
    assert_eq!(named, ("/app/state/bot_state.json".to_string(), false));
    assert_eq!(resolve_state_path(None, false), ("state/bot_state.json".to_string(), false));
    assert_eq!(resolve_state_path(None, true), ("state/bot_state.json".to_string(), true));
    let old = resolve_state_path(Some("bot_state.json".to_string()), true);
    assert_eq!(old, ("bot_state.json".to_string(), false));
    assert_eq!(legacy_state_path(), "bot_state.json");
    assert_eq!(backup_path("a/b.json"), "a/b.json.bak");
    assert_eq!(temp_path("a/b.json"), "a/b.json.tmp");
}

#[test]
fn a_whole_file_is_loaded() {
    let action = load(vec![
        LoadEvent::Begin,
        LoadEvent::MainExists(true),
        LoadEvent::Main(FileContent::State(state_opened_at(7))),
    ]);
    assert!(matches!(action, LoadAction::Finish(s) if s.total_rotations == 3));
}

#[test]
fn a_malformed_file_gives_way_to_the_backup() {
    let head = || {
        vec![
            LoadEvent::Begin,
            LoadEvent::MainExists(true),
            LoadEvent::Main(FileContent::Malformed("eof".to_string())),
        ]
    };
    let mut with_backup = head();
    with_backup.push(LoadEvent::BackupExists(true));
    with_backup.push(LoadEvent::Backup(FileContent::State(state_opened_at(7))));
    assert!(matches!(load(with_backup), LoadAction::Finish(s) if s.total_rotations == 3));
    let mut broken = head();
    broken.push(LoadEvent::BackupExists(true));
    broken.push(LoadEvent::Backup(FileContent::Malformed("bad".to_string())));
    assert!(matches!(load(broken), LoadAction::Fail(e) if e == "bad"));
    let mut lost = head();
    lost.push(LoadEvent::BackupExists(true));
    lost.push(LoadEvent::Backup(FileContent::Unreadable("denied".to_string())));
    assert!(matches!(load(lost), LoadAction::Fail(e) if e == "denied"));
    let mut fresh = head();
    fresh.push(LoadEvent::BackupExists(false));
    fresh.push(LoadEvent::Saved(false));
    assert!(matches!(load(fresh), LoadAction::Finish(s) if s.total_rotations == 0));
}

#[test]
fn without_a_file_the_bot_starts_afresh() {
    let probe = load(vec![LoadEvent::Begin, LoadEvent::MainExists(false)]);
    assert!(matches!(probe, LoadAction::SaveInitial(s) if s.current_position.is_none()));
    let end = load(vec![LoadEvent::Begin, LoadEvent::MainExists(false), LoadEvent::Saved(false)]);
    assert!(matches!(end, LoadAction::Finish(s) if s.current_position.is_none()));
    let denied = load(vec![
        LoadEvent::Begin,
        LoadEvent::MainExists(true),
        LoadEvent::Main(FileContent::Unreadable("denied".to_string())),
    ]);
    assert!(matches!(denied, LoadAction::Fail(e) if e == "denied"));
}

#[test]
fn a_state_is_saved_beside_the_old_one_and_renamed() {
    let actions = save(vec![
        SaveEvent::Begin { has_parent: true },
        SaveEvent::ParentCreated(Ok(())),
        SaveEvent::MainExists(true),
        SaveEvent::BackupCopied(false),
        SaveEvent::Serialized(Ok(())),
        SaveEvent::TempWritten(Ok(())),
        SaveEvent::Renamed(true),
    ]);
    assert!(matches!(
        actions[..],
        [
            SaveAction::CreateParent,
            SaveAction::ProbeMain,
            SaveAction::CopyToBackup,
            SaveAction::Serialize,
            SaveAction::WriteTemp,
            SaveAction::RenameTemp,
            SaveAction::Finish
        ]
    ));
}

#[test]
fn a_failed_rename_falls_back_to_a_direct_write() {
    let head = || {
        vec![
            SaveEvent::Begin { has_parent: false },
            SaveEvent::MainExists(false),
            SaveEvent::Serialized(Ok(())),
            SaveEvent::TempWritten(Ok(())),
            SaveEvent::Renamed(false),
        ]
    };
    let mut good = head();
    good.push(SaveEvent::DirectWritten(Ok(())));
    good.push(SaveEvent::TempRemoved(false));
    let actions = save(good);
    assert!(matches!(actions[4], SaveAction::WriteMain));
    assert!(matches!(actions[5], SaveAction::RemoveTemp));
    assert!(matches!(actions[6], SaveAction::Finish));
    let mut bad = head();
    bad.push(SaveEvent::DirectWritten(Err("full".to_string())));
    assert!(matches!(save(bad).last(), Some(SaveAction::Fail(e)) if e == "full"));
}

#[test]
fn each_failure_of_saving_is_reported() {
    let parent = save(vec![
        SaveEvent::Begin { has_parent: true },
        SaveEvent::ParentCreated(Err("denied".to_string())),
    ]);
    assert!(matches!(parent.last(), Some(SaveAction::Fail(e)) if e == "denied"));
    let temp = save(vec![
        SaveEvent::Begin { has_parent: false },
        SaveEvent::MainExists(true),
        SaveEvent::BackupCopied(true),
        SaveEvent::Serialized(Ok(())),
        SaveEvent::TempWritten(Err("full".to_string())),
    ]);
    assert!(matches!(temp.last(), Some(SaveAction::Fail(e)) if e == "full"));
    let text = save(vec![
        SaveEvent::Begin { has_parent: false },
        SaveEvent::MainExists(false),
        SaveEvent::Serialized(Err("no text".to_string())),
    ]);
    assert!(matches!(text.last(), Some(SaveAction::Fail(e)) if e == "no text"));
}
