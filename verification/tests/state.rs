use tpsbar::state::{PersistentState, PlayerKey, ReadOutcome, StateStore};

#[test]
fn a_new_player_is_disabled_by_default() {
    let state = PersistentState::default();
    assert!(!state.is_enabled(PlayerKey { high: 7, low: 9 }));
}

#[test]
fn toggle_flips_only_that_player_and_twice_restores() {
    let mut state = PersistentState::default();
    let a = PlayerKey { high: 1, low: 2 };
    let b = PlayerKey { high: 1, low: 3 };
    assert!(state.toggle(a));
    assert!(state.is_enabled(a));
    assert!(!state.is_enabled(b));
    assert!(state.toggle(b));
    assert!(!state.toggle(a));
    assert!(!state.is_enabled(a));
    assert!(state.is_enabled(b));
    assert_eq!(state.enabled_players(), vec![b]);
}

#[test]
fn from_parts_drops_duplicates() {
    let a = PlayerKey { high: 4, low: 4 };
    let state = PersistentState::from_parts(1, vec![a, a]);
    assert_eq!(state.enabled_players(), vec![a]);
    assert_eq!(state.schema_version(), 1);
}

#[test]
fn store_paths_are_joined_into_the_data_folder() {
    let store = StateStore::new("plugins/tpsbar");
    assert_eq!(store.path(), "plugins/tpsbar/state.json");
    assert_eq!(store.previous_path(), "plugins/tpsbar/state.json.previous");
    assert_eq!(store.backup_path(), "plugins/tpsbar/state.json.bak");
    assert_eq!(StateStore::new("data/").path(), "data/state.json");
    assert_eq!(StateStore::new("").path(), "state.json");
}

#[test]
fn load_prefers_main_file_without_warning() {
    let store = StateStore::new("d");
    let a = PlayerKey { high: 0, low: 1 };
    let main = PersistentState::from_parts(1, vec![a]);
    let backup = PersistentState::from_parts(1, vec![]);
    let loaded = store.load(
        ReadOutcome::Parsed(main),
        ReadOutcome::Missing,
        ReadOutcome::Parsed(backup),
    );
    assert!(loaded.state.is_enabled(a));
    assert_eq!(loaded.warning, None);
}

#[test]
fn load_recovers_from_previous_then_backup_with_warning() {
    let store = StateStore::new("d");
    let a = PlayerKey { high: 0, low: 1 };
    let loaded = store.load(
        ReadOutcome::ParseFailed("bad".to_string()),
        ReadOutcome::Parsed(PersistentState::from_parts(1, vec![a])),
        ReadOutcome::Missing,
    );
    assert!(loaded.state.is_enabled(a));
    assert_eq!(
        loaded.warning.as_deref(),
        Some("事务恢复文件 d/state.json.previous 已用于恢复玩家状态；下次切换时会写回主文件")
    );
    let loaded = store.load(
        ReadOutcome::Missing,
        ReadOutcome::Parsed(PersistentState::from_parts(2, vec![a])),
        ReadOutcome::Parsed(PersistentState::from_parts(1, vec![a])),
    );
    assert!(loaded.state.is_enabled(a));
    assert_eq!(
        loaded.warning.as_deref(),
        Some("备份状态文件 d/state.json.bak 已用于恢复玩家状态；下次切换时会写回主文件")
    );
}

#[test]
fn load_falls_back_to_default_and_lists_reasons() {
    let store = StateStore::new("d");
    let a = PlayerKey { high: 0, low: 1 };
    let loaded = store.load(
        ReadOutcome::ReadFailed("denied".to_string()),
        ReadOutcome::Missing,
        ReadOutcome::Parsed(PersistentState::from_parts(7, vec![a])),
    );
    assert!(!loaded.state.is_enabled(a));
    assert_eq!(loaded.state.schema_version(), 1);
    assert_eq!(
        loaded.warning.as_deref(),
        Some(
            "没有可用的玩家状态文件，将使用默认关闭状态：无法读取 d/state.json：denied；d/state.json.bak 使用不支持的 schema_version=7（当前支持 1）"
        )
    );
    let quiet = store.load(ReadOutcome::Missing, ReadOutcome::Missing, ReadOutcome::Missing);
    assert_eq!(quiet.warning, None);
    assert!(quiet.state.enabled_players().is_empty());
}
