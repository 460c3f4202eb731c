use std::collections::HashMap;

use tpsbar::save::{SaveAction, SaveEvent, SaveStage};
use tpsbar::state::{PersistentState, PlayerKey, ReadOutcome, StateStore};

/// An in-memory folder: file path to content; contents are `v<version>:<high>,<low>;...`.
struct Folder {
    files: HashMap<String, String>,
    fail_commit: bool,
    actions: Vec<String>,
}

fn encode(state: &PersistentState) -> String {
    let mut text = format!("v{}:", state.schema_version());
    for p in state.enabled_players() {
        text.push_str(&format!("{},{};", p.high, p.low));
    }
    text
}

fn decode(text: &str) -> Option<PersistentState> {
    let rest = text.strip_prefix('v')?;
    let (version, players) = rest.split_once(':')?;
    let version: u32 = version.parse().ok()?;
    let mut keys = Vec::new();
    for item in players.split(';').filter(|s| !s.is_empty()) {
        let (h, l) = item.split_once(',')?;
        keys.push(PlayerKey { high: h.parse().ok()?, low: l.parse().ok()? });
    }
    Some(PersistentState::from_parts(version, keys))
}

fn read(folder: &Folder, path: &str) -> ReadOutcome {
    match folder.files.get(path) {
        None => ReadOutcome::Missing,
        Some(text) => match decode(text) {
            Some(state) => ReadOutcome::Parsed(state),
            None => ReadOutcome::ParseFailed("bad document".to_string()),
        },
    }
}

fn load(folder: &Folder, store: &StateStore) -> tpsbar::state::StateLoadResult {
    store.load(
        read(folder, store.path()),
        read(folder, store.previous_path()),
        read(folder, store.backup_path()),
    )
}

fn save(folder: &mut Folder, store: &StateStore, state: &PersistentState) -> Result<(), String> {
    let mut run = store.begin_save();
    let mut serialized = String::new();
    loop {
        let action = run.action();
        let event = match action {
            SaveAction::CreateParent => SaveEvent::Done,
            SaveAction::Serialize => {
                serialized = encode(state);
                SaveEvent::Done
            }
            SaveAction::CreateTemporary(path) => {
                folder.files.insert(path, String::new());
                SaveEvent::Done
            }
            SaveAction::WriteTemporary(path) => {
                folder.files.insert(path, serialized.clone());
                SaveEvent::Done
            }
            SaveAction::ClearPrevious(path) | SaveAction::DropPrevious(path) => {
                match folder.files.remove(&path) {
                    Some(_) => SaveEvent::Done,
                    None => SaveEvent::Absent,
                }
            }
            SaveAction::CheckMain(path) | SaveAction::CheckPrevious(path) => {
                if folder.files.contains_key(&path) {
                    SaveEvent::Done
                } else {
                    SaveEvent::Absent
                }
            }
            SaveAction::MoveAside { from, to } | SaveAction::Restore { from, to } => {
                let text = folder.files.remove(&from).unwrap();
                folder.files.insert(to, text);
                SaveEvent::Done
            }
            SaveAction::Commit { from, to } => {
                if folder.fail_commit {
                    SaveEvent::Failed("device busy".to_string())
                } else {
                    let text = folder.files.remove(&from).unwrap();
                    folder.files.insert(to, text);
                    SaveEvent::Done
                }
            }
            SaveAction::BackUp { from, to } => {
                let text = folder.files.get(&from).unwrap().clone();
                folder.files.insert(to, text);
                SaveEvent::Done
            }
            SaveAction::Finish(result) => return result,
        };
        folder.actions.push(format!("{:?}", run.stage()));
        run.advance(event);
    }
}

#[test]
fn state_round_trip_preserves_per_player_choice() {
    let store = StateStore::new("data");
    let mut folder = Folder { files: HashMap::new(), fail_commit: false, actions: Vec::new() };
    let player = PlayerKey { high: 1, low: 2 };
    let mut state = PersistentState::default();
    assert!(state.toggle(player));
    assert!(save(&mut folder, &store, &state).is_ok());
    let loaded = load(&folder, &store);
    assert!(loaded.state.is_enabled(player));
    assert_eq!(loaded.warning, None);
    assert!(!folder.files.contains_key("data/state.json.tmp"));
    assert!(!folder.files.contains_key("data/state.json.previous"));
}

#[test]
fn second_save_keeps_previous_state_as_backup() {
    let store = StateStore::new("data");
    let mut folder = Folder { files: HashMap::new(), fail_commit: false, actions: Vec::new() };
    let a = PlayerKey { high: 1, low: 2 };
    let mut state = PersistentState::default();
    state.toggle(a);
    save(&mut folder, &store, &state).unwrap();
    let first = folder.files["data/state.json"].clone();
    state.toggle(a);
    save(&mut folder, &store, &state).unwrap();
    assert_eq!(folder.files["data/state.json.bak"], first);
    assert!(!load(&folder, &store).state.is_enabled(a));
    assert_eq!(
        folder.actions[folder.actions.len() - 3..].to_vec(),
        vec!["CheckAfterCommit", "BackUp", "DropPrevious"]
    );
}

#[test]
fn failed_commit_restores_the_old_state() {
    let store = StateStore::new("data");
    let mut folder = Folder { files: HashMap::new(), fail_commit: false, actions: Vec::new() };
    let a = PlayerKey { high: 5, low: 6 };
    let mut state = PersistentState::default();
    state.toggle(a);
    save(&mut folder, &store, &state).unwrap();
    folder.fail_commit = true;
    state.toggle(a);
    let result = save(&mut folder, &store, &state);
    assert_eq!(
        result,
        Err("无法提交新状态文件 data/state.json：device busy".to_string())
    );
    let loaded = load(&folder, &store);
    assert!(loaded.state.is_enabled(a));
    assert_eq!(loaded.warning, None);
}

#[test]
fn serialization_failure_is_reported_before_touching_files() {
    let store = StateStore::new("data");
    let mut run = store.begin_save();
    run.advance(SaveEvent::Done);
    assert_eq!(run.stage(), SaveStage::Serialize);
    run.advance(SaveEvent::Failed("bad".to_string()));
    assert_eq!(run.stage(), SaveStage::FailedSave);
    match run.action() {
        SaveAction::Finish(Err(text)) => assert_eq!(text, "无法序列化玩家状态：bad"),
        _ => panic!("expected the save to end"),
    }
}
