use vstd::prelude::*;

use crate::state::{
    load_outcome, PersistentState, PersistentStateView, ReadOutcome, StateStore, StateStoreView,
    STATE_SCHEMA_VERSION,
};

verus! {

/// The stages of saving the player state. The new state is written to a temporary file,
/// the main file is moved aside to the previous file, the temporary file becomes the main
/// file, and the previous file becomes the backup; should the commit fail, the previous
/// file is moved back.
#[derive(Debug, Clone, Copy, PartialEq, Eq, Structural)]
pub enum SaveStage {
    CreateParent,
    Serialize,
    CreateTemporary,
    WriteTemporary,
    ClearPrevious,
    CheckMain,
    MoveAside,
    Commit,
    CheckBeforeRestore,
    Restore,
    CheckAfterCommit,
    BackUp,
    DropPrevious,
    Succeeded,
    FailedSave,
}

/// What the caller reports once it has performed an action.
pub enum SaveEvent {
    /// The action succeeded; for a presence check, the file is there.
    Done,
    /// The file the action concerns is not there: a presence check found nothing, or a
    /// removal found nothing to remove.
    Absent,
    /// The action failed; the text says why.
    Failed(String),
}

/// The kinds of event, without their texts.
#[derive(Debug, Clone, Copy, PartialEq, Eq, Structural)]
pub enum EventKind {
    Done,
    Absent,
    Failed,
}

/// The kind of an event.
pub open spec fn kind_of(event: SaveEvent) -> EventKind {
    match event {
        SaveEvent::Done => EventKind::Done,
        SaveEvent::Absent => EventKind::Absent,
        SaveEvent::Failed(_) => EventKind::Failed,
    }
}

/// What the caller is asked to do next.
pub enum SaveAction {
    /// Create the folder that holds the main file (report the whole error text on failure).
    CreateParent,
    /// Serialize the state to be saved.
    Serialize,
    /// Create or truncate this temporary file.
    CreateTemporary(String),
    /// Write the serialized state to this temporary file and sync it.
    WriteTemporary(String),
    /// Remove this leftover previous file, if there is one.
    ClearPrevious(String),
    /// Say whether this main file is there.
    CheckMain(String),
    /// Rename the main file to the previous file.
    MoveAside { from: String, to: String },
    /// Rename the temporary file to the main file.
    Commit { from: String, to: String },
    /// Say whether this previous file is there.
    CheckPrevious(String),
    /// Rename the previous file back to the main file; its outcome does not matter.
    Restore { from: String, to: String },
    /// Copy the previous file to the backup; a failure is only worth a warning.
    BackUp { from: String, to: String },
    /// Remove the previous file; a failure is only worth a warning.
    DropPrevious(String),
    /// The save is over, with this result.
    Finish(Result<(), String>),
}

/// The stage that follows a stage, given the kind of event reported for its action.
pub open spec fn next_stage(stage: SaveStage, kind: EventKind) -> SaveStage {
    match stage {
        SaveStage::CreateParent => if kind == EventKind::Failed {
            SaveStage::FailedSave
        } else {
            SaveStage::Serialize
        },
        SaveStage::Serialize => if kind == EventKind::Failed {
            SaveStage::FailedSave
        } else {
            SaveStage::CreateTemporary
        },
        SaveStage::CreateTemporary => if kind == EventKind::Failed {
            SaveStage::FailedSave
        } else {
            SaveStage::WriteTemporary
        },
        SaveStage::WriteTemporary => if kind == EventKind::Failed {
            SaveStage::FailedSave
        } else {
            SaveStage::ClearPrevious
        },
        SaveStage::ClearPrevious => if kind == EventKind::Failed {
            SaveStage::FailedSave
        } else {
            SaveStage::CheckMain
        },
        SaveStage::CheckMain => if kind == EventKind::Done {
            SaveStage::MoveAside
        } else {
            SaveStage::Commit
        },
        SaveStage::MoveAside => if kind == EventKind::Failed {
            SaveStage::FailedSave
        } else {
            SaveStage::Commit
        },
        SaveStage::Commit => if kind == EventKind::Failed {
            SaveStage::CheckBeforeRestore
        } else {
            SaveStage::CheckAfterCommit
        },
        SaveStage::CheckBeforeRestore => if kind == EventKind::Done {
            SaveStage::Restore
        } else {
            SaveStage::FailedSave
        },
        SaveStage::Restore => SaveStage::FailedSave,
        SaveStage::CheckAfterCommit => if kind == EventKind::Done {
            SaveStage::BackUp
        } else {
            SaveStage::Succeeded
        },
        SaveStage::BackUp => SaveStage::DropPrevious,
        SaveStage::DropPrevious => SaveStage::Succeeded,
        SaveStage::Succeeded => SaveStage::Succeeded,
        SaveStage::FailedSave => SaveStage::FailedSave,
    }
}

/// How many actions a stage is at most away from the end of a save.
pub open spec fn stage_rank(stage: SaveStage) -> nat {
    match stage {
        SaveStage::CreateParent => 13,
        SaveStage::Serialize => 12,
        SaveStage::CreateTemporary => 11,
        SaveStage::WriteTemporary => 10,
        SaveStage::ClearPrevious => 9,
        SaveStage::CheckMain => 8,
        SaveStage::MoveAside => 7,
        SaveStage::Commit => 6,
        SaveStage::CheckAfterCommit => 5,
        SaveStage::BackUp => 4,
        SaveStage::DropPrevious => 3,
        SaveStage::CheckBeforeRestore => 2,
        SaveStage::Restore => 1,
        SaveStage::Succeeded => 0,
        SaveStage::FailedSave => 0,
    }
}

/// Whether the save is over.
pub open spec fn is_final(stage: SaveStage) -> bool {
    stage == SaveStage::Succeeded || stage == SaveStage::FailedSave
}

/// The paths a save works on.
pub struct SavePaths {
    pub main: Seq<char>,
    pub previous: Seq<char>,
    pub backup: Seq<char>,
    pub temporary: Seq<char>,
}

/// The error a failed action of a stage is reported with, given the failure's own text.
pub open spec fn failure_text(stage: SaveStage, error: Seq<char>, paths: SavePaths) -> Seq<char> {
    match stage {
        SaveStage::Serialize => "无法序列化玩家状态："@ + error,
        SaveStage::CreateTemporary => "无法创建临时状态文件 "@ + paths.temporary + "："@ + error,
        SaveStage::WriteTemporary => "无法写入临时状态文件 "@ + paths.temporary + "："@ + error,
        SaveStage::ClearPrevious => "无法清理旧事务文件 "@ + paths.previous + "："@ + error,
        SaveStage::MoveAside => "无法把旧状态文件 "@ + paths.main + " 移入事务恢复位置："@ + error,
        SaveStage::Commit => "无法提交新状态文件 "@ + paths.main + "："@ + error,
        _ => error,
    }
}

/// Whether a failed action of the stage ends the save with an error of its own.
pub open spec fn reports_failure(stage: SaveStage) -> bool {
    match stage {
        SaveStage::CreateParent | SaveStage::Serialize | SaveStage::CreateTemporary
        | SaveStage::WriteTemporary | SaveStage::ClearPrevious | SaveStage::MoveAside
        | SaveStage::Commit => true,
        _ => false,
    }
}

/// A save under way.
pub struct SaveRun {
    main: String,
    previous: String,
    backup: String,
    temporary: String,
    stage: SaveStage,
    error: String,
}

/// A save under way as plain values.
pub struct SaveRunView {
    pub paths: SavePaths,
    pub stage: SaveStage,
    /// The error the save will end with, once one is known.
    pub error: Seq<char>,
}

impl View for SaveRun {
    type V = SaveRunView;

    closed spec fn view(&self) -> SaveRunView {
        SaveRunView {
            paths: SavePaths {
                main: self.main@,
                previous: self.previous@,
                backup: self.backup@,
                temporary: self.temporary@,
            },
            stage: self.stage,
            error: self.error@,
        }
    }
}

/// Whether an action is the one a save asks for at its stage.
pub open spec fn action_for(run: SaveRunView, action: SaveAction) -> bool {
    let p = run.paths;
    match run.stage {
        SaveStage::CreateParent => action is CreateParent,
        SaveStage::Serialize => action is Serialize,
        SaveStage::CreateTemporary => action matches SaveAction::CreateTemporary(t) && t@
            == p.temporary,
        SaveStage::WriteTemporary => action matches SaveAction::WriteTemporary(t) && t@
            == p.temporary,
        SaveStage::ClearPrevious => action matches SaveAction::ClearPrevious(t) && t@
            == p.previous,
        SaveStage::CheckMain => action matches SaveAction::CheckMain(t) && t@ == p.main,
        SaveStage::MoveAside => action matches SaveAction::MoveAside { from, to } && from@
            == p.main && to@ == p.previous,
        SaveStage::Commit => action matches SaveAction::Commit { from, to } && from@
            == p.temporary && to@ == p.main,
        SaveStage::CheckBeforeRestore => action matches SaveAction::CheckPrevious(t) && t@
            == p.previous,
        SaveStage::Restore => action matches SaveAction::Restore { from, to } && from@
            == p.previous && to@ == p.main,
        SaveStage::CheckAfterCommit => action matches SaveAction::CheckPrevious(t) && t@
            == p.previous,
        SaveStage::BackUp => action matches SaveAction::BackUp { from, to } && from@
            == p.previous && to@ == p.backup,
        SaveStage::DropPrevious => action matches SaveAction::DropPrevious(t) && t@
            == p.previous,
        SaveStage::Succeeded => action matches SaveAction::Finish(r) && r is Ok,
        SaveStage::FailedSave => action matches SaveAction::Finish(r) && r matches Err(e) && e@
            == run.error,
    }
}

impl StateStore {
    /// Starts saving: the temporary file is the main file's path with `.tmp` appended
    /// (the main file's extension `json` becomes `json.tmp`).
    pub fn begin_save(&self) -> (run: SaveRun)
        ensures
            run@.paths.main == self@.path,
            run@.paths.previous == self@.previous_path,
            run@.paths.backup == self@.backup_path,
            run@.paths.temporary == self@.path + ".tmp"@,
            run@.stage == SaveStage::CreateParent,
            run@.error == Seq::<char>::empty(),
    {
        let mut temporary = self.path().clone();
        temporary.append(".tmp");
        SaveRun {
            main: self.path().clone(),
            previous: self.previous_path().clone(),
            backup: self.backup_path().clone(),
            temporary,
            stage: SaveStage::CreateParent,
            error: String::new(),
        }
    }
}

/// `head`, then `middle`, then `separator`, then `tail`.
fn framed(head: &str, middle: &String, separator: &str, tail: &String) -> (text: String)
    ensures
        text@ == head@ + middle@ + separator@ + tail@,
{
    let mut text = String::from_str(head);
    text.append(middle.as_str());
    text.append(separator);
    text.append(tail.as_str());
    text
}

impl SaveRun {
    /// The stage the save is at.
    pub fn stage(&self) -> (stage: SaveStage)
        ensures
            stage == self@.stage,
    {
        self.stage
    }

    /// The action the save asks for at its stage.
    pub fn action(&self) -> (action: SaveAction)
        ensures
            action_for(self@, action),
    {
        match self.stage {
            SaveStage::CreateParent => SaveAction::CreateParent,
            SaveStage::Serialize => SaveAction::Serialize,
            SaveStage::CreateTemporary => SaveAction::CreateTemporary(self.temporary.clone()),
            SaveStage::WriteTemporary => SaveAction::WriteTemporary(self.temporary.clone()),
            SaveStage::ClearPrevious => SaveAction::ClearPrevious(self.previous.clone()),
            SaveStage::CheckMain => SaveAction::CheckMain(self.main.clone()),
            SaveStage::MoveAside => SaveAction::MoveAside {
                from: self.main.clone(),
                to: self.previous.clone(),
            },
            SaveStage::Commit => SaveAction::Commit {
                from: self.temporary.clone(),
                to: self.main.clone(),
            },
            SaveStage::CheckBeforeRestore => SaveAction::CheckPrevious(self.previous.clone()),
            SaveStage::Restore => SaveAction::Restore {
                from: self.previous.clone(),
                to: self.main.clone(),
            },
            SaveStage::CheckAfterCommit => SaveAction::CheckPrevious(self.previous.clone()),
            SaveStage::BackUp => SaveAction::BackUp {
                from: self.previous.clone(),
                to: self.backup.clone(),
            },
            SaveStage::DropPrevious => SaveAction::DropPrevious(self.previous.clone()),
            SaveStage::Succeeded => SaveAction::Finish(Ok(())),
            SaveStage::FailedSave => SaveAction::Finish(Err(self.error.clone())),
        }
    }

    /// Moves the save on, given what performing its action gave. Every move out of a
    /// stage that is not final brings the save closer to its end.
    pub fn advance(&mut self, event: SaveEvent)
        ensures
            final(self)@.paths == old(self)@.paths,
            final(self)@.stage == next_stage(old(self)@.stage, kind_of(event)),
            !is_final(old(self)@.stage) ==> stage_rank(final(self)@.stage) < stage_rank(
                old(self)@.stage,
            ),
            final(self)@.error == match event {
                SaveEvent::Failed(e) => if reports_failure(old(self)@.stage) {
                    failure_text(old(self)@.stage, e@, old(self)@.paths)
                } else {
                    old(self)@.error
                },
                _ => old(self)@.error,
            },
    {
        let stage = self.stage;
        match event {
            SaveEvent::Failed(e) => {
                match stage {
                    SaveStage::CreateParent => {
                        self.error = e;
                        self.stage = SaveStage::FailedSave;
                    },
                    SaveStage::Serialize => {
                        let mut text = String::from_str("无法序列化玩家状态：");
                        text.append(e.as_str());
                        self.error = text;
                        self.stage = SaveStage::FailedSave;
                    },
                    SaveStage::CreateTemporary => {
                        self.error = framed("无法创建临时状态文件 ", &self.temporary, "：", &e);
                        self.stage = SaveStage::FailedSave;
                    },
                    SaveStage::WriteTemporary => {
                        self.error = framed("无法写入临时状态文件 ", &self.temporary, "：", &e);
                        self.stage = SaveStage::FailedSave;
                    },
                    SaveStage::ClearPrevious => {
                        self.error = framed("无法清理旧事务文件 ", &self.previous, "：", &e);
                        self.stage = SaveStage::FailedSave;
                    },
                    SaveStage::MoveAside => {
                        self.error = framed("无法把旧状态文件 ", &self.main, " 移入事务恢复位置：", &e);
                        self.stage = SaveStage::FailedSave;
                    },
                    SaveStage::Commit => {
                        self.error = framed("无法提交新状态文件 ", &self.main, "：", &e);
                        self.stage = SaveStage::CheckBeforeRestore;
                    },
                    SaveStage::CheckMain => {
                        self.stage = SaveStage::Commit;
                    },
                    SaveStage::CheckBeforeRestore => {
                        self.stage = SaveStage::FailedSave;
                    },
                    SaveStage::Restore => {
                        self.stage = SaveStage::FailedSave;
                    },
                    SaveStage::CheckAfterCommit => {
                        self.stage = SaveStage::Succeeded;
                    },
                    SaveStage::BackUp => {
                        self.stage = SaveStage::DropPrevious;
                    },
                    SaveStage::DropPrevious => {
                        self.stage = SaveStage::Succeeded;
                    },
                    SaveStage::Succeeded => {},
                    SaveStage::FailedSave => {},
                }
            },
            SaveEvent::Done => {
                self.stage = match stage {
                    SaveStage::CreateParent => SaveStage::Serialize,
                    SaveStage::Serialize => SaveStage::CreateTemporary,
                    SaveStage::CreateTemporary => SaveStage::WriteTemporary,
                    SaveStage::WriteTemporary => SaveStage::ClearPrevious,
                    SaveStage::ClearPrevious => SaveStage::CheckMain,
                    SaveStage::CheckMain => SaveStage::MoveAside,
                    SaveStage::MoveAside => SaveStage::Commit,
                    SaveStage::Commit => SaveStage::CheckAfterCommit,
                    SaveStage::CheckBeforeRestore => SaveStage::Restore,
                    SaveStage::Restore => SaveStage::FailedSave,
                    SaveStage::CheckAfterCommit => SaveStage::BackUp,
                    SaveStage::BackUp => SaveStage::DropPrevious,
                    SaveStage::DropPrevious => SaveStage::Succeeded,
                    SaveStage::Succeeded => SaveStage::Succeeded,
                    SaveStage::FailedSave => SaveStage::FailedSave,
                };
            },
            SaveEvent::Absent => {
                self.stage = match stage {
                    SaveStage::CreateParent => SaveStage::Serialize,
                    SaveStage::Serialize => SaveStage::CreateTemporary,
                    SaveStage::CreateTemporary => SaveStage::WriteTemporary,
                    SaveStage::WriteTemporary => SaveStage::ClearPrevious,
                    SaveStage::ClearPrevious => SaveStage::CheckMain,
                    SaveStage::CheckMain => SaveStage::Commit,
                    SaveStage::MoveAside => SaveStage::Commit,
                    SaveStage::Commit => SaveStage::CheckAfterCommit,
                    SaveStage::CheckBeforeRestore => SaveStage::FailedSave,
                    SaveStage::Restore => SaveStage::FailedSave,
                    SaveStage::CheckAfterCommit => SaveStage::Succeeded,
                    SaveStage::BackUp => SaveStage::DropPrevious,
                    SaveStage::DropPrevious => SaveStage::Succeeded,
                    SaveStage::Succeeded => SaveStage::Succeeded,
                    SaveStage::FailedSave => SaveStage::FailedSave,
                };
            },
        }
    }
}


/// A save in which no action fails ends in success: from any stage short of a restore, an
/// outcome that is not a failure never leads towards a failed save.
pub proof fn lemma_unfailing_save_succeeds(stage: SaveStage, kind: EventKind)
    requires
        kind != EventKind::Failed,
        stage != SaveStage::CheckBeforeRestore,
        stage != SaveStage::Restore,
        stage != SaveStage::FailedSave,
    ensures
        next_stage(stage, kind) != SaveStage::FailedSave,
        next_stage(stage, kind) != SaveStage::CheckBeforeRestore,
        next_stage(stage, kind) != SaveStage::Restore,
{
}

/// Every save ends: each step out of a stage that is not final lowers the stage's rank.
pub proof fn lemma_save_terminates(stage: SaveStage, kind: EventKind)
    requires
        !is_final(stage),
    ensures
        stage_rank(next_stage(stage, kind)) < stage_rank(stage),
{
}

/// What one file of the data folder holds, in a model of the folder.
pub enum FileModel {
    Absent,
    /// Something that is not a readable state document (say, a half-written file).
    Junk,
    Holds(PersistentState),
}

/// The four files a save touches, in a model of the data folder.
pub struct FolderModel {
    pub main: FileModel,
    pub previous: FileModel,
    pub backup: FileModel,
    pub temporary: FileModel,
}

/// What reading a modelled file gives; `note` is the error text for junk.
pub open spec fn read_of(file: FileModel, note: String) -> ReadOutcome {
    match file {
        FileModel::Absent => ReadOutcome::Missing,
        FileModel::Junk => ReadOutcome::ParseFailed(note),
        FileModel::Holds(s) => ReadOutcome::Parsed(s),
    }
}

/// The state a load would start from with the folder as modelled; `None` means the default.
pub open spec fn recovered_state(store: StateStoreView, folder: FolderModel, note: String) -> Option<
    PersistentStateView,
> {
    load_outcome(
        store,
        read_of(folder.main, note),
        read_of(folder.previous, note),
        read_of(folder.backup, note),
    ).state
}

/// Whether a file is there.
pub open spec fn present(file: FileModel) -> bool {
    !(file is Absent)
}

/// Whether an event answers a presence check truthfully (other actions admit any event).
pub open spec fn truthful(stage: SaveStage, kind: EventKind, folder: FolderModel) -> bool {
    match stage {
        SaveStage::CheckMain => (kind == EventKind::Done) == present(folder.main),
        SaveStage::CheckBeforeRestore | SaveStage::CheckAfterCommit => (kind == EventKind::Done)
            == present(folder.previous),
        _ => true,
    }
}

/// The folder after a stage's action was performed with the given kind of outcome. A
/// rename or removal that fails changes nothing; a write or copy that fails may leave junk
/// at its target.
pub open spec fn after_action(
    stage: SaveStage,
    kind: EventKind,
    folder: FolderModel,
    new_state: PersistentState,
) -> FolderModel {
    let ok = kind != EventKind::Failed;
    match stage {
        SaveStage::CreateTemporary => FolderModel { temporary: FileModel::Junk, ..folder },
        SaveStage::WriteTemporary => if ok {
            FolderModel { temporary: FileModel::Holds(new_state), ..folder }
        } else {
            FolderModel { temporary: FileModel::Junk, ..folder }
        },
        SaveStage::ClearPrevious | SaveStage::DropPrevious => if ok {
            FolderModel { previous: FileModel::Absent, ..folder }
        } else {
            folder
        },
        SaveStage::MoveAside => if ok {
            FolderModel { main: FileModel::Absent, previous: folder.main, ..folder }
        } else {
            folder
        },
        SaveStage::Commit => if ok {
            FolderModel { main: folder.temporary, temporary: FileModel::Absent, ..folder }
        } else {
            folder
        },
        SaveStage::Restore => if ok {
            FolderModel { main: folder.previous, previous: FileModel::Absent, ..folder }
        } else {
            folder
        },
        SaveStage::BackUp => if ok {
            FolderModel { backup: folder.previous, ..folder }
        } else {
            FolderModel { backup: FileModel::Junk, ..folder }
        },
        _ => folder,
    }
}

/// What holds of the folder at each stage of a save that started with the old state in the
/// main file.
pub open spec fn save_safe(
    stage: SaveStage,
    folder: FolderModel,
    old_state: PersistentState,
    new_state: PersistentState,
) -> bool {
    let main_old = folder.main == FileModel::Holds(old_state);
    let aside = folder.main is Absent && folder.previous == FileModel::Holds(old_state);
    let main_new = folder.main == FileModel::Holds(new_state);
    let temp_new = folder.temporary == FileModel::Holds(new_state);
    match stage {
        SaveStage::CreateParent | SaveStage::Serialize | SaveStage::CreateTemporary
        | SaveStage::WriteTemporary => main_old,
        SaveStage::ClearPrevious => main_old && temp_new,
        SaveStage::CheckMain | SaveStage::MoveAside => main_old && temp_new && folder.previous is Absent,
        SaveStage::Commit => aside && temp_new,
        SaveStage::CheckBeforeRestore | SaveStage::Restore => aside,
        SaveStage::CheckAfterCommit | SaveStage::BackUp => main_new && folder.previous
            == FileModel::Holds(old_state),
        SaveStage::DropPrevious | SaveStage::Succeeded => main_new,
        SaveStage::FailedSave => main_old || aside,
    }
}

/// A save starts safe: with the old state in the main file, the first stage's condition holds.
pub proof fn lemma_save_starts_safe(
    folder: FolderModel,
    old_state: PersistentState,
    new_state: PersistentState,
)
    requires
        folder.main == FileModel::Holds(old_state),
    ensures
        save_safe(SaveStage::CreateParent, folder, old_state, new_state),
{
}

/// Every step of a save keeps it safe: whatever outcome the action has, as long as the
/// presence checks are answered truthfully, the next stage's condition holds of the folder
/// the action leaves.
pub proof fn lemma_save_step_safe(
    stage: SaveStage,
    kind: EventKind,
    folder: FolderModel,
    old_state: PersistentState,
    new_state: PersistentState,
)
    requires
        save_safe(stage, folder, old_state, new_state),
        truthful(stage, kind, folder),
    ensures
        save_safe(
            next_stage(stage, kind),
            after_action(stage, kind, folder, new_state),
            old_state,
            new_state,
        ),
{
}

/// A save never loses the player choices: at every stage (and so after an interruption at
/// any point), loading from the folder gives the old or the new state; a save that
/// succeeded leaves the new state to be loaded, and one that failed the old.
pub proof fn lemma_safe_folder_recovers(
    stage: SaveStage,
    folder: FolderModel,
    old_state: PersistentState,
    new_state: PersistentState,
    store: StateStoreView,
    note: String,
)
    requires
        save_safe(stage, folder, old_state, new_state),
        old_state@.schema_version == STATE_SCHEMA_VERSION,
        new_state@.schema_version == STATE_SCHEMA_VERSION,
    ensures
        recovered_state(store, folder, note) == Some(old_state@) || recovered_state(
            store,
            folder,
            note,
        ) == Some(new_state@),
        stage == SaveStage::Succeeded ==> recovered_state(store, folder, note) == Some(
            new_state@,
        ),
        stage == SaveStage::FailedSave ==> recovered_state(store, folder, note) == Some(
            old_state@,
        ),
{
    reveal_with_fuel(crate::state::load_from, 3);
    let outcomes = seq![
        read_of(folder.main, note),
        read_of(folder.previous, note),
        read_of(folder.backup, note),
    ];
    assert(outcomes[0] == read_of(folder.main, note));
    assert(outcomes[1] == read_of(folder.previous, note));
}

} // verus!
