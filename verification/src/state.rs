use vstd::prelude::*;

use crate::text::{chars_of, decimal, push_decimal, string_from_chars};

verus! {

/// The only state file schema version this plugin understands.
pub const STATE_SCHEMA_VERSION: u32 = 1;

/// A player's UUID, as its high and low 64 bits.
#[derive(Debug, Clone, Copy, PartialEq, Eq, PartialOrd, Ord, Hash, Structural)]
pub struct PlayerKey {
    pub high: u64,
    pub low: u64,
}

/// The persisted choice of every player: who has the bar switched on.
pub struct PersistentState {
    schema_version: u32,
    enabled_players: Vec<PlayerKey>,
}

/// A persisted state as plain values.
pub struct PersistentStateView {
    pub schema_version: u32,
    pub enabled: Set<PlayerKey>,
}

impl View for PersistentState {
    type V = PersistentStateView;

    closed spec fn view(&self) -> PersistentStateView {
        PersistentStateView {
            schema_version: self.schema_version,
            enabled: self.enabled_players@.to_set(),
        }
    }
}

/// The set of players with the bar on after `player` switches theirs over.
pub open spec fn toggled(enabled: Set<PlayerKey>, player: PlayerKey) -> Set<PlayerKey> {
    if enabled.contains(player) {
        enabled.remove(player)
    } else {
        enabled.insert(player)
    }
}

/// Switching a player's bar over twice gives back the set of players one started with; in
/// particular a toggle whose save failed, and was switched back, leaves the state as it was.
pub proof fn lemma_toggle_twice_restores(enabled: Set<PlayerKey>, player: PlayerKey)
    ensures
        toggled(toggled(enabled, player), player) == enabled,
{
    assert(toggled(toggled(enabled, player), player) =~= enabled);
}

/// Toggling flips the player's own choice and no one else's.
pub proof fn lemma_toggle_is_per_player(enabled: Set<PlayerKey>, player: PlayerKey, other: PlayerKey)
    ensures
        toggled(enabled, player).contains(player) == !enabled.contains(player),
        other != player ==> toggled(enabled, player).contains(other) == enabled.contains(other),
{
}

impl PersistentState {
    /// No player is listed twice.
    #[verifier::type_invariant]
    closed spec fn listed_once(self) -> bool {
        self.enabled_players@.no_duplicates()
    }

    /// A state of the given schema version in which exactly the listed players have the bar on.
    pub fn from_parts(schema_version: u32, players: Vec<PlayerKey>) -> (state: PersistentState)
        ensures
            state@.schema_version == schema_version,
            state@.enabled == players@.to_set(),
    {
        let mut listed: Vec<PlayerKey> = Vec::new();
        let mut k: usize = 0;
        while k < players.len()
            invariant
                k <= players@.len(),
                listed@.no_duplicates(),
                listed@.to_set() == players@.take(k as int).to_set(),
            decreases players@.len() - k,
        {
            let p = players[k];
            let ghost before_list = listed@;
            let found = position_of(&listed, p);
            if found.is_none() {
                listed.push(p);
            }
            proof {
                assert(players@.take(k + 1) =~= players@.take(k as int).push(p));
                lemma_push_to_set(players@.take(k as int), p);
                if found.is_none() {
                    lemma_push_to_set(before_list, p);
                } else {
                    assert(before_list.to_set().insert(p) =~= before_list.to_set());
                }
            }
            k = k + 1;
        }
        assert(players@.take(k as int) =~= players@);
        PersistentState { schema_version, enabled_players: listed }
    }

    /// The schema version this state was read with or is written with.
    pub fn schema_version(&self) -> (version: u32)
        ensures
            version == self@.schema_version,
    {
        self.schema_version
    }

    /// The players who have the bar on, each once.
    pub fn enabled_players(&self) -> (players: Vec<PlayerKey>)
        ensures
            players@.to_set() == self@.enabled,
            players@.no_duplicates(),
    {
        proof {
            use_type_invariant(self);
        }
        self.enabled_players.clone()
    }

    /// Whether the player has the bar on.
    pub fn is_enabled(&self, player: PlayerKey) -> (enabled: bool)
        ensures
            enabled == self@.enabled.contains(player),
    {
        let found = position_of(&self.enabled_players, player);
        proof {
            if found is None {
                assert(!self.enabled_players@.contains(player));
            } else {
                assert(self.enabled_players@.contains(player));
            }
        }
        found.is_some()
    }

    /// Switches the player's bar over and says whether it is now on.
    pub fn toggle(&mut self, player: PlayerKey) -> (enabled: bool)
        ensures
            enabled == !old(self)@.enabled.contains(player),
            final(self)@.schema_version == old(self)@.schema_version,
            final(self)@.enabled == toggled(old(self)@.enabled, player),
    {
        proof {
            use_type_invariant(&*self);
        }
        let ghost before = self.enabled_players@;
        match position_of(&self.enabled_players, player) {
            Some(i) => {
                let mut list: Vec<PlayerKey> = Vec::new();
                std::mem::swap(&mut list, &mut self.enabled_players);
                list.remove(i);
                proof {
                    let after = list@;
                    assert(after =~= before.remove(i as int));
                    assert forall|q: PlayerKey| after.contains(q) <==> (before.contains(q) && q != player) by {
                        if after.contains(q) {
                            let j = choose|j: int| 0 <= j < after.len() && after[j] == q;
                            if j < i {
                                assert(before[j] == q);
                            } else {
                                assert(before[j + 1] == q);
                            }
                        }
                        if before.contains(q) && q != player {
                            let j = choose|j: int| 0 <= j < before.len() && before[j] == q;
                            if j < i {
                                assert(after[j] == q);
                            } else {
                                assert(after[j - 1] == q);
                            }
                        }
                    }
                    assert(after.to_set() =~= before.to_set().remove(player));
                    assert(before.contains(player));
                    assert(after.no_duplicates()) by {
                        assert forall|a: int, b: int| 0 <= a < b < after.len() implies after[a] != after[b] by {
                            let a0 = if a < i { a } else { a + 1 };
                            let b0 = if b < i { b } else { b + 1 };
                            assert(after[a] == before[a0]);
                            assert(after[b] == before[b0]);
                        }
                    }
                }
                self.enabled_players = list;
                false
            },
            None => {
                let mut list: Vec<PlayerKey> = Vec::new();
                std::mem::swap(&mut list, &mut self.enabled_players);
                list.push(player);
                proof {
                    assert(list@ == before.push(player));
                    assert(list@.no_duplicates()) by {
                        assert forall|a: int, b: int| 0 <= a < b < list@.len() implies list@[a] != list@[b] by {
                            if b == before.len() {
                                assert(before.contains(before[a]));
                            }
                        }
                    }
                    lemma_push_to_set(before, player);
                    assert(!before.to_set().contains(player));
                }
                self.enabled_players = list;
                true
            },
        }
    }
}

proof fn lemma_push_to_set(s: Seq<PlayerKey>, p: PlayerKey)
    ensures
        s.push(p).to_set() == s.to_set().insert(p),
{
    assert forall|q: PlayerKey| #[trigger] s.push(p).to_set().contains(q) == s.to_set().insert(p).contains(q) by {
        if s.push(p).contains(q) {
            let j = choose|j: int| 0 <= j < s.push(p).len() && s.push(p)[j] == q;
            if j < s.len() {
                assert(s[j] == q);
            }
        }
        if s.contains(q) {
            let j = choose|j: int| 0 <= j < s.len() && s[j] == q;
            assert(s.push(p)[j] == q);
        }
        if q == p {
            assert(s.push(p)[s.len() as int] == q);
        }
    }
    assert(s.push(p).to_set() =~= s.to_set().insert(p));
}

/// The position of a player in a list, if listed.
fn position_of(players: &Vec<PlayerKey>, player: PlayerKey) -> (found: Option<usize>)
    ensures
        match found {
            Some(i) => i < players@.len() && players@[i as int] == player,
            None => !players@.contains(player),
        },
{
    let mut i: usize = 0;
    while i < players.len()
        invariant
            i <= players@.len(),
            forall|j: int| 0 <= j < i ==> players@[j] != player,
        decreases players@.len() - i,
    {
        if players[i].high == player.high && players[i].low == player.low {
            return Some(i);
        }
        i = i + 1;
    }
    None
}

impl Default for PersistentState {
    /// The state of a fresh install: current schema, nobody has the bar on.
    fn default() -> (state: Self)
        ensures
            state@.schema_version == STATE_SCHEMA_VERSION,
            state@.enabled == Set::<PlayerKey>::empty(),
    {
        let state = PersistentState { schema_version: STATE_SCHEMA_VERSION, enabled_players: Vec::new() };
        assert(state.enabled_players@.to_set() =~= Set::<PlayerKey>::empty());
        state
    }
}


/// `name` inside `folder`, joined as a Unix path: nothing is added to an empty folder or to
/// one that already ends in `/`.
pub open spec fn join_path(folder: Seq<char>, name: Seq<char>) -> Seq<char> {
    if folder.len() == 0 {
        name
    } else if folder.last() == '/' {
        folder + name
    } else {
        folder + seq!['/'] + name
    }
}

/// A joined path begins with the folder and ends with the name; between them stands a
/// single `/` that is added only where a non-empty folder does not already end in one.
pub proof fn lemma_join_path_shape(folder: Seq<char>, name: Seq<char>)
    ensures
        join_path(folder, name).take(folder.len() as int) == folder,
        join_path(folder, name).skip(join_path(folder, name).len() - name.len()) == name,
        folder.len() == 0 ==> join_path(folder, name) == name,
        folder.len() > 0 ==> join_path(folder, name)[join_path(folder, name).len() - name.len()
            - 1] == '/',
        folder.len() > 0 && folder.last() == '/' ==> join_path(folder, name).len() == folder.len()
            + name.len(),
        folder.len() > 0 && folder.last() != '/' ==> join_path(folder, name).len() == folder.len()
            + name.len() + 1,
{
    let j = join_path(folder, name);
    if folder.len() == 0 {
        assert(j.take(0) =~= folder);
        assert(j.skip(0) =~= name);
    } else if folder.last() == '/' {
        assert(j.take(folder.len() as int) =~= folder);
        assert(j.skip(folder.len() as int) =~= name);
        assert(j[folder.len() - 1] == folder.last());
    } else {
        assert(j.take(folder.len() as int) =~= folder);
        assert(j.skip(folder.len() as int + 1) =~= name);
        assert(j[folder.len() as int] == '/');
    }
}

/// `name` inside `folder`.
pub fn joined_path(folder: &str, name: &str) -> (path: String)
    ensures
        path@ == join_path(folder@, name@),
{
    let chars = chars_of(folder);
    if chars.len() == 0 {
        String::from_str(name)
    } else if chars[chars.len() - 1] == '/' {
        let mut path = String::from_str(folder);
        path.append(name);
        path
    } else {
        let mut path = String::from_str(folder);
        path.append("/");
        path.append(name);
        proof {
            reveal_strlit("/");
        }
        assert(path@ =~= folder@ + seq!['/'] + name@);
        path
    }
}

/// Where the player state is kept: the main file, the file that holds the previous state
/// while a save is under way, and the backup of the state before the last save.
#[derive(Debug, Clone)]
pub struct StateStore {
    path: String,
    previous_path: String,
    backup_path: String,
}

/// The three file paths of a state store.
pub struct StateStoreView {
    pub path: Seq<char>,
    pub previous_path: Seq<char>,
    pub backup_path: Seq<char>,
}

impl View for StateStore {
    type V = StateStoreView;

    closed spec fn view(&self) -> StateStoreView {
        StateStoreView {
            path: self.path@,
            previous_path: self.previous_path@,
            backup_path: self.backup_path@,
        }
    }
}

/// What reading one state file gave.
pub enum ReadOutcome {
    /// The file does not exist.
    Missing,
    /// The file could not be read; the text says why.
    ReadFailed(String),
    /// The file is not a valid state document; the text says why.
    ParseFailed(String),
    /// The file holds this state.
    Parsed(PersistentState),
}

/// What a state file yields: a state, nothing (no file), or the reason it is unusable.
pub open spec fn read_verdict(path: Seq<char>, outcome: ReadOutcome) -> Result<
    Option<PersistentStateView>,
    Seq<char>,
> {
    match outcome {
        ReadOutcome::Missing => Ok(None),
        ReadOutcome::ReadFailed(e) => Err("无法读取 "@ + path + "："@ + e@),
        ReadOutcome::ParseFailed(e) => Err("无法解析 "@ + path + "："@ + e@),
        ReadOutcome::Parsed(state) => if state@.schema_version != STATE_SCHEMA_VERSION {
            Err(path + " 使用不支持的 schema_version="@ + decimal(state@.schema_version as nat)
                + "（当前支持 1）"@)
        } else {
            Ok(Some(state@))
        },
    }
}

/// The plain value of a checked read.
pub open spec fn checked_view(r: Result<Option<PersistentState>, String>) -> Result<
    Option<PersistentStateView>,
    Seq<char>,
> {
    match r {
        Ok(Some(s)) => Ok(Some(s@)),
        Ok(None) => Ok(None),
        Err(e) => Err(e@),
    }
}

/// Turns what reading a state file gave into a state, nothing, or the reason it is unusable.
pub fn check_read(path: &String, outcome: ReadOutcome) -> (checked: Result<
    Option<PersistentState>,
    String,
>)
    ensures
        checked_view(checked) == read_verdict(path@, outcome),
{
    match outcome {
        ReadOutcome::Missing => Ok(None),
        ReadOutcome::ReadFailed(error) => {
            let mut text = String::from_str("无法读取 ");
            text.append(path.as_str());
            text.append("：");
            text.append(error.as_str());
            Err(text)
        },
        ReadOutcome::ParseFailed(error) => {
            let mut text = String::from_str("无法解析 ");
            text.append(path.as_str());
            text.append("：");
            text.append(error.as_str());
            Err(text)
        },
        ReadOutcome::Parsed(state) => {
            let version = state.schema_version();
            if version != STATE_SCHEMA_VERSION {
                let mut digits: Vec<char> = Vec::new();
                push_decimal(&mut digits, version as u64);
                let number = string_from_chars(&digits);
                let mut text = path.clone();
                text.append(" 使用不支持的 schema_version=");
                text.append(number.as_str());
                text.append("（当前支持 1）");
                Err(text)
            } else {
                Ok(Some(state))
            }
        },
    }
}

/// The state a load yields, with a warning for the operator where there is one.
pub struct StateLoadResult {
    pub state: PersistentState,
    pub warning: Option<String>,
}

/// A load's result as plain values; `state` is `None` where the default state is used.
pub struct LoadView {
    pub state: Option<PersistentStateView>,
    pub warning: Option<Seq<char>>,
}

/// The path of the `i`-th file that a load tries: main, previous, backup.
pub open spec fn candidate_path(store: StateStoreView, i: int) -> Seq<char> {
    if i == 0 {
        store.path
    } else if i == 1 {
        store.previous_path
    } else {
        store.backup_path
    }
}

/// How the `i`-th file that a load tries is named to the operator.
pub open spec fn candidate_label(i: int) -> Seq<char> {
    if i == 0 {
        "主状态文件"@
    } else if i == 1 {
        "事务恢复文件"@
    } else {
        "备份状态文件"@
    }
}

/// The warning given when a state was recovered from a file other than the main one.
pub open spec fn recovered_warning(label: Seq<char>, path: Seq<char>) -> Seq<char> {
    label + " "@ + path + " 已用于恢复玩家状态；下次切换时会写回主文件"@
}

/// `texts` joined by `separator`.
pub open spec fn join_texts(texts: Seq<Seq<char>>, separator: Seq<char>) -> Seq<char>
    decreases texts.len(),
{
    if texts.len() == 0 {
        Seq::empty()
    } else if texts.len() == 1 {
        texts[0]
    } else {
        join_texts(texts.drop_last(), separator) + separator + texts.last()
    }
}

/// The warning given when no file yields a state: `None` where none was unusable, else the
/// reasons, in the order the files were tried.
pub open spec fn fallback_warning(errors: Seq<Seq<char>>) -> Option<Seq<char>> {
    if errors.len() == 0 {
        None
    } else {
        Some("没有可用的玩家状态文件，将使用默认关闭状态："@ + join_texts(errors, "；"@))
    }
}

/// The outcome of a load that tries the files from the `i`-th on, after the given reasons
/// were collected: the first file that yields a state wins; the default state with a
/// warning that lists the reasons is used where none does.
pub open spec fn load_from(
    store: StateStoreView,
    outcomes: Seq<ReadOutcome>,
    i: int,
    errors: Seq<Seq<char>>,
) -> LoadView
    decreases 3 - i,
{
    if i >= 3 || i < 0 {
        LoadView { state: None, warning: fallback_warning(errors) }
    } else {
        match read_verdict(candidate_path(store, i), outcomes[i]) {
            Ok(Some(state)) => LoadView {
                state: Some(state),
                warning: if candidate_path(store, i) == store.path {
                    None
                } else {
                    Some(recovered_warning(candidate_label(i), candidate_path(store, i)))
                },
            },
            Ok(None) => load_from(store, outcomes, i + 1, errors),
            Err(e) => load_from(store, outcomes, i + 1, errors.push(e)),
        }
    }
}

/// The outcome of loading from the three files, given what reading each gave.
pub open spec fn load_outcome(
    store: StateStoreView,
    main: ReadOutcome,
    previous: ReadOutcome,
    backup: ReadOutcome,
) -> LoadView {
    load_from(store, seq![main, previous, backup], 0, Seq::empty())
}

/// Whether reading a file gave a state of the current schema.
pub open spec fn holds_current_state(outcome: ReadOutcome) -> bool {
    outcome matches ReadOutcome::Parsed(x) && x@.schema_version == STATE_SCHEMA_VERSION
}

/// A load takes the main file's state where it holds one of the current schema, without a
/// warning; else the previous file's; else the backup's; else the default. A state of
/// another schema version is never taken, and three missing files give no warning.
pub proof fn lemma_load_recovery_order(
    store: StateStoreView,
    main: ReadOutcome,
    previous: ReadOutcome,
    backup: ReadOutcome,
)
    ensures
        holds_current_state(main) ==> load_outcome(store, main, previous, backup).state == Some(
            main->Parsed_0@,
        ) && load_outcome(store, main, previous, backup).warning is None,
        !holds_current_state(main) && holds_current_state(previous) ==> load_outcome(
            store,
            main,
            previous,
            backup,
        ).state == Some(previous->Parsed_0@),
        !holds_current_state(main) && !holds_current_state(previous) && holds_current_state(backup)
            ==> load_outcome(store, main, previous, backup).state == Some(backup->Parsed_0@),
        !holds_current_state(main) && !holds_current_state(previous) && !holds_current_state(
            backup,
        ) ==> load_outcome(store, main, previous, backup).state is None,
        main is Missing && previous is Missing && backup is Missing ==> load_outcome(
            store,
            main,
            previous,
            backup,
        ) == (LoadView { state: None, warning: None }),
{
    reveal_with_fuel(load_from, 4);
    let outcomes = seq![main, previous, backup];
    assert(outcomes[0] == main && outcomes[1] == previous && outcomes[2] == backup);
    let e0 = Seq::<Seq<char>>::empty();
    let a = read_verdict(store.path, main);
    let b = read_verdict(store.previous_path, previous);
    let c = read_verdict(store.backup_path, backup);
    assert(holds_current_state(main) <==> (a matches Ok(Some(_))));
    assert(holds_current_state(previous) <==> (b matches Ok(Some(_))));
    assert(holds_current_state(backup) <==> (c matches Ok(Some(_))));
}

/// The plain texts of a list of strings.
pub open spec fn texts_view(texts: Seq<String>) -> Seq<Seq<char>> {
    texts.map_values(|t: String| t@)
}

/// `texts` joined by `separator`.
fn joined_texts(texts: &Vec<String>, separator: &str) -> (joined: String)
    ensures
        joined@ == join_texts(texts_view(texts@), separator@),
{
    let mut joined = String::new();
    let mut k: usize = 0;
    while k < texts.len()
        invariant
            k <= texts@.len(),
            joined@ == join_texts(texts_view(texts@.take(k as int)), separator@),
        decreases texts@.len() - k,
    {
        let ghost before = texts_view(texts@.take(k as int));
        if k > 0 {
            joined.append(separator);
        }
        joined.append(texts[k].as_str());
        k = k + 1;
        proof {
            let now = texts_view(texts@.take(k as int));
            assert(now.drop_last() =~= before);
            assert(now.last() == texts@[k - 1]@);
            if k == 1 {
                assert(joined@ =~= now[0]);
            }
        }
    }
    assert(texts@.take(k as int) =~= texts@);
    joined
}

impl StateStore {
    /// The store in a plugin data folder: `state.json`, `state.json.previous` and
    /// `state.json.bak` in it.
    pub fn new(data_folder: &str) -> (store: StateStore)
        ensures
            store@.path == join_path(data_folder@, "state.json"@),
            store@.previous_path == join_path(data_folder@, "state.json.previous"@),
            store@.backup_path == join_path(data_folder@, "state.json.bak"@),
    {
        StateStore {
            path: joined_path(data_folder, "state.json"),
            previous_path: joined_path(data_folder, "state.json.previous"),
            backup_path: joined_path(data_folder, "state.json.bak"),
        }
    }

    /// The main state file.
    pub fn path(&self) -> (path: &String)
        ensures
            path@ == self@.path,
    {
        &self.path
    }

    /// The file that holds the previous state while a save is under way.
    pub fn previous_path(&self) -> (path: &String)
        ensures
            path@ == self@.previous_path,
    {
        &self.previous_path
    }

    /// The backup of the state before the last save.
    pub fn backup_path(&self) -> (path: &String)
        ensures
            path@ == self@.backup_path,
    {
        &self.backup_path
    }

    /// The state to start with, given what reading the main, previous and backup files
    /// gave: the first of them that holds a state of the current schema, with a warning
    /// where it is not the main file; else the default state, with a warning that lists
    /// the reasons where any file was unusable.
    pub fn load(&self, main: ReadOutcome, previous: ReadOutcome, backup: ReadOutcome) -> (loaded:
        StateLoadResult)
        ensures
            ({
                let expected = load_outcome(self@, main, previous, backup);
                &&& loaded.warning.is_some() == expected.warning.is_some()
                &&& expected.warning matches Some(w) ==> loaded.warning.unwrap()@ == w
                &&& expected.state matches Some(s) ==> loaded.state@ == s
                &&& expected.state is None ==> loaded.state@.schema_version
                    == STATE_SCHEMA_VERSION && loaded.state@.enabled.is_empty()
            }),
    {
        let ghost outcomes = seq![main, previous, backup];
        let ghost store = self@;
        let mut errors: Vec<String> = Vec::new();
        match check_read(&self.path, main) {
            Ok(Some(state)) => {
                return StateLoadResult { state, warning: None };
            },
            Ok(None) => {},
            Err(e) => {
                errors.push(e);
            },
        }
        assert(load_from(store, outcomes, 0, Seq::empty()) == load_from(
            store,
            outcomes,
            1,
            texts_view(errors@),
        )) by {
            assert(outcomes[0] == main);
            assert(texts_view(errors@) =~= if errors@.len() == 0 {
                Seq::<Seq<char>>::empty()
            } else {
                Seq::<Seq<char>>::empty().push(errors@[0]@)
            });
        }
        let ghost errors1 = texts_view(errors@);
        match check_read(&self.previous_path, previous) {
            Ok(Some(state)) => {
                return self.recovered(state, &self.previous_path, "事务恢复文件");
            },
            Ok(None) => {},
            Err(e) => {
                errors.push(e);
            },
        }
        assert(load_from(store, outcomes, 1, errors1) == load_from(
            store,
            outcomes,
            2,
            texts_view(errors@),
        )) by {
            assert(outcomes[1] == previous);
            assert(texts_view(errors@) =~= if errors@.len() == errors1.len() {
                errors1
            } else {
                errors1.push(errors@.last()@)
            });
        }
        let ghost errors2 = texts_view(errors@);
        match check_read(&self.backup_path, backup) {
            Ok(Some(state)) => {
                return self.recovered(state, &self.backup_path, "备份状态文件");
            },
            Ok(None) => {},
            Err(e) => {
                errors.push(e);
            },
        }
        assert(load_from(store, outcomes, 2, errors2) == load_from(
            store,
            outcomes,
            3,
            texts_view(errors@),
        )) by {
            assert(outcomes[2] == backup);
            assert(texts_view(errors@) =~= if errors@.len() == errors2.len() {
                errors2
            } else {
                errors2.push(errors@.last()@)
            });
        }
        let warning = if errors.len() == 0 {
            None
        } else {
            let mut text = String::from_str("没有可用的玩家状态文件，将使用默认关闭状态：");
            let joined = joined_texts(&errors, "；");
            text.append(joined.as_str());
            Some(text)
        };
        StateLoadResult { state: PersistentState::default(), warning }
    }

    /// The result of recovering a state from a file other than the main one.
    fn recovered(&self, state: PersistentState, path: &String, label: &str) -> (loaded:
        StateLoadResult)
        ensures
            loaded.state@ == state@,
            loaded.warning.is_some() == (path@ != self@.path),
            path@ != self@.path ==> loaded.warning.unwrap()@ == recovered_warning(label@, path@),
    {
        if *path == self.path {
            StateLoadResult { state, warning: None }
        } else {
            let mut text = String::from_str(label);
            text.append(" ");
            text.append(path.as_str());
            text.append(" 已用于恢复玩家状态；下次切换时会写回主文件");
            StateLoadResult { state, warning: Some(text) }
        }
    }
}

} // verus!
