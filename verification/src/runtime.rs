use vstd::prelude::*;

use crate::config::{metric_label, BarMetric};
use crate::display::TextColor;
use crate::metrics::Severity;
use crate::i18n::{localized_text, Localizer, LocalizerView};
use crate::state::{toggled, PersistentState, PlayerKey};

verus! {

/// The permission node that grants the toggle and metric commands.
pub const PERMISSION_NODE: &'static str = "tpsbar:command.toggle";

/// The first half of a toggle command: refused, answered, or a state to be saved.
pub enum ToggleStart {
    /// The sender lacks the permission.
    Denied,
    /// The sender is not a player; the message says so.
    PlayerOnly(String),
    /// The player's choice was switched over and must now be saved.
    Save { player: PlayerKey, enabled: bool },
}

/// The message shown to a non-player who tries to toggle.
pub open spec fn player_only_text(l: LocalizerView, fallback: Seq<char>) -> Seq<char> {
    localized_text(l, fallback, fallback, "error.player_only"@, Seq::empty())
}

/// A non-player is answered with `error.player_only` in the fallback locale, with nothing
/// filled in.
pub proof fn lemma_player_only_uses_fallback(l: LocalizerView, fallback: Seq<char>)
    ensures
        player_only_text(l, fallback) == localized_text(
            l,
            fallback,
            fallback,
            "error.player_only"@,
            Seq::empty(),
        ),
{
}

/// Starts a toggle command: checks the permission and the sender, and switches the
/// player's choice over, which the caller must then save.
pub fn begin_toggle(
    state: &mut PersistentState,
    localizer: &Localizer,
    fallback_locale: &str,
    has_permission: bool,
    player: Option<PlayerKey>,
) -> (start: ToggleStart)
    ensures
        !has_permission ==> start is Denied && final(state)@ == old(state)@,
        has_permission && player is None ==> final(state)@ == old(state)@ && match start {
            ToggleStart::PlayerOnly(message) => message@ == player_only_text(
                localizer@,
                fallback_locale@,
            ),
            _ => false,
        },
        has_permission && player is Some ==> final(state)@.schema_version == old(
            state,
        )@.schema_version && final(state)@.enabled == toggled(old(state)@.enabled, player.unwrap())
            && start == (ToggleStart::Save {
            player: player.unwrap(),
            enabled: !old(state)@.enabled.contains(player.unwrap()),
        }),
{
    if !has_permission {
        return ToggleStart::Denied;
    }
    match player {
        None => {
            let empty: [(&str, &str); 0] = [];
            let message = localizer.message(
                fallback_locale,
                fallback_locale,
                "error.player_only",
                &empty,
            );
            proof {
                assert(crate::i18n::replacements_view(empty@) =~= Seq::empty());
            }
            ToggleStart::PlayerOnly(message)
        },
        Some(key) => {
            let enabled = state.toggle(key);
            ToggleStart::Save { player: key, enabled }
        },
    }
}

/// How a toggle command ends.
pub enum ToggleReply {
    /// The choice could not be saved and was switched back; the message says why.
    Failed(String),
    /// The choice was saved.
    Done { enabled: bool, message: String, color: TextColor, code: i32 },
}

/// The key of the message that confirms a toggle.
pub open spec fn toggle_message_key(enabled: bool) -> Seq<char> {
    if enabled {
        "command.enabled"@
    } else {
        "command.disabled"@
    }
}

/// Ends a toggle command once the save was tried: a failed save switches the choice back
/// and reports the error; a successful one confirms the new choice.
pub fn finish_toggle(
    state: &mut PersistentState,
    localizer: &Localizer,
    locale: &str,
    fallback_locale: &str,
    player: PlayerKey,
    enabled: bool,
    saved: Result<(), String>,
) -> (reply: ToggleReply)
    ensures
        saved is Ok ==> final(state)@ == old(state)@ && reply == (ToggleReply::Done {
            enabled,
            message: reply->message,
            color: if enabled {
                TextColor::Green
            } else {
                TextColor::Gray
            },
            code: if enabled {
                1i32
            } else {
                0i32
            },
        }) && reply->message@ == localized_text(
            localizer@,
            locale@,
            fallback_locale@,
            toggle_message_key(enabled),
            Seq::empty(),
        ),
        saved matches Err(error) ==> final(state)@.schema_version == old(state)@.schema_version
            && final(state)@.enabled == toggled(old(state)@.enabled, player) && match reply {
            ToggleReply::Failed(message) => message@ == localized_text(
                localizer@,
                locale@,
                fallback_locale@,
                "error.state_save"@,
                seq![("error"@, error@)],
            ),
            _ => false,
        },
{
    match saved {
        Ok(()) => {
            let empty: [(&str, &str); 0] = [];
            proof {
                assert(crate::i18n::replacements_view(empty@) =~= Seq::empty());
            }
            if enabled {
                let message = localizer.message(locale, fallback_locale, "command.enabled", &empty);
                ToggleReply::Done { enabled, message, color: TextColor::Green, code: 1 }
            } else {
                let message = localizer.message(locale, fallback_locale, "command.disabled", &empty);
                ToggleReply::Done { enabled, message, color: TextColor::Gray, code: 0 }
            }
        },
        Err(error) => {
            let _ = state.toggle(player);
            let replacements: [(&str, &str); 1] = [("error", error.as_str())];
            let message = localizer.message(
                locale,
                fallback_locale,
                "error.state_save",
                &replacements,
            );
            proof {
                assert(crate::i18n::replacements_view(replacements@) =~= seq![("error"@, error@)]);
            }
            ToggleReply::Failed(message)
        },
    }
}

/// How a metric command ends.
pub enum MetricReply {
    /// The sender lacks the permission.
    Denied,
    /// The metric was set; the message confirms it.
    Applied(String),
}

/// The locale a metric command answers in: the player's, or English for the console.
pub open spec fn sender_locale(player_locale: Option<&str>) -> Seq<char> {
    match player_locale {
        Some(l) => l@,
        None => "en_us"@,
    }
}

/// A player is answered in the player's own locale; only a sender that is not a player is
/// answered in English.
pub proof fn lemma_metric_answer_locale(player_locale: &str)
    ensures
        sender_locale(Some(player_locale)) == player_locale@,
        sender_locale(None) == "en_us"@,
{
}

/// A toggle that switches the bar on is confirmed with `command.enabled`, one that switches
/// it off with `command.disabled`.
pub proof fn lemma_toggle_confirmation_key(enabled: bool)
    ensures
        enabled ==> toggle_message_key(enabled) == "command.enabled"@,
        !enabled ==> toggle_message_key(enabled) == "command.disabled"@,
{
}

/// Sets the metric that fills the boss bar, for a sender with the permission.
pub fn set_bar_metric(
    current: &mut BarMetric,
    localizer: &Localizer,
    player_locale: Option<&str>,
    fallback_locale: &str,
    metric: BarMetric,
    has_permission: bool,
) -> (reply: MetricReply)
    ensures
        !has_permission ==> reply is Denied && *final(current) == *old(current),
        has_permission ==> *final(current) == metric && match reply {
            MetricReply::Applied(message) => message@ == localized_text(
                localizer@,
                sender_locale(player_locale),
                fallback_locale@,
                "command.metric_set"@,
                seq![("metric"@, metric_label(metric))],
            ),
            _ => false,
        },
        has_permission && player_locale is Some ==> (reply matches MetricReply::Applied(message)
            && message@ == localized_text(
            localizer@,
            player_locale.unwrap()@,
            fallback_locale@,
            "command.metric_set"@,
            seq![("metric"@, metric_label(metric))],
        )),
        has_permission && player_locale is None ==> (reply matches MetricReply::Applied(message)
            && message@ == localized_text(
            localizer@,
            "en_us"@,
            fallback_locale@,
            "command.metric_set"@,
            seq![("metric"@, metric_label(metric))],
        )),
{
    if !has_permission {
        return MetricReply::Denied;
    }
    let locale: &str = match player_locale {
        Some(l) => l,
        None => "en_us",
    };
    *current = metric;
    let replacements: [(&str, &str); 1] = [("metric", metric.label())];
    let message = localizer.message(locale, fallback_locale, "command.metric_set", &replacements);
    proof {
        assert(crate::i18n::replacements_view(replacements@) =~= seq![("metric"@, metric_label(metric))]);
    }
    MetricReply::Applied(message)
}


/// A boss bar and the severity it was last colored for, kept for one player.
pub struct BarEntry<B> {
    key: PlayerKey,
    severity: Severity,
    bar: B,
}

/// The boss bars shown, at most one per player.
pub struct BarBook<B> {
    entries: Vec<BarEntry<B>>,
}

/// No player has two entries.
spec fn keys_distinct<B>(entries: Seq<BarEntry<B>>) -> bool {
    forall|i: int, j: int|
        0 <= i < entries.len() && 0 <= j < entries.len() && i != j ==> entries[i].key
            != entries[j].key
}

/// Whether some entry belongs to the player.
spec fn has_key<B>(entries: Seq<BarEntry<B>>, key: PlayerKey) -> bool {
    exists|i: int| 0 <= i < entries.len() && #[trigger] entries[i].key == key
}

/// The player's entry as a (severity, bar) pair.
spec fn entry_of<B>(entries: Seq<BarEntry<B>>, key: PlayerKey) -> (Severity, B) {
    let i = choose|i: int| 0 <= i < entries.len() && #[trigger] entries[i].key == key;
    (entries[i].severity, entries[i].bar)
}

/// The entries as a map from player to (severity, bar).
spec fn book_view<B>(entries: Seq<BarEntry<B>>) -> Map<PlayerKey, (Severity, B)> {
    Map::new(|k: PlayerKey| has_key(entries, k), |k: PlayerKey| entry_of(entries, k))
}

proof fn lemma_value_at<B>(entries: Seq<BarEntry<B>>, i: int)
    requires
        keys_distinct(entries),
        0 <= i < entries.len(),
    ensures
        book_view(entries).dom().contains(entries[i].key),
        book_view(entries)[entries[i].key] == (entries[i].severity, entries[i].bar),
{
    let key = entries[i].key;
    assert(has_key(entries, key));
    let j = choose|j: int| 0 <= j < entries.len() && #[trigger] entries[j].key == key;
    assert(j == i);
}

proof fn lemma_view_remove<B>(entries: Seq<BarEntry<B>>, i: int)
    requires
        keys_distinct(entries),
        0 <= i < entries.len(),
    ensures
        keys_distinct(entries.remove(i)),
        book_view(entries.remove(i)) == book_view(entries).remove(entries[i].key),
{
    let after = entries.remove(i);
    let gone = entries[i].key;
    assert(keys_distinct(after)) by {
        assert forall|a: int, b: int|
            0 <= a < after.len() && 0 <= b < after.len() && a != b implies after[a].key
            != after[b].key by {
            let a0 = if a < i { a } else { a + 1 };
            let b0 = if b < i { b } else { b + 1 };
            assert(after[a] == entries[a0]);
            assert(after[b] == entries[b0]);
        }
    }
    assert forall|k: PlayerKey| #[trigger] has_key(after, k) <==> (has_key(entries, k) && k != gone) by {
        if has_key(after, k) {
            let j = choose|j: int| 0 <= j < after.len() && #[trigger] after[j].key == k;
            let j0 = if j < i { j } else { j + 1 };
            assert(after[j] == entries[j0]);
            assert(entries[j0].key == k);
        }
        if has_key(entries, k) && k != gone {
            let j = choose|j: int| 0 <= j < entries.len() && #[trigger] entries[j].key == k;
            assert(j != i);
            let j1 = if j < i { j } else { j - 1 };
            assert(after[j1] == entries[j]);
            assert(after[j1].key == k);
        }
    }
    assert forall|k: PlayerKey| has_key(after, k) implies #[trigger] entry_of(after, k) == entry_of(
        entries,
        k,
    ) by {
        let j = choose|j: int| 0 <= j < after.len() && #[trigger] after[j].key == k;
        let j0 = if j < i { j } else { j + 1 };
        assert(after[j] == entries[j0]);
        lemma_value_at(after, j);
        lemma_value_at(entries, j0);
    }
    assert(book_view(after) =~= book_view(entries).remove(gone));
}

proof fn lemma_view_push<B>(entries: Seq<BarEntry<B>>, e: BarEntry<B>)
    requires
        keys_distinct(entries),
        !has_key(entries, e.key),
    ensures
        keys_distinct(entries.push(e)),
        book_view(entries.push(e)) == book_view(entries).insert(e.key, (e.severity, e.bar)),
{
    let after = entries.push(e);
    assert(keys_distinct(after)) by {
        assert forall|a: int, b: int|
            0 <= a < after.len() && 0 <= b < after.len() && a != b implies after[a].key
            != after[b].key by {
            if a == entries.len() {
                assert(entries[b].key == after[b].key);
            } else if b == entries.len() {
                assert(entries[a].key == after[a].key);
            } else {
                assert(after[a] == entries[a]);
                assert(after[b] == entries[b]);
            }
        }
    }
    assert forall|k: PlayerKey| #[trigger] has_key(after, k) <==> (has_key(entries, k) || k == e.key) by {
        if has_key(after, k) {
            let j = choose|j: int| 0 <= j < after.len() && #[trigger] after[j].key == k;
            if j < entries.len() {
                assert(after[j] == entries[j]);
            }
        }
        if has_key(entries, k) {
            let j = choose|j: int| 0 <= j < entries.len() && #[trigger] entries[j].key == k;
            assert(after[j] == entries[j]);
        }
        if k == e.key {
            assert(after[entries.len() as int].key == k);
        }
    }
    assert forall|k: PlayerKey| has_key(after, k) implies #[trigger] entry_of(after, k) == (if k
        == e.key {
        (e.severity, e.bar)
    } else {
        entry_of(entries, k)
    }) by {
        let j = choose|j: int| 0 <= j < after.len() && #[trigger] after[j].key == k;
        lemma_value_at(after, j);
        if j < entries.len() {
            assert(after[j] == entries[j]);
            lemma_value_at(entries, j);
        }
    }
    assert(book_view(after) =~= book_view(entries).insert(e.key, (e.severity, e.bar)));
}

/// What to do with a player's boss bar on a refresh.
pub enum RefreshPlan<B> {
    /// The player does not see a bar (any more); this is the bar taken away, if there was one.
    Hide(Option<B>),
    /// The player's bar stays; `recolor` says whether its severity changed.
    Update { recolor: bool },
    /// The player sees a bar but has none yet: create one and record it.
    Create,
}

impl<B> BarBook<B> {
    /// No player has two entries.
    #[verifier::type_invariant]
    closed spec fn one_per_player(self) -> bool {
        keys_distinct(self.entries@)
    }

    /// The bars, by player, with the severity each was last colored for.
    pub closed spec fn view(&self) -> Map<PlayerKey, (Severity, B)> {
        book_view(self.entries@)
    }

    /// An empty book.
    pub fn new() -> (book: BarBook<B>)
        ensures
            book.view() == Map::<PlayerKey, (Severity, B)>::empty(),
    {
        let book = BarBook { entries: Vec::new() };
        assert(book.view() =~= Map::<PlayerKey, (Severity, B)>::empty());
        book
    }

    fn find(&self, key: PlayerKey) -> (found: Option<usize>)
        ensures
            match found {
                Some(i) => i < self.entries@.len() && self.entries@[i as int].key == key,
                None => !has_key(self.entries@, key),
            },
    {
        let mut i: usize = 0;
        while i < self.entries.len()
            invariant
                i <= self.entries@.len(),
                forall|j: int| 0 <= j < i ==> self.entries@[j].key != key,
            decreases self.entries@.len() - i,
        {
            if self.entries[i].key.high == key.high && self.entries[i].key.low == key.low {
                return Some(i);
            }
            i = i + 1;
        }
        None
    }

    /// The player's bar, if there is one.
    pub fn bar(&self, key: PlayerKey) -> (bar: Option<&B>)
        ensures
            match bar {
                Some(b) => self.view().dom().contains(key) && *b == self.view()[key].1,
                None => !self.view().dom().contains(key),
            },
    {
        proof {
            use_type_invariant(self);
        }
        match self.find(key) {
            Some(i) => {
                proof {
                    lemma_value_at(self.entries@, i as int);
                }
                Some(&self.entries[i].bar)
            },
            None => None,
        }
    }

    /// The severity the player's bar was last colored for, if there is a bar.
    pub fn severity(&self, key: PlayerKey) -> (severity: Option<Severity>)
        ensures
            match severity {
                Some(s) => self.view().dom().contains(key) && s == self.view()[key].0,
                None => !self.view().dom().contains(key),
            },
    {
        proof {
            use_type_invariant(self);
        }
        match self.find(key) {
            Some(i) => {
                proof {
                    lemma_value_at(self.entries@, i as int);
                }
                Some(self.entries[i].severity)
            },
            None => None,
        }
    }

    /// Takes the player's bar away, if there is one.
    pub fn remove(&mut self, key: PlayerKey) -> (removed: Option<B>)
        ensures
            final(self).view() == old(self).view().remove(key),
            match removed {
                Some(b) => old(self).view().dom().contains(key) && b == old(self).view()[key].1,
                None => !old(self).view().dom().contains(key),
            },
    {
        proof {
            use_type_invariant(&*self);
        }
        match self.find(key) {
            Some(i) => {
                let mut list: Vec<BarEntry<B>> = Vec::new();
                std::mem::swap(&mut list, &mut self.entries);
                let ghost before = list@;
                proof {
                    lemma_value_at(before, i as int);
                    lemma_view_remove(before, i as int);
                }
                let entry = list.remove(i);
                self.entries = list;
                Some(entry.bar)
            },
            None => {
                assert(old(self).view().remove(key) =~= old(self).view());
                None
            },
        }
    }

    /// Records the player's bar and the severity it was colored for; gives back the bar it
    /// replaces, if any.
    pub fn insert(&mut self, key: PlayerKey, severity: Severity, bar: B) -> (replaced: Option<B>)
        ensures
            final(self).view() == old(self).view().insert(key, (severity, bar)),
            match replaced {
                Some(b) => old(self).view().dom().contains(key) && b == old(self).view()[key].1,
                None => !old(self).view().dom().contains(key),
            },
    {
        let replaced = self.remove(key);
        proof {
            use_type_invariant(&*self);
        }
        let mut list: Vec<BarEntry<B>> = Vec::new();
        std::mem::swap(&mut list, &mut self.entries);
        let entry = BarEntry { key, severity, bar };
        proof {
            assert(!book_view(list@).dom().contains(key));
            lemma_view_push(list@, entry);
        }
        list.push(entry);
        self.entries = list;
        assert(old(self).view().remove(key).insert(key, (severity, bar)) =~= old(self).view().insert(
            key,
            (severity, bar),
        ));
        replaced
    }

    /// Records a new severity for the player's existing bar; says whether it differs from
    /// the one recorded.
    fn recolor(&mut self, key: PlayerKey, severity: Severity) -> (changed: bool)
        requires
            old(self).view().dom().contains(key),
        ensures
            changed == (old(self).view()[key].0 != severity),
            final(self).view() == old(self).view().insert(key, (severity, old(self).view()[key].1)),
    {
        proof {
            use_type_invariant(&*self);
        }
        let i = match self.find(key) {
            Some(i) => i,
            None => {
                assert(false);
                0
            },
        };
        let mut list: Vec<BarEntry<B>> = Vec::new();
        std::mem::swap(&mut list, &mut self.entries);
        let ghost before = list@;
        proof {
            lemma_value_at(before, i as int);
            lemma_view_remove(before, i as int);
        }
        let entry = list.remove(i);
        let changed = entry.severity != severity;
        let updated = BarEntry { key, severity, bar: entry.bar };
        proof {
            assert(!book_view(list@).dom().contains(key));
            lemma_view_push(list@, updated);
        }
        list.push(updated);
        self.entries = list;
        assert(book_view(before).remove(key).insert(key, (severity, book_view(before)[key].1))
            =~= book_view(before).insert(key, (severity, book_view(before)[key].1)));
        changed
    }

    /// Decides a player's bar on a refresh: the bar is shown to a player who has it switched
    /// on and holds the permission, colored for `severity`; anyone else's is taken away.
    pub fn plan_refresh(
        &mut self,
        state: &PersistentState,
        key: PlayerKey,
        has_permission: bool,
        severity: Severity,
    ) -> (plan: RefreshPlan<B>)
        ensures
            !(state@.enabled.contains(key) && has_permission) ==> final(self).view() == old(
                self,
            ).view().remove(key) && match plan {
                RefreshPlan::Hide(removed) => match removed {
                    Some(b) => old(self).view().dom().contains(key) && b == old(self).view()[key].1,
                    None => !old(self).view().dom().contains(key),
                },
                _ => false,
            },
            state@.enabled.contains(key) && has_permission && old(self).view().dom().contains(key)
                ==> final(self).view() == old(self).view().insert(
                key,
                (severity, old(self).view()[key].1),
            ) && plan == (RefreshPlan::<B>::Update {
                recolor: old(self).view()[key].0 != severity,
            }),
            state@.enabled.contains(key) && has_permission && !old(self).view().dom().contains(key)
                ==> final(self).view() == old(self).view() && plan is Create,
    {
        let show = state.is_enabled(key) && has_permission;
        if !show {
            let removed = self.remove(key);
            return RefreshPlan::Hide(removed);
        }
        match self.severity(key) {
            Some(_) => {
                let recolor = self.recolor(key, severity);
                RefreshPlan::Update { recolor }
            },
            None => RefreshPlan::Create,
        }
    }

    /// Takes away the bars of every player not in `active`; gives back the bars taken.
    pub fn retain_players(&mut self, active: &Vec<PlayerKey>) -> (removed: Vec<B>)
        ensures
            final(self).view() == old(self).view().restrict(active@.to_set()),
            forall|b: B|
                removed@.contains(b) <==> exists|k: PlayerKey|
                    #![trigger old(self).view()[k]]
                    old(self).view().dom().contains(k) && !active@.contains(k) && old(
                        self,
                    ).view()[k].1 == b,
    {
        proof {
            use_type_invariant(&*self);
        }
        let mut rest: Vec<BarEntry<B>> = Vec::new();
        std::mem::swap(&mut rest, &mut self.entries);
        let ghost all = rest@;
        let ghost n = all.len() as int;
        let ghost whole = book_view(all);
        let mut kept: Vec<BarEntry<B>> = Vec::new();
        let mut removed: Vec<B> = Vec::new();
        while rest.len() > 0
            invariant
                keys_distinct(all),
                whole == book_view(all),
                n == all.len(),
                rest@ == all.take(rest@.len() as int),
                rest@.len() <= n,
                keys_distinct(kept@),
                forall|k: PlayerKey|
                    #[trigger] has_key(kept@, k) <==> (exists|j: int|
                        rest@.len() <= j < n && #[trigger] all[j].key == k) && active@.contains(k),
                forall|k: PlayerKey| #[trigger] has_key(kept@, k) ==> entry_of(kept@, k) == whole[k],
                forall|b: B|
                    removed@.contains(b) <==> exists|j: int|
                        rest@.len() <= j < n && !active@.contains(#[trigger] all[j].key)
                            && all[j].bar == b,
            decreases rest@.len(),
        {
            let ghost r = rest@.len() as int;
            let e = match rest.pop() {
                Some(e) => e,
                None => {
                    assert(false);
                    return removed;
                },
            };
            proof {
                assert(e == all[r - 1]);
                assert(rest@ =~= all.take(r - 1));
                lemma_value_at(all, r - 1);
            }
            let mut listed = false;
            let mut t: usize = 0;
            while t < active.len()
                invariant
                    t <= active@.len(),
                    listed == exists|m: int| 0 <= m < t && active@[m] == e.key,
                decreases active@.len() - t,
            {
                if active[t].high == e.key.high && active[t].low == e.key.low {
                    listed = true;
                }
                t = t + 1;
            }
            assert(listed == active@.contains(e.key));
            if listed {
                proof {
                    if has_key(kept@, e.key) {
                        let j = choose|j: int| r <= j < n && #[trigger] all[j].key == e.key;
                        assert(all[j].key == all[r - 1].key);
                    }
                    lemma_view_push(kept@, e);
                }
                let ghost before_kept = kept@;
                kept.push(e);
                proof {
                    assert forall|k: PlayerKey|
                        #[trigger] has_key(kept@, k) <==> (exists|j: int|
                            r - 1 <= j < n && #[trigger] all[j].key == k) && active@.contains(k) by {
                        assert(book_view(kept@).dom().contains(k) == has_key(kept@, k));
                        assert(book_view(before_kept).dom().contains(k) == has_key(before_kept, k));
                        if k == all[r - 1].key {
                            assert(all[r - 1].key == k);
                        }
                        if exists|j: int| r - 1 <= j < n && #[trigger] all[j].key == k {
                            let j = choose|j: int| r - 1 <= j < n && #[trigger] all[j].key == k;
                            if j >= r {
                                assert(all[j].key == k);
                            }
                        }
                    }
                    assert forall|k: PlayerKey| #[trigger] has_key(kept@, k) implies entry_of(kept@, k)
                        == whole[k] by {
                        assert(book_view(kept@).dom().contains(k));
                        assert(book_view(kept@)[k] == entry_of(kept@, k));
                        if k != all[r - 1].key {
                            assert(book_view(before_kept).dom().contains(k));
                            assert(book_view(before_kept)[k] == entry_of(before_kept, k));
                        }
                    }
                    assert forall|b: B|
                        removed@.contains(b) <==> exists|j: int|
                            r - 1 <= j < n && !active@.contains(#[trigger] all[j].key)
                                && all[j].bar == b by {
                        if exists|j: int|
                            r - 1 <= j < n && !active@.contains(#[trigger] all[j].key)
                                && all[j].bar == b {
                            let j = choose|j: int|
                                r - 1 <= j < n && !active@.contains(#[trigger] all[j].key)
                                    && all[j].bar == b;
                            assert(j != r - 1);
                        }
                    }
                }
            } else {
                let ghost before_removed = removed@;
                removed.push(e.bar);
                proof {
                    assert forall|b: B|
                        removed@.contains(b) <==> exists|j: int|
                            r - 1 <= j < n && !active@.contains(#[trigger] all[j].key)
                                && all[j].bar == b by {
                        if removed@.contains(b) {
                            let m = choose|m: int| 0 <= m < removed@.len() && removed@[m] == b;
                            if m < before_removed.len() {
                                assert(before_removed[m] == b);
                                assert(before_removed.contains(b));
                                let j = choose|j: int|
                                    r <= j < n && !active@.contains(#[trigger] all[j].key)
                                        && all[j].bar == b;
                                assert(r - 1 <= j < n && !active@.contains(all[j].key) && all[j].bar == b);
                            } else {
                                assert(r - 1 <= r - 1 < n && !active@.contains(all[r - 1].key));
                            }
                        }
                        if exists|j: int|
                            r - 1 <= j < n && !active@.contains(#[trigger] all[j].key)
                                && all[j].bar == b {
                            let j = choose|j: int|
                                r - 1 <= j < n && !active@.contains(#[trigger] all[j].key)
                                    && all[j].bar == b;
                            if j == r - 1 {
                                assert(removed@[before_removed.len() as int] == b);
                            } else {
                                assert(before_removed.contains(b));
                                let m = choose|m: int|
                                    0 <= m < before_removed.len() && before_removed[m] == b;
                                assert(removed@[m] == b);
                            }
                        }
                    }
                    assert forall|k: PlayerKey|
                        #[trigger] has_key(kept@, k) <==> (exists|j: int|
                            r - 1 <= j < n && #[trigger] all[j].key == k) && active@.contains(k) by {
                        if exists|j: int| r - 1 <= j < n && #[trigger] all[j].key == k {
                            let j = choose|j: int| r - 1 <= j < n && #[trigger] all[j].key == k;
                            if j >= r {
                                assert(all[j].key == k);
                            }
                        }
                    }
                }
            }
        }
        proof {
            assert forall|k: PlayerKey| #[trigger] has_key(all, k) <==> (exists|j: int|
                0 <= j < n && #[trigger] all[j].key == k) by {
                if has_key(all, k) {
                    let j = choose|j: int| 0 <= j < all.len() && #[trigger] all[j].key == k;
                    assert(all[j].key == k);
                }
            }
            assert(book_view(kept@) =~= whole.restrict(active@.to_set())) by {
                assert forall|k: PlayerKey| #[trigger] book_view(kept@).dom().contains(k) <==> whole.restrict(active@.to_set()).dom().contains(k) by {
                    assert(whole.dom().contains(k) == has_key(all, k));
                }
                assert forall|k: PlayerKey| book_view(kept@).dom().contains(k) implies #[trigger] book_view(kept@)[k] == whole.restrict(active@.to_set())[k] by {
                    assert(has_key(kept@, k));
                }
            }
            assert forall|b: B|
                removed@.contains(b) <==> exists|k: PlayerKey|
                    #![trigger whole[k]]
                    whole.dom().contains(k) && !active@.contains(k) && whole[k].1 == b by {
                if removed@.contains(b) {
                    let j = choose|j: int|
                        0 <= j < n && !active@.contains(#[trigger] all[j].key) && all[j].bar == b;
                    lemma_value_at(all, j);
                    assert(whole[all[j].key].1 == b);
                }
                if exists|k: PlayerKey|
                    #![trigger whole[k]]
                    whole.dom().contains(k) && !active@.contains(k) && whole[k].1 == b {
                    let k = choose|k: PlayerKey|
                        #![trigger whole[k]]
                        whole.dom().contains(k) && !active@.contains(k) && whole[k].1 == b;
                    assert(has_key(all, k));
                    let j = choose|j: int| 0 <= j < all.len() && #[trigger] all[j].key == k;
                    lemma_value_at(all, j);
                    assert(0 <= j < n && !active@.contains(all[j].key) && all[j].bar == b);
                }
            }
        }
        self.entries = kept;
        removed
    }

    /// Takes away every bar; gives back the bars taken.
    pub fn take_all(&mut self) -> (removed: Vec<B>)
        ensures
            final(self).view() == Map::<PlayerKey, (Severity, B)>::empty(),
            forall|b: B|
                removed@.contains(b) <==> exists|k: PlayerKey|
                    #![trigger old(self).view()[k]]
                    old(self).view().dom().contains(k) && old(self).view()[k].1 == b,
    {
        let none: Vec<PlayerKey> = Vec::new();
        let removed = self.retain_players(&none);
        assert(self.view() =~= Map::<PlayerKey, (Severity, B)>::empty());
        removed
    }
}

} // verus!
