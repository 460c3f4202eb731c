use vstd::prelude::*;

use crate::text::{
    ascii_lowercase, chars_of, has_prefix, lowercased, push_all, replace_all, replace_char,
    replaced, same_chars, starts_with, string_from_chars, trim, trimmed, with_char_replaced,
};

verus! {

/// The English message catalog, as a JSON object from message keys to texts.
pub const EN_US_CATALOG: &'static str = "{
  \"command.enabled\": \"TPSBar enabled.\",
  \"command.disabled\": \"TPSBar disabled.\",
  \"command.metric_set\": \"TPSBar progress now follows {metric}.\",
  \"error.player_only\": \"Only players can toggle their TPSBar.\",
  \"error.state_save\": \"Unable to save TPSBar state: {error}\"
}
";

/// The Simplified Chinese message catalog, as a JSON object from message keys to texts.
pub const ZH_CN_CATALOG: &'static str = "{
  \"command.enabled\": \"TPSBar 已开启。\",
  \"command.disabled\": \"TPSBar 已关闭。\",
  \"command.metric_set\": \"TPSBar 血条进度现在按 {metric} 显示。\",
  \"error.player_only\": \"只有玩家可以切换自己的 TPSBar。\",
  \"error.state_save\": \"无法保存 TPSBar 状态：{error}\"
}
";

/// A message catalog as plain text: the (key, text) entries in order.
pub type CatalogView = Seq<(Seq<char>, Seq<char>)>;

/// The entries of a JSON object whose values are all strings, in key order, or `None`
/// where the text is no such object: what `serde_json` parses into a map from strings
/// to strings.
pub uninterp spec fn json_string_entries(text: Seq<char>) -> Option<CatalogView>;

/// The plain text of a catalog's entries.
pub open spec fn catalog_view(catalog: Seq<(String, String)>) -> CatalogView {
    catalog.map_values(|e: (String, String)| (e.0@, e.1@))
}

/// Parses a JSON object of strings into its (key, text) entries.
///
/// Calls `serde_json::from_str` into a `BTreeMap<String, String>` and lists the map in key
/// order. The contract claims that success and the entries are those that the JSON text
/// determines; of an error it claims nothing but that it is one (its text is serde_json's
/// description of the error).
#[verifier::external_body]
fn parse_string_map(text: &str) -> (entries: Result<Vec<(String, String)>, String>)
    ensures
        entries is Ok <==> json_string_entries(text@) is Some,
        entries matches Ok(v) ==> catalog_view(v@) == json_string_entries(text@).unwrap(),
{
    match serde_json::from_str::<std::collections::BTreeMap<String, String>>(text) {
        Ok(map) => Ok(map.into_iter().collect()),
        Err(error) => Err(error.to_string()),
    }
}

/// The text of the first entry with the given key.
pub open spec fn lookup(catalog: CatalogView, key: Seq<char>) -> Option<Seq<char>>
    decreases catalog.len(),
{
    if catalog.len() == 0 {
        None
    } else if catalog[0].0 == key {
        Some(catalog[0].1)
    } else {
        lookup(catalog.drop_first(), key)
    }
}

/// A lookup finds the text of the first entry whose key matches.
pub proof fn lemma_lookup_first_match(catalog: CatalogView, key: Seq<char>, i: int)
    requires
        0 <= i < catalog.len(),
        catalog[i].0 == key,
        forall|j: int| 0 <= j < i ==> catalog[j].0 != key,
    ensures
        lookup(catalog, key) == Some(catalog[i].1),
    decreases i,
{
    if i > 0 {
        assert forall|j: int| 0 <= j < i - 1 implies catalog.drop_first()[j].0 != key by {
            assert(catalog.drop_first()[j] == catalog[j + 1]);
        }
        lemma_lookup_first_match(catalog.drop_first(), key, i - 1);
    }
}

/// A lookup of a key that no entry has finds nothing; whatever a lookup finds is the text of
/// an entry with that key.
pub proof fn lemma_lookup_only_finds_entries(catalog: CatalogView, key: Seq<char>)
    ensures
        (forall|j: int| 0 <= j < catalog.len() ==> catalog[j].0 != key) ==> lookup(catalog, key)
            is None,
        lookup(catalog, key) matches Some(t) ==> exists|i: int|
            0 <= i < catalog.len() && catalog[i] == (key, t),
    decreases catalog.len(),
{
    if catalog.len() > 0 {
        lemma_lookup_only_finds_entries(catalog.drop_first(), key);
        if (forall|j: int| 0 <= j < catalog.len() ==> catalog[j].0 != key) {
            assert(catalog[0].0 != key);
            assert forall|j: int| 0 <= j < catalog.drop_first().len() implies catalog.drop_first()[j].0
                != key by {
                assert(catalog.drop_first()[j] == catalog[j + 1]);
            }
        }
        if catalog[0].0 != key {
            if let Some(t) = lookup(catalog, key) {
                let i = choose|i: int|
                    0 <= i < catalog.drop_first().len() && catalog.drop_first()[i] == (key, t);
                assert(catalog[i + 1] == (key, t));
            }
        }
    }
}

/// The language families that have a catalog.
#[derive(Debug, Clone, Copy, PartialEq, Eq, Structural)]
pub enum LanguageFamily {
    Chinese,
    English,
}

/// A locale trimmed, lower-cased in ASCII and with `-` written as `_`.
pub open spec fn normalized_locale(locale: Seq<char>) -> Seq<char> {
    replace_char(ascii_lowercase(trim(locale)), '-', '_')
}

/// The language family that a locale names: `zh` or `zh_*` is Chinese, `en` or `en_*`
/// English, after normalizing; any other locale names none.
pub open spec fn family_of(locale: Seq<char>) -> Option<LanguageFamily> {
    let n = normalized_locale(locale);
    if n == "zh"@ || has_prefix(n, "zh_"@) {
        Some(LanguageFamily::Chinese)
    } else if n == "en"@ || has_prefix(n, "en_"@) {
        Some(LanguageFamily::English)
    } else {
        None
    }
}

/// Whether a locale, as written, begins with the two letters of `first`/`second` (in either
/// case) followed by its end, `_` or `-`.
pub open spec fn begins_with_tag(s: Seq<char>, lower0: char, upper0: char, lower1: char, upper1: char) -> bool {
    &&& s.len() >= 2
    &&& (s[0] == lower0 || s[0] == upper0)
    &&& (s[1] == lower1 || s[1] == upper1)
    &&& (s.len() == 2 || s[2] == '_' || s[2] == '-')
}

/// A locale without surrounding white space names Chinese when it is `zh` or begins with
/// `zh_` or `zh-`, in any letter case; English likewise for `en`; and no family otherwise.
pub proof fn lemma_family_of_written_locale(s: Seq<char>)
    requires
        s.len() > 0 ==> !crate::text::is_white_space(s[0]) && !crate::text::is_white_space(s.last()),
    ensures
        begins_with_tag(s, 'z', 'Z', 'h', 'H') ==> family_of(s) == Some(LanguageFamily::Chinese),
        begins_with_tag(s, 'e', 'E', 'n', 'N') ==> family_of(s) == Some(LanguageFamily::English),
        !begins_with_tag(s, 'z', 'Z', 'h', 'H') && !begins_with_tag(s, 'e', 'E', 'n', 'N')
            ==> family_of(s) is None,
{
    reveal_strlit("zh");
    reveal_strlit("zh_");
    reveal_strlit("en");
    reveal_strlit("en_");
    assert(crate::text::trim_start(s) == s);
    assert(crate::text::trim_end(s) == s);
    let n = normalized_locale(s);
    assert(n.len() == s.len());
    assert forall|k: int| 0 <= k < s.len() implies #[trigger] n[k] == {
        let c = crate::text::ascii_lower(s[k]);
        if c == '-' { '_' } else { c }
    } by {}
    if n.len() >= 2 {
        assert(n.take(2).len() == 2);
    }
    if n.len() >= 3 {
        assert(n.take(3).len() == 3);
    }
    if n == "zh"@ {
        assert("zh"@.len() == 2);
        assert("zh"@[0] == 'z' && "zh"@[1] == 'h');
        assert(n[0] == 'z' && n[1] == 'h');
    }
    if has_prefix(n, "zh_"@) {
        assert("zh_"@.len() == 3);
        assert("zh_"@[0] == 'z' && "zh_"@[1] == 'h' && "zh_"@[2] == '_');
        assert(n.take(3)[0] == n[0] && n.take(3)[1] == n[1] && n.take(3)[2] == n[2]);
        assert(n[0] == 'z' && n[1] == 'h' && n[2] == '_');
    }
    if n == "en"@ {
        assert("en"@.len() == 2);
        assert("en"@[0] == 'e' && "en"@[1] == 'n');
        assert(n[0] == 'e' && n[1] == 'n');
    }
    if has_prefix(n, "en_"@) {
        assert("en_"@.len() == 3);
        assert("en_"@[0] == 'e' && "en_"@[1] == 'n' && "en_"@[2] == '_');
        assert(n.take(3)[0] == n[0] && n.take(3)[1] == n[1] && n.take(3)[2] == n[2]);
        assert(n[0] == 'e' && n[1] == 'n' && n[2] == '_');
    }
    if begins_with_tag(s, 'z', 'Z', 'h', 'H') {
        if n.len() == 2 {
            assert(n =~= "zh"@);
        } else {
            assert(n.take(3) =~= "zh_"@);
        }
    }
    if begins_with_tag(s, 'e', 'E', 'n', 'N') {
        if n.len() == 2 {
            assert(n =~= "en"@);
        } else {
            assert(n.take(3) =~= "en_"@);
        }
    }
}

/// The language family that a locale names, if any.
pub fn language_family(locale: &str) -> (family: Option<LanguageFamily>)
    ensures
        family == family_of(locale@),
{
    let raw = chars_of(locale);
    let t = trimmed(&raw);
    let l = lowercased(&t);
    let n = with_char_replaced(&l, '-', '_');
    let zh = chars_of("zh");
    let zh_ = chars_of("zh_");
    let en = chars_of("en");
    let en_ = chars_of("en_");
    if same_chars(&n, &zh) || starts_with(&n, &zh_) {
        Some(LanguageFamily::Chinese)
    } else if same_chars(&n, &en) || starts_with(&n, &en_) {
        Some(LanguageFamily::English)
    } else {
        None
    }
}

/// The two catalogs of a localizer, as plain text.
pub struct LocalizerView {
    pub en_us: CatalogView,
    pub zh_cn: CatalogView,
}

/// The built-in message catalogs.
pub struct Localizer {
    en_us: Vec<(String, String)>,
    zh_cn: Vec<(String, String)>,
}

impl View for Localizer {
    type V = LocalizerView;

    closed spec fn view(&self) -> LocalizerView {
        LocalizerView { en_us: catalog_view(self.en_us@), zh_cn: catalog_view(self.zh_cn@) }
    }
}

/// The catalog for a player: that of the player's locale, else that of the fallback
/// locale, else English.
pub open spec fn chosen_catalog(l: LocalizerView, player: Seq<char>, fallback: Seq<char>) -> CatalogView {
    let family = match family_of(player) {
        Some(f) => Some(f),
        None => family_of(fallback),
    };
    match family {
        Some(LanguageFamily::Chinese) => l.zh_cn,
        _ => l.en_us,
    }
}

/// The catalog follows the player's locale where it names a language family, whatever the
/// fallback locale; the fallback locale decides only for a player locale that names none;
/// English is used where neither names Chinese.
pub proof fn lemma_catalog_follows_player_family(
    l: LocalizerView,
    player: Seq<char>,
    fallback: Seq<char>,
    other_fallback: Seq<char>,
)
    ensures
        family_of(player) == Some(LanguageFamily::Chinese) ==> chosen_catalog(l, player, fallback)
            == l.zh_cn,
        family_of(player) == Some(LanguageFamily::English) ==> chosen_catalog(l, player, fallback)
            == l.en_us,
        family_of(player) is Some ==> chosen_catalog(l, player, fallback) == chosen_catalog(
            l,
            player,
            other_fallback,
        ),
        family_of(player) is None && family_of(fallback) == Some(LanguageFamily::Chinese)
            ==> chosen_catalog(l, player, fallback) == l.zh_cn,
        family_of(player) is None && family_of(fallback) != Some(LanguageFamily::Chinese)
            ==> chosen_catalog(l, player, fallback) == l.en_us,
{
}

/// The text of a message before its placeholders are filled: the chosen catalog's text,
/// else the English text, else the key itself.
pub open spec fn template_text(
    l: LocalizerView,
    player: Seq<char>,
    fallback: Seq<char>,
    key: Seq<char>,
) -> Seq<char> {
    match lookup(chosen_catalog(l, player, fallback), key) {
        Some(t) => t,
        None => match lookup(l.en_us, key) {
            Some(t) => t,
            None => key,
        },
    }
}

/// A message uses the chosen catalog's text where that catalog has the key; else the
/// English text; else the key itself.
pub proof fn lemma_template_falls_back_per_key(
    l: LocalizerView,
    player: Seq<char>,
    fallback: Seq<char>,
    key: Seq<char>,
    i: int,
)
    ensures
        0 <= i < chosen_catalog(l, player, fallback).len() && chosen_catalog(l, player, fallback)[i].0
            == key && (forall|j: int|
            0 <= j < i ==> chosen_catalog(l, player, fallback)[j].0 != key) ==> template_text(
            l,
            player,
            fallback,
            key,
        ) == chosen_catalog(l, player, fallback)[i].1,
        (forall|j: int|
            0 <= j < chosen_catalog(l, player, fallback).len() ==> chosen_catalog(
                l,
                player,
                fallback,
            )[j].0 != key) ==> template_text(l, player, fallback, key) == match lookup(l.en_us, key) {
            Some(t) => t,
            None => key,
        },
        (forall|j: int|
            0 <= j < chosen_catalog(l, player, fallback).len() ==> chosen_catalog(
                l,
                player,
                fallback,
            )[j].0 != key) && (forall|j: int| 0 <= j < l.en_us.len() ==> l.en_us[j].0 != key)
            ==> template_text(l, player, fallback, key) == key,
{
    let c = chosen_catalog(l, player, fallback);
    if 0 <= i < c.len() && c[i].0 == key && (forall|j: int| 0 <= j < i ==> c[j].0 != key) {
        lemma_lookup_first_match(c, key, i);
    }
    lemma_lookup_only_finds_entries(c, key);
    lemma_lookup_only_finds_entries(l.en_us, key);
}

/// The placeholder `{name}`.
pub open spec fn placeholder(name: Seq<char>) -> Seq<char> {
    seq!['{'] + name + seq!['}']
}

/// `text` with each replacement applied in turn: every `{name}` becomes its value.
pub open spec fn fill_placeholders(text: Seq<char>, replacements: Seq<(Seq<char>, Seq<char>)>) -> Seq<
    char,
>
    decreases replacements.len(),
{
    if replacements.len() == 0 {
        text
    } else {
        fill_placeholders(
            replace_all(text, placeholder(replacements[0].0), replacements[0].1),
            replacements.drop_first(),
        )
    }
}

/// Filling in no replacements leaves a text as it is, and so does filling in any
/// replacements into a text that holds no `{`.
pub proof fn lemma_fill_leaves_plain_text(text: Seq<char>, replacements: Seq<(Seq<char>, Seq<char>)>)
    ensures
        fill_placeholders(text, Seq::empty()) == text,
        (forall|k: int| 0 <= k < text.len() ==> text[k] != '{') ==> fill_placeholders(
            text,
            replacements,
        ) == text,
    decreases replacements.len(),
{
    if replacements.len() > 0 && (forall|k: int| 0 <= k < text.len() ==> text[k] != '{') {
        crate::text::lemma_replace_all_without_first_char(
            text,
            placeholder(replacements[0].0),
            replacements[0].1,
        );
        lemma_fill_leaves_plain_text(text, replacements.drop_first());
    }
}

/// A text that is exactly one placeholder becomes that placeholder's value.
pub proof fn lemma_fill_whole_placeholder(name: Seq<char>, value: Seq<char>)
    ensures
        fill_placeholders(placeholder(name), seq![(name, value)]) == value,
{
    let p = placeholder(name);
    assert(p.take(p.len() as int) =~= p);
    assert(p.skip(p.len() as int) =~= Seq::<char>::empty());
    assert(replace_all(Seq::<char>::empty(), p, value) == Seq::<char>::empty());
    assert(value + Seq::<char>::empty() =~= value);
    let reps = seq![(name, value)];
    assert(reps.drop_first() =~= Seq::<(Seq<char>, Seq<char>)>::empty());
    assert(replace_all(p, p, value) == value + replace_all(p.skip(p.len() as int), p, value));
    assert(replace_all(p, p, value) == value);
    assert(fill_placeholders(p, reps) == fill_placeholders(replace_all(p, placeholder(reps[0].0), reps[0].1), reps.drop_first()));
}

/// The plain text of a list of replacements.
pub open spec fn replacements_view(replacements: Seq<(&str, &str)>) -> Seq<(Seq<char>, Seq<char>)> {
    replacements.map_values(|r: (&str, &str)| (r.0@, r.1@))
}

/// The message a player is shown.
pub open spec fn localized_text(
    l: LocalizerView,
    player: Seq<char>,
    fallback: Seq<char>,
    key: Seq<char>,
    replacements: Seq<(Seq<char>, Seq<char>)>,
) -> Seq<char> {
    fill_placeholders(template_text(l, player, fallback, key), replacements)
}

/// The position of the first entry with the given key.
fn find_entry(catalog: &Vec<(String, String)>, key: &String) -> (found: Option<usize>)
    ensures
        match found {
            Some(i) => i < catalog@.len() && lookup(catalog_view(catalog@), key@) == Some(
                catalog@[i as int].1@,
            ),
            None => lookup(catalog_view(catalog@), key@) is None,
        },
{
    let ghost whole = catalog_view(catalog@);
    let mut i: usize = 0;
    assert(whole.skip(0) =~= whole);
    while i < catalog.len()
        invariant
            i <= catalog@.len(),
            whole == catalog_view(catalog@),
            lookup(whole, key@) == lookup(whole.skip(i as int), key@),
        decreases catalog@.len() - i,
    {
        let ghost rest = whole.skip(i as int);
        assert(rest[0] == (catalog@[i as int].0@, catalog@[i as int].1@));
        if catalog[i].0 == *key {
            return Some(i);
        }
        assert(rest.drop_first() =~= whole.skip(i + 1));
        i = i + 1;
    }
    assert(whole.skip(i as int).len() == 0);
    None
}

impl Localizer {
    /// A localizer from the outcomes of parsing the English and the Chinese catalog: both
    /// catalogs where both parsed, else the first failure, named after its catalog.
    pub fn from_catalogs(
        en_us: Result<Vec<(String, String)>, String>,
        zh_cn: Result<Vec<(String, String)>, String>,
    ) -> (loaded: Result<Localizer, String>)
        ensures
            loaded is Ok <==> (en_us is Ok && zh_cn is Ok),
            loaded matches Ok(l) ==> l@.en_us == catalog_view(en_us->Ok_0@) && l@.zh_cn
                == catalog_view(zh_cn->Ok_0@),
            en_us matches Err(e) ==> loaded matches Err(text) && text@ == "内置 en_us 语言文件无效："@
                + e@,
            en_us is Ok ==> (zh_cn matches Err(e) ==> loaded matches Err(text) && text@
                == "内置 zh_cn 语言文件无效："@ + e@),
    {
        let en_us = match en_us {
            Ok(entries) => entries,
            Err(error) => {
                let mut text = String::from_str("内置 en_us 语言文件无效：");
                text.append(error.as_str());
                return Err(text);
            },
        };
        let zh_cn = match zh_cn {
            Ok(entries) => entries,
            Err(error) => {
                let mut text = String::from_str("内置 zh_cn 语言文件无效：");
                text.append(error.as_str());
                return Err(text);
            },
        };
        Ok(Localizer { en_us, zh_cn })
    }

    /// Reads the built-in catalogs.
    pub fn load() -> (loaded: Result<Localizer, String>)
        ensures
            loaded is Ok <==> (json_string_entries(EN_US_CATALOG@) is Some && json_string_entries(
                ZH_CN_CATALOG@,
            ) is Some),
            loaded matches Ok(l) ==> l@.en_us == json_string_entries(EN_US_CATALOG@).unwrap()
                && l@.zh_cn == json_string_entries(ZH_CN_CATALOG@).unwrap(),
            loaded matches Err(e) ==> if json_string_entries(EN_US_CATALOG@) is None {
                has_prefix(e@, "内置 en_us 语言文件无效："@)
            } else {
                has_prefix(e@, "内置 zh_cn 语言文件无效："@)
            },
    {
        let en_us = parse_string_map(EN_US_CATALOG);
        let zh_cn = parse_string_map(ZH_CN_CATALOG);
        let loaded = Localizer::from_catalogs(en_us, zh_cn);
        proof {
            if let Err(text) = &loaded {
                let head = if json_string_entries(EN_US_CATALOG@) is None {
                    "内置 en_us 语言文件无效："@
                } else {
                    "内置 zh_cn 语言文件无效："@
                };
                assert(text@.take(head.len() as int) =~= head);
            }
        }
        loaded
    }

    /// The catalog for a player: that of the player's locale, else that of the fallback
    /// locale, else English.
    pub fn catalog_for(&self, player_locale: &str, fallback_locale: &str) -> (catalog: &Vec<
        (String, String),
    >)
        ensures
            catalog_view(catalog@) == chosen_catalog(self@, player_locale@, fallback_locale@),
            family_of(player_locale@) == Some(LanguageFamily::Chinese) ==> catalog_view(catalog@)
                == self@.zh_cn,
            family_of(player_locale@) == Some(LanguageFamily::English) ==> catalog_view(catalog@)
                == self@.en_us,
            family_of(player_locale@) is None && family_of(fallback_locale@) == Some(
                LanguageFamily::Chinese,
            ) ==> catalog_view(catalog@) == self@.zh_cn,
            family_of(player_locale@) is None && family_of(fallback_locale@) != Some(
                LanguageFamily::Chinese,
            ) ==> catalog_view(catalog@) == self@.en_us,
    {
        let family = match language_family(player_locale) {
            Some(f) => Some(f),
            None => language_family(fallback_locale),
        };
        match family {
            Some(LanguageFamily::Chinese) => &self.zh_cn,
            _ => &self.en_us,
        }
    }

    /// The message under `key` for a player, with every `{name}` of `replacements` filled in.
    pub fn message(
        &self,
        player_locale: &str,
        fallback_locale: &str,
        key: &str,
        replacements: &[(&str, &str)],
    ) -> (text: String)
        ensures
            text@ == localized_text(
                self@,
                player_locale@,
                fallback_locale@,
                key@,
                replacements_view(replacements@),
            ),
    {
        let catalog = self.catalog_for(player_locale, fallback_locale);
        let key_string = String::from_str(key);
        let template: Vec<char> = match find_entry(catalog, &key_string) {
            Some(i) => chars_of(catalog[i].1.as_str()),
            None => match find_entry(&self.en_us, &key_string) {
                Some(i) => chars_of(self.en_us[i].1.as_str()),
                None => chars_of(key),
            },
        };
        let ghost reps = replacements_view(replacements@);
        let mut text = template;
        let mut k: usize = 0;
        assert(reps.skip(0) =~= reps);
        assert(text@ == template_text(self@, player_locale@, fallback_locale@, key@));
        while k < replacements.len()
            invariant
                k <= replacements@.len(),
                reps == replacements_view(replacements@),
                fill_placeholders(text@, reps.skip(k as int)) == localized_text(
                    self@,
                    player_locale@,
                    fallback_locale@,
                    key@,
                    reps,
                ),
            decreases replacements@.len() - k,
        {
            let (name, value) = replacements[k];
            let mut pattern: Vec<char> = Vec::new();
            pattern.push('{');
            push_all(&mut pattern, &chars_of(name));
            pattern.push('}');
            assert(pattern@ =~= placeholder(name@));
            let value_chars = chars_of(value);
            text = replaced(&text, &pattern, &value_chars);
            assert(reps.skip(k as int).drop_first() =~= reps.skip(k + 1));
            k = k + 1;
        }
        assert(reps.skip(k as int).len() == 0);
        string_from_chars(&text)
    }
}

impl Default for Localizer {
    /// A localizer with empty catalogs, in which every message is its key.
    fn default() -> (l: Self)
        ensures
            l@.en_us.len() == 0,
            l@.zh_cn.len() == 0,
    {
        Localizer { en_us: Vec::new(), zh_cn: Vec::new() }
    }
}

} // verus!
