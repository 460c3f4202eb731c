use tpsbar::config::BarMetric;
use tpsbar::display::TextColor;
use tpsbar::i18n::Localizer;
use tpsbar::metrics::Severity;
use tpsbar::runtime::{
    begin_toggle, finish_toggle, set_bar_metric, BarBook, MetricReply, RefreshPlan, ToggleReply,
    ToggleStart, PERMISSION_NODE,
};
use tpsbar::state::{PersistentState, PlayerKey};

#[test]
fn permission_node_is_namespaced() {
    assert_eq!(PERMISSION_NODE, "tpsbar:command.toggle");
}

#[test]
fn toggle_without_permission_is_denied_and_changes_nothing() {
    let localizer = Localizer::load().unwrap();
    let mut state = PersistentState::default();
    let p = PlayerKey { high: 3, low: 4 };
    let start = begin_toggle(&mut state, &localizer, "zh_cn", false, Some(p));
    assert!(matches!(start, ToggleStart::Denied));
    assert!(!state.is_enabled(p));
}

#[test]
fn console_cannot_toggle() {
    let localizer = Localizer::load().unwrap();
    let mut state = PersistentState::default();
    match begin_toggle(&mut state, &localizer, "en_us", true, None) {
        ToggleStart::PlayerOnly(message) => {
            assert_eq!(message, "Only players can toggle their TPSBar.")
        }
        _ => panic!("expected a player-only answer"),
    }
}

#[test]
fn toggle_saved_confirms_in_player_language() {
    let localizer = Localizer::load().unwrap();
    let mut state = PersistentState::default();
    let p = PlayerKey { high: 3, low: 4 };
    let (player, enabled) = match begin_toggle(&mut state, &localizer, "en_us", true, Some(p)) {
        ToggleStart::Save { player, enabled } => (player, enabled),
        _ => panic!("expected a save"),
    };
    assert_eq!(player, p);
    assert!(enabled);
    assert!(state.is_enabled(p));
    match finish_toggle(&mut state, &localizer, "zh_cn", "en_us", p, enabled, Ok(())) {
        ToggleReply::Done { enabled, message, color, code } => {
            assert!(enabled);
            assert_eq!(message, "TPSBar 已开启。");
            assert_eq!(color, TextColor::Green);
            assert_eq!(code, 1);
        }
        ToggleReply::Failed(_) => panic!("expected success"),
    }
    assert!(state.is_enabled(p));
}

#[test]
fn failed_save_switches_the_choice_back() {
    let localizer = Localizer::load().unwrap();
    let mut state = PersistentState::default();
    let p = PlayerKey { high: 3, low: 4 };
    let enabled = match begin_toggle(&mut state, &localizer, "en_us", true, Some(p)) {
        ToggleStart::Save { enabled, .. } => enabled,
        _ => panic!("expected a save"),
    };
    let reply = finish_toggle(
        &mut state,
        &localizer,
        "en_us",
        "en_us",
        p,
        enabled,
        Err("disk full".to_string()),
    );
    match reply {
        ToggleReply::Failed(message) => {
            assert_eq!(message, "Unable to save TPSBar state: disk full")
        }
        ToggleReply::Done { .. } => panic!("expected failure"),
    }
    assert!(!state.is_enabled(p));
}

#[test]
fn switching_off_answers_in_gray_with_zero() {
    let localizer = Localizer::load().unwrap();
    let mut state = PersistentState::default();
    let p = PlayerKey { high: 1, low: 1 };
    state.toggle(p);
    let enabled = match begin_toggle(&mut state, &localizer, "en_us", true, Some(p)) {
        ToggleStart::Save { enabled, .. } => enabled,
        _ => panic!("expected a save"),
    };
    assert!(!enabled);
    match finish_toggle(&mut state, &localizer, "en_us", "en_us", p, enabled, Ok(())) {
        ToggleReply::Done { message, color, code, .. } => {
            assert_eq!(message, "TPSBar disabled.");
            assert_eq!(color, TextColor::Gray);
            assert_eq!(code, 0);
        }
        ToggleReply::Failed(_) => panic!("expected success"),
    }
}

#[test]
fn metric_command_sets_metric_and_answers() {
    let localizer = Localizer::load().unwrap();
    let mut metric = BarMetric::Mspt;
    let reply = set_bar_metric(&mut metric, &localizer, None, "zh_cn", BarMetric::Tps, true);
    assert_eq!(metric, BarMetric::Tps);
    match reply {
        MetricReply::Applied(message) => assert_eq!(message, "TPSBar progress now follows TPS."),
        MetricReply::Denied => panic!("expected the metric to be set"),
    }
    let denied = set_bar_metric(&mut metric, &localizer, Some("zh_cn"), "zh_cn", BarMetric::Ping, false);
    assert!(matches!(denied, MetricReply::Denied));
    assert_eq!(metric, BarMetric::Tps);
}

#[test]
fn bars_follow_choice_permission_and_severity() {
    let mut state = PersistentState::default();
    let mut book: BarBook<&'static str> = BarBook::new();
    let p = PlayerKey { high: 9, low: 9 };
    assert!(matches!(book.plan_refresh(&state, p, true, Severity::Green), RefreshPlan::Hide(None)));
    state.toggle(p);
    assert!(matches!(book.plan_refresh(&state, p, true, Severity::Green), RefreshPlan::Create));
    assert_eq!(book.insert(p, Severity::Green, "bar-9"), None);
    assert!(matches!(
        book.plan_refresh(&state, p, true, Severity::Green),
        RefreshPlan::Update { recolor: false }
    ));
    assert!(matches!(
        book.plan_refresh(&state, p, true, Severity::Gold),
        RefreshPlan::Update { recolor: true }
    ));
    assert_eq!(book.severity(p), Some(Severity::Gold));
    assert_eq!(book.bar(p), Some(&"bar-9"));
    assert!(matches!(
        book.plan_refresh(&state, p, false, Severity::Gold),
        RefreshPlan::Hide(Some("bar-9"))
    ));
    assert_eq!(book.bar(p), None);
}

#[test]
fn stale_bars_are_swept_and_shutdown_takes_all() {
    let mut book: BarBook<u32> = BarBook::new();
    let a = PlayerKey { high: 0, low: 1 };
    let b = PlayerKey { high: 0, low: 2 };
    let c = PlayerKey { high: 0, low: 3 };
    book.insert(a, Severity::Green, 1);
    book.insert(b, Severity::Red, 2);
    book.insert(c, Severity::Yellow, 3);
    let mut removed = book.retain_players(&vec![b]);
    removed.sort();
    assert_eq!(removed, vec![1, 3]);
    assert_eq!(book.bar(b), Some(&2));
    assert_eq!(book.bar(a), None);
    assert_eq!(book.remove(b), Some(2));
    assert_eq!(book.remove(b), None);
    book.insert(a, Severity::Green, 4);
    assert_eq!(book.insert(a, Severity::Red, 5), Some(4));
    assert_eq!(book.take_all(), vec![5]);
    assert_eq!(book.bar(a), None);
}
