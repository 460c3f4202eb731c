use tpsbar::config::PingThresholds;
use tpsbar::display::{bossbar_color, severity_text_color, BarColor, TextColor};
use tpsbar::metrics::{ping_severity, Severity};

#[test]
fn ping_boundaries_match_configuration() {
    let thresholds = PingThresholds::default();
    assert_eq!(ping_severity(60, thresholds), Severity::Green);
    assert_eq!(ping_severity(61, thresholds), Severity::Yellow);
    assert_eq!(ping_severity(121, thresholds), Severity::Gold);
    assert_eq!(ping_severity(201, thresholds), Severity::Red);
}

#[test]
fn ping_grades_are_inclusive_upper_bounds() {
    let thresholds = PingThresholds { green: 10, yellow: 20, gold: 30 };
    assert_eq!(ping_severity(0, thresholds), Severity::Green);
    assert_eq!(ping_severity(20, thresholds), Severity::Yellow);
    assert_eq!(ping_severity(30, thresholds), Severity::Gold);
    assert_eq!(ping_severity(u32::MAX, thresholds), Severity::Red);
}

#[test]
fn higher_ping_is_never_graded_better() {
    let thresholds = PingThresholds::default();
    let rank = |s: Severity| match s {
        Severity::Green => 0,
        Severity::Yellow => 1,
        Severity::Gold => 2,
        Severity::Red => 3,
    };
    let mut last = 0;
    for ping in 0..400u32 {
        let r = rank(ping_severity(ping, thresholds));
        assert!(r >= last);
        last = r;
    }
}

#[test]
fn boss_bar_has_no_gold() {
    assert_eq!(bossbar_color(Severity::Green), BarColor::Green);
    assert_eq!(bossbar_color(Severity::Yellow), BarColor::Yellow);
    assert_eq!(bossbar_color(Severity::Gold), BarColor::Yellow);
    assert_eq!(bossbar_color(Severity::Red), BarColor::Red);
    assert_eq!(severity_text_color(Severity::Gold), TextColor::Gold);
    assert_eq!(severity_text_color(Severity::Yellow), TextColor::Yellow);
}
