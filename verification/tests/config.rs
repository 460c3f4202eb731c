use tpsbar::config::{
    permission_level, validate_settings, BarMetric, ConfigError, OpLevel, PermissionConfig,
    PingThresholds, SettingsCheck, ThresholdGroup, ThresholdShape,
};

fn defaults() -> SettingsCheck {
    SettingsCheck {
        schema_version: 1,
        refresh_interval_ticks: 20,
        target_tps_in_range: true,
        mspt_full_positive: true,
        ping_full_positive: true,
        default_op_level: PermissionConfig::default().default_op_level,
        mspt_shape: ThresholdShape::Valid,
        tps_shape: ThresholdShape::Valid,
        ping: PingThresholds::default(),
    }
}

#[test]
fn default_settings_are_accepted() {
    assert_eq!(validate_settings(&defaults()), Ok(()));
    assert_eq!(PermissionConfig::default().default_op_level, 3);
    assert_eq!(BarMetric::default(), BarMetric::Mspt);
}

#[test]
fn refresh_interval_bounds_are_inclusive() {
    for (ticks, ok) in [(4u64, false), (5, true), (1200, true), (1201, false)] {
        let mut s = defaults();
        s.refresh_interval_ticks = ticks;
        assert_eq!(validate_settings(&s).is_ok(), ok);
    }
}

#[test]
fn first_failed_check_is_reported() {
    let mut s = defaults();
    s.schema_version = 2;
    s.default_op_level = 9;
    assert_eq!(validate_settings(&s), Err(ConfigError::UnsupportedSchema(2)));
    let mut s = defaults();
    s.default_op_level = 5;
    s.mspt_shape = ThresholdShape::NotAscending;
    assert_eq!(validate_settings(&s), Err(ConfigError::OpLevel));
    let mut s = defaults();
    s.mspt_shape = ThresholdShape::NotAscending;
    s.tps_shape = ThresholdShape::OutOfRange;
    assert_eq!(
        validate_settings(&s),
        Err(ConfigError::ThresholdOrder(ThresholdGroup::Mspt))
    );
    let mut s = defaults();
    s.tps_shape = ThresholdShape::OutOfRange;
    assert_eq!(
        validate_settings(&s),
        Err(ConfigError::ThresholdRange(ThresholdGroup::Tps))
    );
    let mut s = defaults();
    s.target_tps_in_range = false;
    s.mspt_full_positive = false;
    assert_eq!(validate_settings(&s), Err(ConfigError::TargetTps));
    let mut s = defaults();
    s.ping_full_positive = false;
    assert_eq!(validate_settings(&s), Err(ConfigError::PingFull));
    let mut s = defaults();
    s.mspt_full_positive = false;
    assert_eq!(validate_settings(&s), Err(ConfigError::MsptFull));
}

#[test]
fn ping_thresholds_must_strictly_increase() {
    let mut s = defaults();
    s.ping = PingThresholds { green: 60, yellow: 60, gold: 200 };
    assert_eq!(validate_settings(&s), Err(ConfigError::PingOrder));
    s.ping = PingThresholds { green: 1, yellow: 2, gold: 3 };
    assert_eq!(validate_settings(&s), Ok(()));
}

#[test]
fn error_messages_name_the_setting() {
    assert_eq!(
        ConfigError::UnsupportedSchema(42).message(),
        "不支持 schema_version=42，当前仅支持 1"
    );
    assert_eq!(
        ConfigError::UnsupportedSchema(0).message(),
        "不支持 schema_version=0，当前仅支持 1"
    );
    assert_eq!(
        ConfigError::ThresholdOrder(ThresholdGroup::Mspt).message(),
        "thresholds.mspt 的三个阈值必须严格递增"
    );
    assert_eq!(
        ConfigError::ThresholdRange(ThresholdGroup::Tps).message(),
        "thresholds.tps 的阈值必须是非负有限数值"
    );
    assert_eq!(
        ConfigError::RefreshInterval.message(),
        "refresh_interval_ticks 必须在 5 到 1200 之间"
    );
}

#[test]
fn metric_labels() {
    assert_eq!(BarMetric::Mspt.label(), "MSPT");
    assert_eq!(BarMetric::Tps.label(), "TPS");
    assert_eq!(BarMetric::Ping.label(), "Ping");
}

#[test]
fn op_levels_above_three_mean_four() {
    assert_eq!(permission_level(0), OpLevel::Zero);
    assert_eq!(permission_level(1), OpLevel::One);
    assert_eq!(permission_level(2), OpLevel::Two);
    assert_eq!(permission_level(3), OpLevel::Three);
    assert_eq!(permission_level(4), OpLevel::Four);
    assert_eq!(permission_level(200), OpLevel::Four);
}

#[test]
fn invalid_threshold_order_is_rejected() {
    // The MSPT yellow bound set equal to the green bound: in range, but not ascending.
    let green = 35.0_f64;
    let yellow = green;
    let gold = 80.0_f64;
    let ascending = green < yellow && yellow < gold;
    let mut s = defaults();
    s.mspt_shape = if ascending { ThresholdShape::Valid } else { ThresholdShape::NotAscending };
    assert!(validate_settings(&s).is_err());
}
