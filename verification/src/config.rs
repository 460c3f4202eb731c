use vstd::prelude::*;

use crate::text::{decimal, push_decimal, string_from_chars};

verus! {

/// The only settings schema version this plugin understands.
pub const CONFIG_SCHEMA_VERSION: u32 = 1;

/// The metric that fills the boss bar.
#[derive(Debug, Clone, Copy, PartialEq, Eq, Structural)]
pub enum BarMetric {
    Mspt,
    Tps,
    Ping,
}

/// The name under which a metric is shown to players.
pub open spec fn metric_label(metric: BarMetric) -> Seq<char> {
    match metric {
        BarMetric::Mspt => "MSPT"@,
        BarMetric::Tps => "TPS"@,
        BarMetric::Ping => "Ping"@,
    }
}

impl BarMetric {
    /// The name under which this metric is shown to players.
    pub fn label(self) -> (label: &'static str)
        ensures
            label@ == metric_label(self),
            self == BarMetric::Mspt ==> label@ == "MSPT"@,
            self == BarMetric::Tps ==> label@ == "TPS"@,
            self == BarMetric::Ping ==> label@ == "Ping"@,
    {
        match self {
            BarMetric::Mspt => "MSPT",
            BarMetric::Tps => "TPS",
            BarMetric::Ping => "Ping",
        }
    }
}

impl Default for BarMetric {
    /// The boss bar fills by MSPT unless configured otherwise.
    fn default() -> (metric: Self)
        ensures
            metric == BarMetric::Mspt,
    {
        BarMetric::Mspt
    }
}

/// Who may use the toggle command by default.
#[derive(Debug, Clone, Copy, PartialEq, Eq, Structural)]
pub struct PermissionConfig {
    /// The operator level, 0 to 4, that is granted the command by default.
    pub default_op_level: u8,
}

impl Default for PermissionConfig {
    /// Operators of level 3 and above may toggle the bar by default.
    fn default() -> (config: Self)
        ensures
            config.default_op_level == 3,
    {
        PermissionConfig { default_op_level: 3 }
    }
}

/// Inclusive upper bounds, in milliseconds, of the green, yellow and gold ping grades.
#[derive(Debug, Clone, Copy, PartialEq, Eq, Structural)]
pub struct PingThresholds {
    pub green: u32,
    pub yellow: u32,
    pub gold: u32,
}

impl Default for PingThresholds {
    /// Green up to 60 ms, yellow up to 120 ms, gold up to 200 ms.
    fn default() -> (thresholds: Self)
        ensures
            thresholds.green == 60,
            thresholds.yellow == 120,
            thresholds.gold == 200,
    {
        PingThresholds { green: 60, yellow: 120, gold: 200 }
    }
}

/// The group of thresholds that a threshold error speaks of.
#[derive(Debug, Clone, Copy, PartialEq, Eq, Structural)]
pub enum ThresholdGroup {
    Mspt,
    Tps,
}

/// What the checks of a triple of decimal thresholds found: all three finite and
/// non-negative, and strictly increasing.
#[derive(Debug, Clone, Copy, PartialEq, Eq, Structural)]
pub enum ThresholdShape {
    Valid,
    /// Some value is not finite, or is negative.
    OutOfRange,
    /// The values are in range but not strictly increasing.
    NotAscending,
}

/// The settings as the checks read them: integers as they are, and for each decimal
/// setting the outcome of its range test.
#[derive(Debug, Clone, Copy, PartialEq, Eq, Structural)]
pub struct SettingsCheck {
    pub schema_version: u32,
    pub refresh_interval_ticks: u64,
    /// The target TPS is finite and within 1.0 ..= 100.0.
    pub target_tps_in_range: bool,
    /// The MSPT that fills the bar is finite and positive.
    pub mspt_full_positive: bool,
    /// The ping that fills the bar is finite and positive.
    pub ping_full_positive: bool,
    pub default_op_level: u8,
    pub mspt_shape: ThresholdShape,
    pub tps_shape: ThresholdShape,
    pub ping: PingThresholds,
}

/// Why a settings file was not accepted.
#[derive(Debug, Clone, Copy, PartialEq, Eq, Structural)]
pub enum ConfigError {
    UnsupportedSchema(u32),
    RefreshInterval,
    TargetTps,
    MsptFull,
    PingFull,
    OpLevel,
    ThresholdRange(ThresholdGroup),
    ThresholdOrder(ThresholdGroup),
    PingOrder,
}

/// The first failed check, in the order in which the settings are checked.
pub open spec fn settings_verdict(s: SettingsCheck) -> Result<(), ConfigError> {
    if s.schema_version != CONFIG_SCHEMA_VERSION {
        Err(ConfigError::UnsupportedSchema(s.schema_version))
    } else if !(5 <= s.refresh_interval_ticks <= 1200) {
        Err(ConfigError::RefreshInterval)
    } else if !s.target_tps_in_range {
        Err(ConfigError::TargetTps)
    } else if !s.mspt_full_positive {
        Err(ConfigError::MsptFull)
    } else if !s.ping_full_positive {
        Err(ConfigError::PingFull)
    } else if s.default_op_level > 4 {
        Err(ConfigError::OpLevel)
    } else if s.mspt_shape == ThresholdShape::OutOfRange {
        Err(ConfigError::ThresholdRange(ThresholdGroup::Mspt))
    } else if s.mspt_shape == ThresholdShape::NotAscending {
        Err(ConfigError::ThresholdOrder(ThresholdGroup::Mspt))
    } else if s.tps_shape == ThresholdShape::OutOfRange {
        Err(ConfigError::ThresholdRange(ThresholdGroup::Tps))
    } else if s.tps_shape == ThresholdShape::NotAscending {
        Err(ConfigError::ThresholdOrder(ThresholdGroup::Tps))
    } else if !(s.ping.green < s.ping.yellow && s.ping.yellow < s.ping.gold) {
        Err(ConfigError::PingOrder)
    } else {
        Ok(())
    }
}

/// Whether every check passes.
pub open spec fn settings_acceptable(s: SettingsCheck) -> bool {
    &&& s.schema_version == CONFIG_SCHEMA_VERSION
    &&& 5 <= s.refresh_interval_ticks <= 1200
    &&& s.target_tps_in_range
    &&& s.mspt_full_positive
    &&& s.ping_full_positive
    &&& s.default_op_level <= 4
    &&& s.mspt_shape == ThresholdShape::Valid
    &&& s.tps_shape == ThresholdShape::Valid
    &&& s.ping.green < s.ping.yellow < s.ping.gold
}

/// The settings checks in their order: each check's error is reported exactly when every
/// earlier check passed and it fails; the settings are accepted exactly when all pass, and
/// in particular only with both decimal threshold triples in range and strictly increasing.
pub proof fn lemma_settings_checks_in_order(s: SettingsCheck)
    ensures
        s.schema_version != 1 ==> settings_verdict(s) == Err::<(), ConfigError>(ConfigError::UnsupportedSchema(
            s.schema_version,
        )),
        s.schema_version == 1 && (s.refresh_interval_ticks < 5 || s.refresh_interval_ticks > 1200)
            ==> settings_verdict(s) == Err::<(), ConfigError>(ConfigError::RefreshInterval),
        (s.schema_version == 1 && 5 <= s.refresh_interval_ticks <= 1200) && !s.target_tps_in_range ==> settings_verdict(s) == Err::<(), ConfigError>(ConfigError::TargetTps),
        (s.schema_version == 1 && 5 <= s.refresh_interval_ticks <= 1200) && s.target_tps_in_range && !s.mspt_full_positive ==> settings_verdict(s) == Err::<(), ConfigError>(
            ConfigError::MsptFull,
        ),
        (s.schema_version == 1 && 5 <= s.refresh_interval_ticks <= 1200) && s.target_tps_in_range && s.mspt_full_positive && !s.ping_full_positive
            ==> settings_verdict(s) == Err::<(), ConfigError>(ConfigError::PingFull),
        (s.schema_version == 1 && 5 <= s.refresh_interval_ticks <= 1200 && s.target_tps_in_range && s.mspt_full_positive && s.ping_full_positive) && s.default_op_level > 4 ==> settings_verdict(s) == Err::<(), ConfigError>(ConfigError::OpLevel),
        (s.schema_version == 1 && 5 <= s.refresh_interval_ticks <= 1200 && s.target_tps_in_range && s.mspt_full_positive && s.ping_full_positive) && s.default_op_level <= 4 && s.mspt_shape == ThresholdShape::OutOfRange ==> settings_verdict(s)
            == Err::<(), ConfigError>(ConfigError::ThresholdRange(ThresholdGroup::Mspt)),
        (s.schema_version == 1 && 5 <= s.refresh_interval_ticks <= 1200 && s.target_tps_in_range && s.mspt_full_positive && s.ping_full_positive) && s.default_op_level <= 4 && s.mspt_shape == ThresholdShape::NotAscending ==> settings_verdict(s)
            == Err::<(), ConfigError>(ConfigError::ThresholdOrder(ThresholdGroup::Mspt)),
        (s.schema_version == 1 && 5 <= s.refresh_interval_ticks <= 1200 && s.target_tps_in_range && s.mspt_full_positive && s.ping_full_positive && s.default_op_level <= 4 && s.mspt_shape == ThresholdShape::Valid) && s.tps_shape == ThresholdShape::OutOfRange ==> settings_verdict(s) == Err::<(), ConfigError>(
            ConfigError::ThresholdRange(ThresholdGroup::Tps),
        ),
        (s.schema_version == 1 && 5 <= s.refresh_interval_ticks <= 1200 && s.target_tps_in_range && s.mspt_full_positive && s.ping_full_positive && s.default_op_level <= 4 && s.mspt_shape == ThresholdShape::Valid) && s.tps_shape == ThresholdShape::NotAscending ==> settings_verdict(s) == Err::<(), ConfigError>(
            ConfigError::ThresholdOrder(ThresholdGroup::Tps),
        ),
        (s.schema_version == 1 && 5 <= s.refresh_interval_ticks <= 1200 && s.target_tps_in_range && s.mspt_full_positive && s.ping_full_positive && s.default_op_level <= 4 && s.mspt_shape == ThresholdShape::Valid) && s.tps_shape == ThresholdShape::Valid && !(s.ping.green < s.ping.yellow
            && s.ping.yellow < s.ping.gold) ==> settings_verdict(s) == Err::<(), ConfigError>(ConfigError::PingOrder),
        settings_verdict(s) is Ok ==> s.schema_version == 1 && 5 <= s.refresh_interval_ticks <= 1200
            && s.target_tps_in_range && s.mspt_full_positive && s.ping_full_positive
            && s.default_op_level <= 4 && s.mspt_shape == ThresholdShape::Valid && s.tps_shape
            == ThresholdShape::Valid && s.ping.green < s.ping.yellow && s.ping.yellow < s.ping.gold,
        (s.schema_version == 1 && 5 <= s.refresh_interval_ticks <= 1200 && s.target_tps_in_range && s.mspt_full_positive && s.ping_full_positive && s.default_op_level <= 4 && s.mspt_shape == ThresholdShape::Valid) && s.tps_shape == ThresholdShape::Valid && s.ping.green < s.ping.yellow
            && s.ping.yellow < s.ping.gold ==> settings_verdict(s) is Ok,
{
}

/// Checks the settings in order and reports the first check that fails.
pub fn validate_settings(s: &SettingsCheck) -> (verdict: Result<(), ConfigError>)
    ensures
        verdict == settings_verdict(*s),
        verdict is Ok <==> settings_acceptable(*s),
        s.schema_version != 1 ==> verdict == Err::<(), ConfigError>(ConfigError::UnsupportedSchema(
            s.schema_version,
        )),
        s.schema_version == 1 && (s.refresh_interval_ticks < 5 || s.refresh_interval_ticks > 1200)
            ==> verdict == Err::<(), ConfigError>(ConfigError::RefreshInterval),
        (s.schema_version == 1 && 5 <= s.refresh_interval_ticks <= 1200) && !s.target_tps_in_range ==> verdict == Err::<(), ConfigError>(ConfigError::TargetTps),
        (s.schema_version == 1 && 5 <= s.refresh_interval_ticks <= 1200) && s.target_tps_in_range && !s.mspt_full_positive ==> verdict == Err::<(), ConfigError>(
            ConfigError::MsptFull,
        ),
        (s.schema_version == 1 && 5 <= s.refresh_interval_ticks <= 1200) && s.target_tps_in_range && s.mspt_full_positive && !s.ping_full_positive
            ==> verdict == Err::<(), ConfigError>(ConfigError::PingFull),
        (s.schema_version == 1 && 5 <= s.refresh_interval_ticks <= 1200 && s.target_tps_in_range && s.mspt_full_positive && s.ping_full_positive) && s.default_op_level > 4 ==> verdict == Err::<(), ConfigError>(ConfigError::OpLevel),
        (s.schema_version == 1 && 5 <= s.refresh_interval_ticks <= 1200 && s.target_tps_in_range && s.mspt_full_positive && s.ping_full_positive) && s.default_op_level <= 4 && s.mspt_shape == ThresholdShape::OutOfRange ==> verdict
            == Err::<(), ConfigError>(ConfigError::ThresholdRange(ThresholdGroup::Mspt)),
        (s.schema_version == 1 && 5 <= s.refresh_interval_ticks <= 1200 && s.target_tps_in_range && s.mspt_full_positive && s.ping_full_positive) && s.default_op_level <= 4 && s.mspt_shape == ThresholdShape::NotAscending ==> verdict
            == Err::<(), ConfigError>(ConfigError::ThresholdOrder(ThresholdGroup::Mspt)),
        (s.schema_version == 1 && 5 <= s.refresh_interval_ticks <= 1200 && s.target_tps_in_range && s.mspt_full_positive && s.ping_full_positive && s.default_op_level <= 4 && s.mspt_shape == ThresholdShape::Valid) && s.tps_shape == ThresholdShape::OutOfRange ==> verdict == Err::<(), ConfigError>(
            ConfigError::ThresholdRange(ThresholdGroup::Tps),
        ),
        (s.schema_version == 1 && 5 <= s.refresh_interval_ticks <= 1200 && s.target_tps_in_range && s.mspt_full_positive && s.ping_full_positive && s.default_op_level <= 4 && s.mspt_shape == ThresholdShape::Valid) && s.tps_shape == ThresholdShape::NotAscending ==> verdict == Err::<(), ConfigError>(
            ConfigError::ThresholdOrder(ThresholdGroup::Tps),
        ),
        (s.schema_version == 1 && 5 <= s.refresh_interval_ticks <= 1200 && s.target_tps_in_range && s.mspt_full_positive && s.ping_full_positive && s.default_op_level <= 4 && s.mspt_shape == ThresholdShape::Valid) && s.tps_shape == ThresholdShape::Valid && !(s.ping.green < s.ping.yellow
            && s.ping.yellow < s.ping.gold) ==> verdict == Err::<(), ConfigError>(ConfigError::PingOrder),
        verdict is Ok ==> s.schema_version == 1 && 5 <= s.refresh_interval_ticks <= 1200
            && s.target_tps_in_range && s.mspt_full_positive && s.ping_full_positive
            && s.default_op_level <= 4 && s.mspt_shape == ThresholdShape::Valid && s.tps_shape
            == ThresholdShape::Valid && s.ping.green < s.ping.yellow && s.ping.yellow < s.ping.gold,
        (s.schema_version == 1 && 5 <= s.refresh_interval_ticks <= 1200 && s.target_tps_in_range && s.mspt_full_positive && s.ping_full_positive && s.default_op_level <= 4 && s.mspt_shape == ThresholdShape::Valid) && s.tps_shape == ThresholdShape::Valid && s.ping.green < s.ping.yellow
            && s.ping.yellow < s.ping.gold ==> verdict is Ok,
{
    if s.schema_version != CONFIG_SCHEMA_VERSION {
        return Err(ConfigError::UnsupportedSchema(s.schema_version));
    }
    if !(5 <= s.refresh_interval_ticks && s.refresh_interval_ticks <= 1200) {
        return Err(ConfigError::RefreshInterval);
    }
    if !s.target_tps_in_range {
        return Err(ConfigError::TargetTps);
    }
    if !s.mspt_full_positive {
        return Err(ConfigError::MsptFull);
    }
    if !s.ping_full_positive {
        return Err(ConfigError::PingFull);
    }
    if s.default_op_level > 4 {
        return Err(ConfigError::OpLevel);
    }
    match s.mspt_shape {
        ThresholdShape::OutOfRange => {
            return Err(ConfigError::ThresholdRange(ThresholdGroup::Mspt));
        },
        ThresholdShape::NotAscending => {
            return Err(ConfigError::ThresholdOrder(ThresholdGroup::Mspt));
        },
        ThresholdShape::Valid => {},
    }
    match s.tps_shape {
        ThresholdShape::OutOfRange => {
            return Err(ConfigError::ThresholdRange(ThresholdGroup::Tps));
        },
        ThresholdShape::NotAscending => {
            return Err(ConfigError::ThresholdOrder(ThresholdGroup::Tps));
        },
        ThresholdShape::Valid => {},
    }
    if !(s.ping.green < s.ping.yellow && s.ping.yellow < s.ping.gold) {
        return Err(ConfigError::PingOrder);
    }
    Ok(())
}

/// The name under which a threshold group appears in the settings file.
pub open spec fn group_name(group: ThresholdGroup) -> Seq<char> {
    match group {
        ThresholdGroup::Mspt => "thresholds.mspt"@,
        ThresholdGroup::Tps => "thresholds.tps"@,
    }
}

/// The text that explains a settings error to the server operator.
pub open spec fn config_error_text(error: ConfigError) -> Seq<char> {
    match error {
        ConfigError::UnsupportedSchema(v) => "不支持 schema_version="@ + decimal(v as nat)
            + "，当前仅支持 1"@,
        ConfigError::RefreshInterval => "refresh_interval_ticks 必须在 5 到 1200 之间"@,
        ConfigError::TargetTps => "target_tps 必须是 1.0 到 100.0 之间的有限数值"@,
        ConfigError::MsptFull => "bar.mspt_full 必须是正的有限数值"@,
        ConfigError::PingFull => "bar.ping_full 必须是正的有限数值"@,
        ConfigError::OpLevel => "permission.default_op_level 必须在 0 到 4 之间"@,
        ConfigError::ThresholdRange(g) => group_name(g) + " 的阈值必须是非负有限数值"@,
        ConfigError::ThresholdOrder(g) => group_name(g) + " 的三个阈值必须严格递增"@,
        ConfigError::PingOrder => "thresholds.ping 的三个阈值必须严格递增"@,
    }
}

impl ThresholdGroup {
    /// The name under which this group appears in the settings file.
    pub fn name(self) -> (name: &'static str)
        ensures
            name@ == group_name(self),
    {
        match self {
            ThresholdGroup::Mspt => "thresholds.mspt",
            ThresholdGroup::Tps => "thresholds.tps",
        }
    }
}

impl ConfigError {
    /// The text that explains this error to the server operator.
    pub fn message(&self) -> (text: String)
        ensures
            text@ == config_error_text(*self),
    {
        match self {
            ConfigError::UnsupportedSchema(v) => {
                let mut digits: Vec<char> = Vec::new();
                push_decimal(&mut digits, *v as u64);
                let number = string_from_chars(&digits);
                let mut text = String::from_str("不支持 schema_version=");
                text.append(number.as_str());
                text.append("，当前仅支持 1");
                text
            },
            ConfigError::RefreshInterval => String::from_str(
                "refresh_interval_ticks 必须在 5 到 1200 之间",
            ),
            ConfigError::TargetTps => String::from_str(
                "target_tps 必须是 1.0 到 100.0 之间的有限数值",
            ),
            ConfigError::MsptFull => String::from_str("bar.mspt_full 必须是正的有限数值"),
            ConfigError::PingFull => String::from_str("bar.ping_full 必须是正的有限数值"),
            ConfigError::OpLevel => String::from_str(
                "permission.default_op_level 必须在 0 到 4 之间",
            ),
            ConfigError::ThresholdRange(g) => {
                let mut text = String::from_str(g.name());
                text.append(" 的阈值必须是非负有限数值");
                text
            },
            ConfigError::ThresholdOrder(g) => {
                let mut text = String::from_str(g.name());
                text.append(" 的三个阈值必须严格递增");
                text
            },
            ConfigError::PingOrder => String::from_str("thresholds.ping 的三个阈值必须严格递增"),
        }
    }
}

/// The operator levels of the permission system.
#[derive(Debug, Clone, Copy, PartialEq, Eq, Structural)]
pub enum OpLevel {
    Zero,
    One,
    Two,
    Three,
    Four,
}

/// The operator level that a configured number stands for; numbers above 3 mean level 4.
pub open spec fn op_level_of(level: u8) -> OpLevel {
    if level == 0 {
        OpLevel::Zero
    } else if level == 1 {
        OpLevel::One
    } else if level == 2 {
        OpLevel::Two
    } else if level == 3 {
        OpLevel::Three
    } else {
        OpLevel::Four
    }
}

/// A configured level 0 to 3 is that operator level; anything from 4 up is level 4.
pub proof fn lemma_op_level_matches_number(level: u8)
    ensures
        level == 0 ==> op_level_of(level) == OpLevel::Zero,
        level == 1 ==> op_level_of(level) == OpLevel::One,
        level == 2 ==> op_level_of(level) == OpLevel::Two,
        level == 3 ==> op_level_of(level) == OpLevel::Three,
        level >= 4 ==> op_level_of(level) == OpLevel::Four,
{
}

/// The operator level that grants the toggle command by default.
pub fn permission_level(level: u8) -> (op: OpLevel)
    ensures
        op == op_level_of(level),
        level == 0 ==> op == OpLevel::Zero,
        level == 1 ==> op == OpLevel::One,
        level == 2 ==> op == OpLevel::Two,
        level == 3 ==> op == OpLevel::Three,
        level >= 4 ==> op == OpLevel::Four,
{
    match level {
        0 => OpLevel::Zero,
        1 => OpLevel::One,
        2 => OpLevel::Two,
        3 => OpLevel::Three,
        _ => OpLevel::Four,
    }
}

} // verus!
