use vstd::prelude::*;

use crate::metrics::Severity;

verus! {

/// The colors a boss bar can take in this plugin.
#[derive(Debug, Clone, Copy, PartialEq, Eq, Structural)]
pub enum BarColor {
    Green,
    Yellow,
    Red,
}

/// The named text colors this plugin writes with.
#[derive(Debug, Clone, Copy, PartialEq, Eq, Structural)]
pub enum TextColor {
    Green,
    Yellow,
    Gold,
    Red,
    Gray,
}

/// The boss bar color of a severity: boss bars have no gold, so gold shows as yellow.
pub open spec fn bar_color_of(severity: Severity) -> BarColor {
    match severity {
        Severity::Green => BarColor::Green,
        Severity::Yellow | Severity::Gold => BarColor::Yellow,
        Severity::Red => BarColor::Red,
    }
}

/// The boss bar color of a severity.
pub fn bossbar_color(severity: Severity) -> (color: BarColor)
    ensures
        color == bar_color_of(severity),
        severity == Severity::Green ==> color == BarColor::Green,
        severity == Severity::Yellow ==> color == BarColor::Yellow,
        severity == Severity::Gold ==> color == BarColor::Yellow,
        severity == Severity::Red ==> color == BarColor::Red,
{
    match severity {
        Severity::Green => BarColor::Green,
        Severity::Yellow | Severity::Gold => BarColor::Yellow,
        Severity::Red => BarColor::Red,
    }
}

/// The text color in which a value of a severity is written.
pub open spec fn text_color_of(severity: Severity) -> TextColor {
    match severity {
        Severity::Green => TextColor::Green,
        Severity::Yellow => TextColor::Yellow,
        Severity::Gold => TextColor::Gold,
        Severity::Red => TextColor::Red,
    }
}

/// A value is written in the color named like its severity: healthy values green,
/// warnings yellow or gold, bad values red; and no two severities share a text color.
pub proof fn lemma_text_color_is_named_after_severity(severity: Severity, other: Severity)
    ensures
        severity == Severity::Green ==> text_color_of(severity) == TextColor::Green,
        severity == Severity::Yellow ==> text_color_of(severity) == TextColor::Yellow,
        severity == Severity::Gold ==> text_color_of(severity) == TextColor::Gold,
        severity == Severity::Red ==> text_color_of(severity) == TextColor::Red,
        text_color_of(severity) != TextColor::Gray,
        severity != other ==> text_color_of(severity) != text_color_of(other),
{
}

/// A boss bar is green for a healthy severity, red for a bad one and yellow in between
/// (gold has no boss bar color of its own).
pub proof fn lemma_bar_color_follows_severity(severity: Severity)
    ensures
        severity == Severity::Green ==> bar_color_of(severity) == BarColor::Green,
        severity == Severity::Yellow ==> bar_color_of(severity) == BarColor::Yellow,
        severity == Severity::Gold ==> bar_color_of(severity) == BarColor::Yellow,
        severity == Severity::Red ==> bar_color_of(severity) == BarColor::Red,
{
}

/// The text color in which a value of a severity is written.
pub fn severity_text_color(severity: Severity) -> (color: TextColor)
    ensures
        color == text_color_of(severity),
        severity == Severity::Green ==> color == TextColor::Green,
        severity == Severity::Yellow ==> color == TextColor::Yellow,
        severity == Severity::Gold ==> color == TextColor::Gold,
        severity == Severity::Red ==> color == TextColor::Red,
{
    match severity {
        Severity::Green => TextColor::Green,
        Severity::Yellow => TextColor::Yellow,
        Severity::Gold => TextColor::Gold,
        Severity::Red => TextColor::Red,
    }
}

} // verus!
