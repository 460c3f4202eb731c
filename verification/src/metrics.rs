use vstd::prelude::*;

use crate::config::PingThresholds;

verus! {

/// Health grade of a displayed metric, from best to worst.
#[derive(Debug, Clone, Copy, PartialEq, Eq, Structural)]
pub enum Severity {
    Green,
    Yellow,
    Gold,
    Red,
}

/// Grade of a ping in milliseconds: each threshold is an inclusive upper bound.
pub open spec fn ping_grade(ping: u32, thresholds: PingThresholds) -> Severity {
    if ping <= thresholds.green {
        Severity::Green
    } else if ping <= thresholds.yellow {
        Severity::Yellow
    } else if ping <= thresholds.gold {
        Severity::Gold
    } else {
        Severity::Red
    }
}

/// The position of a severity from best to worst.
pub open spec fn severity_rank(severity: Severity) -> int {
    match severity {
        Severity::Green => 0,
        Severity::Yellow => 1,
        Severity::Gold => 2,
        Severity::Red => 3,
    }
}

/// Each grade is tied to its own inclusive bound: a ping within the green bound is green;
/// above it but within the yellow bound, yellow; above both but within the gold bound,
/// gold; above all three, red.
pub proof fn lemma_ping_grade_bounds(ping: u32, thresholds: PingThresholds)
    ensures
        ping <= thresholds.green ==> ping_grade(ping, thresholds) == Severity::Green,
        thresholds.green < ping <= thresholds.yellow ==> ping_grade(ping, thresholds)
            == Severity::Yellow,
        ping > thresholds.green && ping > thresholds.yellow && ping <= thresholds.gold
            ==> ping_grade(ping, thresholds) == Severity::Gold,
        ping > thresholds.green && ping > thresholds.yellow && ping > thresholds.gold
            ==> ping_grade(ping, thresholds) == Severity::Red,
{
}

/// A higher ping never gets a better grade, whatever the thresholds.
pub proof fn lemma_ping_grade_monotone(lower: u32, higher: u32, thresholds: PingThresholds)
    requires
        lower <= higher,
    ensures
        severity_rank(ping_grade(lower, thresholds)) <= severity_rank(ping_grade(higher, thresholds)),
{
}

/// Grades a ping against the configured inclusive upper bounds.
pub fn ping_severity(ping: u32, thresholds: PingThresholds) -> (severity: Severity)
    ensures
        severity == ping_grade(ping, thresholds),
        ping <= thresholds.green ==> severity == Severity::Green,
        thresholds.green < ping <= thresholds.yellow ==> severity == Severity::Yellow,
        ping > thresholds.green && ping > thresholds.yellow && ping <= thresholds.gold ==> severity
            == Severity::Gold,
        ping > thresholds.green && ping > thresholds.yellow && ping > thresholds.gold ==> severity
            == Severity::Red,
{
    if ping <= thresholds.green {
        Severity::Green
    } else if ping <= thresholds.yellow {
        Severity::Yellow
    } else if ping <= thresholds.gold {
        Severity::Gold
    } else {
        Severity::Red
    }
}

} // verus!
