//! Threat scoring: numeric fusion of event severity, indicator hits and
//! rule hits, on the fixed-point scale of hundredths (0 to 1000 stands for
//! 0.0 to 10.0).

use vstd::prelude::*;

use crate::ioc::{has_ioc, ioc_with_id, IOCMatcher};
use crate::rules::{rule_lookup, BehavioralRuleV, RuleEngine};
use crate::types::{Severity, SystemEvent, SystemEventV, ThreatType, IOCV};

verus! {

/// Base score of a severity, in hundredths: 1.0, 2.5, 5.0, 7.5, 10.0.
pub open spec fn base_score_spec(severity: Severity) -> int {
    match severity {
        Severity::Info => 100,
        Severity::Low => 250,
        Severity::Medium => 500,
        Severity::High => 750,
        Severity::Critical => 1000,
    }
}

/// Clamp a score to the top of the scale.
pub open spec fn score_clamp(t: int) -> int {
    if t > 1000 {
        1000
    } else {
        t
    }
}

/// Points contributed by matched indicators: the base score of each match's
/// severity, or 2.0 when the id is not in the registry.
pub open spec fn ioc_points(registry: Seq<IOCV>, ids: Seq<Seq<char>>) -> int
    decreases ids.len(),
{
    if ids.len() == 0 {
        0
    } else {
        ioc_points(registry, ids.drop_last()) + if has_ioc(registry, ids.last()) {
            base_score_spec(ioc_with_id(registry, ids.last()).severity)
        } else {
            200
        }
    }
}

/// Points contributed by matched rules: the base score of each match's
/// severity, or 2.0 when the id is not in the rule list.
pub open spec fn rule_points(rules: Seq<BehavioralRuleV>, ids: Seq<Seq<char>>) -> int
    decreases ids.len(),
{
    if ids.len() == 0 {
        0
    } else {
        rule_points(rules, ids.drop_last()) + match rule_lookup(rules, ids.last()) {
            Some(rule) => base_score_spec(rule.severity),
            None => 200,
        }
    }
}

/// The score of one event: its severity's base score, plus the points of
/// every indicator and rule match, multiplied by 1.5 when both kinds of
/// match are present, clamped to 10.0.
pub open spec fn score_event_spec(
    e: SystemEventV,
    registry: Seq<IOCV>,
    rules: Seq<BehavioralRuleV>,
    ioc_ids: Seq<Seq<char>>,
    rule_ids: Seq<Seq<char>>,
) -> int {
    let t = base_score_spec(e.severity) + ioc_points(registry, ioc_ids) + rule_points(
        rules,
        rule_ids,
    );
    let m = if ioc_ids.len() > 0 && rule_ids.len() > 0 {
        t + t / 2
    } else {
        t
    };
    score_clamp(m)
}

/// Sum of the base scores of a list of events.
pub open spec fn sum_base_scores(events: Seq<SystemEventV>) -> int
    decreases events.len(),
{
    if events.len() == 0 {
        0
    } else {
        sum_base_scores(events.drop_last()) + base_score_spec(events.last().severity)
    }
}

/// Threat-kind multiplier, in tenths: 2.0, 1.8, 1.5, 1.3, 1.2 or 1.0.
pub open spec fn type_multiplier_tenths(threat_type: ThreatType) -> int {
    match threat_type {
        ThreatType::Ransomware => 20,
        ThreatType::Rootkit => 18,
        ThreatType::DataExfiltration => 15,
        ThreatType::PrivilegeEscalation => 15,
        ThreatType::Malware => 13,
        ThreatType::LateralMovement => 12,
        _ => 10,
    }
}

/// The score of a group of events: the mean of their base scores times the
/// threat-kind multiplier, clamped to 10.0.
pub open spec fn score_threat_spec(events: Seq<SystemEventV>, threat_type: ThreatType) -> int {
    score_clamp(
        (sum_base_scores(events) * type_multiplier_tenths(threat_type)) / (10 * events.len()
            as int),
    )
}

/// The severity a score maps to: below 2.0 `Info`, below 4.0 `Low`, below
/// 6.0 `Medium`, below 8.0 `High`, else `Critical`.
pub open spec fn score_to_severity_spec(score: int) -> Severity {
    if score < 200 {
        Severity::Info
    } else if score < 400 {
        Severity::Low
    } else if score < 600 {
        Severity::Medium
    } else if score < 800 {
        Severity::High
    } else {
        Severity::Critical
    }
}

/// Base score of a severity, executable form.
fn base_score(severity: Severity) -> (r: u32)
    ensures
        r == base_score_spec(severity),
{
    match severity {
        Severity::Info => 100,
        Severity::Low => 250,
        Severity::Medium => 500,
        Severity::High => 750,
        Severity::Critical => 1000,
    }
}

/// Add to a running score, clamping at the top of the scale.
fn cap_add(score: u32, add: u32) -> (r: u32)
    requires
        score <= 1000,
        add <= 1000,
    ensures
        r == score_clamp(score + add),
        r <= 1000,
{
    let s = score + add;
    if s > 1000 {
        1000
    } else {
        s
    }
}

/// Scorer for events and threats.
pub struct ThreatScorer {}

impl ThreatScorer {
    /// A scorer.
    pub fn new() -> (r: Self) {
        ThreatScorer {}
    }

    /// Score one event from its severity and its matches.  The result is
    /// always on the scale, between 0 and 1000.
    pub fn score_event(
        &self,
        event: &SystemEvent,
        ioc_matches: &Vec<String>,
        rule_matches: &Vec<String>,
        ioc_matcher: &IOCMatcher,
        rule_engine: &RuleEngine,
    ) -> (r: u32)
        requires
            ioc_matcher.wf(),
        ensures
            r == score_event_spec(
                event.deep_view(),
                ioc_matcher.registry(),
                rule_engine.rules_view(),
                ioc_matches.deep_view(),
                rule_matches.deep_view(),
            ),
            r <= 1000,
    {
        let ghost registry = ioc_matcher.registry();
        let ghost rules = rule_engine.rules_view();
        let ghost base: int = base_score_spec(event.deep_view().severity);
        let mut score: u32 = base_score(event.severity);
        let n = ioc_matches.len();
        let mut i: usize = 0;
        while i < n
            invariant
                ioc_matcher.wf(),
                registry == ioc_matcher.registry(),
                base == base_score_spec(event.deep_view().severity),
                n == ioc_matches@.len(),
                i <= n,
                score <= 1000,
                score == score_clamp(base + ioc_points(registry, ioc_matches.deep_view().take(
                    i as int,
                ))),
            decreases n - i,
        {
            proof {
                assert(ioc_matches.deep_view()[i as int] == ioc_matches@[i as int]@);
                assert(ioc_matches.deep_view().take(i + 1).drop_last() =~= ioc_matches.deep_view()
                    .take(i as int));
                assert(ioc_matches.deep_view().take(i + 1).last() == ioc_matches.deep_view()[
                    i as int
                ]);
            }
            let add = match ioc_matcher.get_ioc(ioc_matches[i].as_str()) {
                Some(ioc) => base_score(ioc.severity),
                None => 200,
            };
            score = cap_add(score, add);
            i += 1;
        }
        proof {
            assert(ioc_matches.deep_view().take(n as int) =~= ioc_matches.deep_view());
        }
        let ghost with_iocs: int = base + ioc_points(registry, ioc_matches.deep_view());
        let m = rule_matches.len();
        let mut j: usize = 0;
        while j < m
            invariant
                rules == rule_engine.rules_view(),
                with_iocs == base + ioc_points(registry, ioc_matches.deep_view()),
                m == rule_matches@.len(),
                j <= m,
                score <= 1000,
                score == score_clamp(with_iocs + rule_points(rules, rule_matches.deep_view().take(
                    j as int,
                ))),
            decreases m - j,
        {
            proof {
                assert(rule_matches.deep_view()[j as int] == rule_matches@[j as int]@);
                assert(rule_matches.deep_view().take(j + 1).drop_last() =~= rule_matches.deep_view()
                    .take(j as int));
                assert(rule_matches.deep_view().take(j + 1).last() == rule_matches.deep_view()[
                    j as int
                ]);
            }
            let add = match rule_engine.get_rule(rule_matches[j].as_str()) {
                Some(rule) => base_score(rule.severity),
                None => 200,
            };
            score = cap_add(score, add);
            j += 1;
        }
        proof {
            assert(rule_matches.deep_view().take(m as int) =~= rule_matches.deep_view());
        }
        if ioc_matches.len() > 0 && rule_matches.len() > 0 {
            let half = score / 2;
            score = cap_add(score, half);
            proof {
                let t = with_iocs + rule_points(rules, rule_matches.deep_view());
                assert(score == score_clamp(t + t / 2));
            }
        }
        score
    }

    /// Score a group of events for a threat kind.  The result is always on
    /// the scale, between 0 and 1000.
    pub fn score_threat(&self, events: &Vec<SystemEvent>, threat_type: &ThreatType) -> (r: u32)
        requires
            events@.len() > 0,
        ensures
            r == score_threat_spec(events.deep_view(), *threat_type),
            r <= 1000,
    {
        let n = events.len();
        let mut sum: u128 = 0;
        let mut i: usize = 0;
        while i < n
            invariant
                n == events@.len(),
                i <= n,
                sum == sum_base_scores(events.deep_view().take(i as int)),
                sum <= 1000 * i,
            decreases n - i,
        {
            proof {
                assert(events.deep_view()[i as int] == events@[i as int].deep_view());
                assert(events.deep_view().take(i + 1).drop_last() =~= events.deep_view().take(
                    i as int,
                ));
                assert(events.deep_view().take(i + 1).last() == events.deep_view()[i as int]);
            }
            let b = base_score(events[i].severity);
            sum = sum + b as u128;
            i += 1;
        }
        proof {
            assert(events.deep_view().take(n as int) =~= events.deep_view());
        }
        let prod: u128 = match *threat_type {
            ThreatType::Ransomware => sum * 20,
            ThreatType::Rootkit => sum * 18,
            ThreatType::DataExfiltration => sum * 15,
            ThreatType::PrivilegeEscalation => sum * 15,
            ThreatType::Malware => sum * 13,
            ThreatType::LateralMovement => sum * 12,
            _ => sum * 10,
        };
        let denom: u128 = 10 * (n as u128);
        let q = prod / denom;
        if q > 1000 {
            1000
        } else {
            q as u32
        }
    }

    /// Map a score to its severity band.
    pub fn score_to_severity(&self, score: u32) -> (r: Severity)
        ensures
            r == score_to_severity_spec(score as int),
    {
        if score < 200 {
            Severity::Info
        } else if score < 400 {
            Severity::Low
        } else if score < 600 {
            Severity::Medium
        } else if score < 800 {
            Severity::High
        } else {
            Severity::Critical
        }
    }

    /// A score calls for action exactly when it reaches the threshold.
    pub fn exceeds_threshold(&self, score: u32, threshold: u32) -> (r: bool)
        ensures
            r == (score >= threshold),
    {
        score >= threshold
    }
}

} // verus!
