//! Detection engine: wires the indicator matcher, the rule engine, the
//! scorer and the correlator, and turns events whose score reaches the
//! threshold into threats.
//!
//! Thresholds and scores are in hundredths (700 stands for 7.0).

use vstd::prelude::*;

use crate::correlator::{
    evict_old, expected_findings, pid_index_add, threats_match_findings, EventCorrelator,
};
use crate::ids::fresh_threat_id;
use crate::ioc::{default_iocs, ioc_matches_spec, upsert_all, IOCMatcher};
use crate::rules::{default_rules, rule_matches_spec, RuleEngine};
use crate::scoring::{score_event_spec, score_to_severity_spec, ThreatScorer};
use crate::text::{dec_str, join_seq, join_with, seq_contains, u64_to_dec, contains_sub};
use crate::types::{EventType, SystemEvent, SystemEventV, Threat, ThreatType, ThreatV};

verus! {

/// The threat kind of an event without a matching classifier keyword,
/// chosen by its event kind.
pub open spec fn classify_by_kind(t: EventType) -> ThreatType {
    match t {
        EventType::ProcessCreated => ThreatType::SuspiciousProcess,
        EventType::ProcessModified => ThreatType::SuspiciousProcess,
        EventType::NetworkConnection => ThreatType::SuspiciousNetwork,
        EventType::NetworkDnsQuery => ThreatType::SuspiciousNetwork,
        EventType::RootkitDetected => ThreatType::Rootkit,
        EventType::MemoryInjection => ThreatType::Malware,
        _ => ThreatType::AnomalousBehavior,
    }
}

/// The threat kind a matched rule id names, if any: the first classifier
/// keyword it holds wins.  A root process spawn is an escalation of
/// privilege, so its rule id classifies as privilege escalation.
pub open spec fn keyword_kind(id: Seq<char>) -> Option<ThreatType> {
    if seq_contains(id, "ransomware"@) {
        Some(ThreatType::Ransomware)
    } else if seq_contains(id, "rootkit"@) {
        Some(ThreatType::Rootkit)
    } else if seq_contains(id, "privilege_escalation"@) {
        Some(ThreatType::PrivilegeEscalation)
    } else if seq_contains(id, "lateral_movement"@) {
        Some(ThreatType::LateralMovement)
    } else if seq_contains(id, "exfiltration"@) {
        Some(ThreatType::DataExfiltration)
    } else if seq_contains(id, "root_process_spawn"@) {
        Some(ThreatType::PrivilegeEscalation)
    } else {
        None
    }
}

/// The threat kind of an event: the first matched rule id holding a
/// classifier keyword decides; otherwise the event kind does.
pub open spec fn classify_spec(e: SystemEventV, rule_ids: Seq<Seq<char>>) -> ThreatType
    decreases rule_ids.len(),
{
    if rule_ids.len() == 0 {
        classify_by_kind(e.event_type)
    } else {
        match keyword_kind(rule_ids.first()) {
            Some(kind) => kind,
            None => classify_spec(e, rule_ids.skip(1)),
        }
    }
}

/// The name of an event kind, as its record spells it.
pub open spec fn event_type_name_spec(t: EventType) -> Seq<char> {
    match t {
        EventType::ProcessCreated => "ProcessCreated"@,
        EventType::ProcessTerminated => "ProcessTerminated"@,
        EventType::ProcessModified => "ProcessModified"@,
        EventType::FileCreated => "FileCreated"@,
        EventType::FileModified => "FileModified"@,
        EventType::FileDeleted => "FileDeleted"@,
        EventType::FileAccessed => "FileAccessed"@,
        EventType::NetworkConnection => "NetworkConnection"@,
        EventType::NetworkDnsQuery => "NetworkDnsQuery"@,
        EventType::NetworkHttpRequest => "NetworkHttpRequest"@,
        EventType::MemoryInjection => "MemoryInjection"@,
        EventType::MemoryAllocation => "MemoryAllocation"@,
        EventType::UserLogin => "UserLogin"@,
        EventType::UserLogout => "UserLogout"@,
        EventType::UserElevation => "UserElevation"@,
        EventType::RootkitDetected => "RootkitDetected"@,
        EventType::SuspiciousBehavior => "SuspiciousBehavior"@,
    }
}

/// The one-line account a threat carries: the event kind, how many
/// indicators matched (when any did), and which rules matched (when any
/// did).
pub open spec fn threat_description_spec(
    e: SystemEventV,
    ioc_ids: Seq<Seq<char>>,
    rule_ids: Seq<Seq<char>>,
) -> Seq<char> {
    "Event: "@ + event_type_name_spec(e.event_type) + (if ioc_ids.len() > 0 {
        " | IOC matches: "@ + dec_str(ioc_ids.len() as int)
    } else {
        Seq::empty()
    }) + (if rule_ids.len() > 0 {
        " | Rule matches: "@ + join_seq(rule_ids, ", "@)
    } else {
        Seq::empty()
    })
}

/// The name of an event kind, executable form.
fn event_type_name(t: EventType) -> (r: &'static str)
    ensures
        r@ == event_type_name_spec(t),
{
    match t {
        EventType::ProcessCreated => "ProcessCreated",
        EventType::ProcessTerminated => "ProcessTerminated",
        EventType::ProcessModified => "ProcessModified",
        EventType::FileCreated => "FileCreated",
        EventType::FileModified => "FileModified",
        EventType::FileDeleted => "FileDeleted",
        EventType::FileAccessed => "FileAccessed",
        EventType::NetworkConnection => "NetworkConnection",
        EventType::NetworkDnsQuery => "NetworkDnsQuery",
        EventType::NetworkHttpRequest => "NetworkHttpRequest",
        EventType::MemoryInjection => "MemoryInjection",
        EventType::MemoryAllocation => "MemoryAllocation",
        EventType::UserLogin => "UserLogin",
        EventType::UserLogout => "UserLogout",
        EventType::UserElevation => "UserElevation",
        EventType::RootkitDetected => "RootkitDetected",
        EventType::SuspiciousBehavior => "SuspiciousBehavior",
    }
}

/// Orchestrator for the detection pipeline.
pub struct DetectionEngine {
    ioc_matcher: IOCMatcher,
    rule_engine: RuleEngine,
    threat_scorer: ThreatScorer,
    event_correlator: EventCorrelator,
    threat_threshold: u32,
}

impl DetectionEngine {
    /// The indicator matcher.
    pub closed spec fn matcher(self) -> IOCMatcher {
        self.ioc_matcher
    }

    /// The rule engine.
    pub closed spec fn rules(self) -> RuleEngine {
        self.rule_engine
    }

    /// The correlator.
    pub closed spec fn correlator(self) -> EventCorrelator {
        self.event_correlator
    }

    /// The per-event threat threshold, in hundredths.
    pub closed spec fn threshold(self) -> u32 {
        self.threat_threshold
    }

    /// Well-formed: matcher and correlator invariants hold.
    pub open spec fn wf(self) -> bool {
        self.matcher().wf() && self.correlator().wf()
    }

    /// An engine with the given per-event threshold (in hundredths) and
    /// nothing loaded.
    pub fn new(threat_threshold: u32) -> (r: Self)
        ensures
            r.wf(),
            r.threshold() == threat_threshold,
            r.matcher().registry() =~= Seq::<crate::types::IOCV>::empty(),
            r.matcher().process_list() =~= Seq::<crate::types::IOCV>::empty(),
            r.matcher().path_list() =~= Seq::<crate::types::IOCV>::empty(),
            r.matcher().ip_list() =~= Seq::<crate::types::IOCV>::empty(),
            r.matcher().hash_list() =~= Seq::<crate::types::IOCV>::empty(),
            r.matcher().domain_list() =~= Seq::<crate::types::IOCV>::empty(),
            r.rules().rules_view() =~= Seq::<crate::rules::BehavioralRuleV>::empty(),
            r.correlator().window() =~= Seq::<(u64, SystemEventV)>::empty(),
            r.correlator().pid_index() =~= Seq::<(u32, Seq<SystemEventV>)>::empty(),
    {
        DetectionEngine {
            ioc_matcher: IOCMatcher::new(),
            rule_engine: RuleEngine::new(),
            threat_scorer: ThreatScorer::new(),
            event_correlator: EventCorrelator::new(),
            threat_threshold,
        }
    }

    /// Load the built-in indicators and rules.
    pub fn initialize(&mut self)
        requires
            old(self).wf(),
        ensures
            final(self).wf(),
            final(self).matcher().registry() == upsert_all(
                old(self).matcher().registry(),
                default_iocs(),
            ),
            final(self).matcher().registry().len() > 0,
            final(self).matcher().process_list() == old(self).matcher().process_list()
                + default_iocs().subrange(0, 5),
            final(self).matcher().path_list() == old(self).matcher().path_list()
                + default_iocs().subrange(5, 10),
            final(self).matcher().ip_list() == old(self).matcher().ip_list()
                + default_iocs().subrange(10, 12),
            final(self).matcher().hash_list() == old(self).matcher().hash_list(),
            final(self).matcher().domain_list() == old(self).matcher().domain_list(),
            final(self).rules().rules_view() == old(self).rules().rules_view() + default_rules(),
            final(self).correlator() == old(self).correlator(),
            final(self).threshold() == old(self).threshold(),
    {
        self.ioc_matcher.load_iocs();
        self.rule_engine.load_rules();
    }

    /// Run one event through matching, rules and scoring, hand it to the
    /// correlator stamped `now`, and return a threat exactly when its score
    /// reaches the threshold.  The threat carries the event, both match
    /// lists, the score's severity and the classified kind.
    pub fn process_event(&mut self, event: SystemEvent, now: u64) -> (r: Option<Threat>)
        requires
            old(self).wf(),
            old(self).correlator().window().len() > 0 ==> old(self).correlator().window().last().0
                <= now,
        ensures
            final(self).wf(),
            final(self).matcher() == old(self).matcher(),
            final(self).rules() == old(self).rules(),
            final(self).threshold() == old(self).threshold(),
            final(self).correlator().window() == evict_old(
                old(self).correlator().window(),
                now,
            ).push((now, event.deep_view())),
            final(self).correlator().pid_index() == pid_index_add(
                old(self).correlator().pid_index(),
                event.deep_view(),
            ),
            ({
                let e = event.deep_view();
                let ioc_ids = ioc_matches_spec(old(self).matcher(), e);
                let rule_ids = rule_matches_spec(old(self).rules().rules_view(), e);
                let score = score_event_spec(
                    e,
                    old(self).matcher().registry(),
                    old(self).rules().rules_view(),
                    ioc_ids,
                    rule_ids,
                );
                match r {
                    Some(t) => score >= old(self).threshold() && t.deep_view()
                        == (ThreatV {
                        id: t.deep_view().id,
                        timestamp: event.deep_view().timestamp,
                        threat_type: classify_spec(e, rule_ids),
                        severity: score_to_severity_spec(score),
                        score: score as u32,
                        description: threat_description_spec(e, ioc_ids, rule_ids),
                        events: seq![e],
                        ioc_matches: ioc_ids,
                        rule_matches: rule_ids,
                    }),
                    None => score < old(self).threshold(),
                }
            }),
    {
        let ioc_matches = self.ioc_matcher.check_event(&event);
        let rule_matches = self.rule_engine.check_event(&event);
        let score = self.threat_scorer.score_event(
            &event,
            &ioc_matches,
            &rule_matches,
            &self.ioc_matcher,
            &self.rule_engine,
        );
        self.event_correlator.add_event(event.clone(), now);
        if self.threat_scorer.exceeds_threshold(score, self.threat_threshold) {
            let severity = self.threat_scorer.score_to_severity(score);
            let threat_type = self.determine_threat_type(&event, &rule_matches);
            let description = self.generate_threat_description(
                &event,
                &ioc_matches,
                &rule_matches,
            );
            let timestamp = event.timestamp;
            let t = Threat {
                id: fresh_threat_id(),
                timestamp,
                threat_type,
                severity,
                score,
                description,
                events: vec![event],
                ioc_matches,
                rule_matches,
            };
            proof {
                assert(t.deep_view().events =~= seq![event.deep_view()]);
            }
            Some(t)
        } else {
            None
        }
    }

    /// Sweep the correlator for every pattern that holds at time `now`.
    pub fn check_correlations(&self, now: u64) -> (r: Vec<Threat>)
        ensures
            threats_match_findings(
                r.deep_view(),
                expected_findings(self.correlator().window()),
                now,
            ),
    {
        self.event_correlator.correlate(now)
    }

    /// Classify an event by its matched rule ids, first keyword match
    /// winning, falling back to the event kind.
    fn determine_threat_type(&self, event: &SystemEvent, rule_matches: &Vec<String>) -> (r:
        ThreatType)
        ensures
            r == classify_spec(event.deep_view(), rule_matches.deep_view()),
    {
        let ghost ids = rule_matches.deep_view();
        let ghost e = event.deep_view();
        let n = rule_matches.len();
        proof {
            assert(ids.skip(0) =~= ids);
        }
        let mut i: usize = 0;
        while i < n
            invariant
                e == event.deep_view(),
                ids == rule_matches.deep_view(),
                n == rule_matches@.len(),
                i <= n,
                classify_spec(e, ids) == classify_spec(e, ids.skip(i as int)),
                forall|k: int| 0 <= k < i ==> keyword_kind(ids[k]) is None,
            decreases n - i,
        {
            proof {
                assert(ids[i as int] == rule_matches@[i as int]@);
                assert(ids.skip(i as int).first() == ids[i as int]);
            }
            let rule_id = rule_matches[i].as_str();
            if contains_sub(rule_id, "ransomware") {
                return ThreatType::Ransomware;
            }
            if contains_sub(rule_id, "rootkit") {
                return ThreatType::Rootkit;
            }
            if contains_sub(rule_id, "privilege_escalation") {
                return ThreatType::PrivilegeEscalation;
            }
            if contains_sub(rule_id, "lateral_movement") {
                return ThreatType::LateralMovement;
            }
            if contains_sub(rule_id, "exfiltration") {
                return ThreatType::DataExfiltration;
            }
            if contains_sub(rule_id, "root_process_spawn") {
                return ThreatType::PrivilegeEscalation;
            }
            proof {
                assert(keyword_kind(ids[i as int]) is None);
                assert(ids.skip(i as int).skip(1) =~= ids.skip(i + 1));
            }
            i += 1;
        }
        proof {
            assert(ids.skip(n as int) =~= Seq::<Seq<char>>::empty());
        }
        classify_by_kind_exec(event.event_type)
    }

    /// Compose a threat's one-line account of an event and its matches.
    fn generate_threat_description(
        &self,
        event: &SystemEvent,
        ioc_matches: &Vec<String>,
        rule_matches: &Vec<String>,
    ) -> (r: String)
        ensures
            r@ == threat_description_spec(
                event.deep_view(),
                ioc_matches.deep_view(),
                rule_matches.deep_view(),
            ),
    {
        let mut d = String::from_str("Event: ");
        d.append(event_type_name(event.event_type));
        if ioc_matches.len() > 0 {
            d.append(" | IOC matches: ");
            let count = u64_to_dec(ioc_matches.len() as u64);
            d.append(count.as_str());
        }
        if rule_matches.len() > 0 {
            d.append(" | Rule matches: ");
            let joined = join_with(rule_matches, ", ");
            d.append(joined.as_str());
        }
        d
    }
}

/// Classify an event by its kind alone, executable form.
fn classify_by_kind_exec(t: EventType) -> (r: ThreatType)
    ensures
        r == classify_by_kind(t),
{
    match t {
        EventType::ProcessCreated => ThreatType::SuspiciousProcess,
        EventType::ProcessModified => ThreatType::SuspiciousProcess,
        EventType::NetworkConnection => ThreatType::SuspiciousNetwork,
        EventType::NetworkDnsQuery => ThreatType::SuspiciousNetwork,
        EventType::RootkitDetected => ThreatType::Rootkit,
        EventType::MemoryInjection => ThreatType::Malware,
        _ => ThreatType::AnomalousBehavior,
    }
}

} // verus!
