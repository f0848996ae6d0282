//! Response engine: maps a threat to its ladder of response actions and
//! builds the result records.  An alert always comes first; when automatic
//! response is enabled and the score reaches the threshold, the ladder
//! continues by severity.  Carrying an action out (signalling a process,
//! touching a firewall) is the platform adapter's work; the engine only
//! decides and reports.

use vstd::prelude::*;

use crate::text::{dec_digit, dec_str, u64_to_dec};
use crate::types::{
    EventDetails, EventDetailsV, ResponseAction, ResponseResult, ResponseResultV, Severity,
    SystemEventV, Threat, ThreatType, ThreatV,
};

verus! {

/// The pid an event offers the kill action: a process payload's own pid,
/// or the pid recorded on a file operation.
pub open spec fn kill_pid_of(d: EventDetailsV) -> Option<u32> {
    match d {
        EventDetailsV::Process(p) => Some(p.pid),
        EventDetailsV::File(f) => Some(f.process_pid),
        _ => None,
    }
}

/// Every pid the kill action targets: each pid found on the threat's
/// process and file events, in order of first appearance, once each.
pub open spec fn kill_targets_spec(events: Seq<SystemEventV>) -> Seq<u32>
    decreases events.len(),
{
    if events.len() == 0 {
        Seq::empty()
    } else {
        let pre = kill_targets_spec(events.drop_last());
        match kill_pid_of(events.last().details) {
            Some(p) => if pre.contains(p) {
                pre
            } else {
                pre.push(p)
            },
            None => pre,
        }
    }
}

/// The first pid the kill action would target, if any.
pub open spec fn kill_target_spec(events: Seq<SystemEventV>) -> Option<u32> {
    if kill_targets_spec(events).len() > 0 {
        Some(kill_targets_spec(events)[0])
    } else {
        None
    }
}

/// The ladder of actions for a threat: always an alert; when automatic
/// response is on and the score reaches the threshold, critical threats
/// get one kill for each targeted pid and then a quarantine, high ones a
/// block and a quarantine, medium ones a block alone.
pub open spec fn planned_actions(auto: bool, threshold: u32, t: ThreatV) -> Seq<ResponseAction> {
    seq![ResponseAction::Alert] + if auto && t.score >= threshold {
        match t.severity {
            Severity::Critical => Seq::new(
                kill_targets_spec(t.events).len(),
                |i: int| ResponseAction::Kill,
            ) + seq![ResponseAction::Quarantine],
            Severity::High => seq![ResponseAction::Block, ResponseAction::Quarantine],
            Severity::Medium => seq![ResponseAction::Block],
            _ => Seq::empty(),
        }
    } else {
        Seq::empty()
    }
}

/// The message a kill result carries for its target.
pub open spec fn kill_message_spec(success: bool, pid: u32) -> Seq<char> {
    (if success {
        "Killed process PID: "@
    } else {
        "Failed to kill process PID: "@
    }) + dec_str(pid as int)
}

/// High and critical threats call for a forensic capture.
pub open spec fn forensics_wanted_spec(severity: Severity) -> bool {
    severity == Severity::High || severity == Severity::Critical
}

/// The name of a threat kind, as its record spells it.
pub open spec fn threat_type_name_spec(t: ThreatType) -> Seq<char> {
    match t {
        ThreatType::Malware => "Malware"@,
        ThreatType::Ransomware => "Ransomware"@,
        ThreatType::Rootkit => "Rootkit"@,
        ThreatType::PrivilegeEscalation => "PrivilegeEscalation"@,
        ThreatType::LateralMovement => "LateralMovement"@,
        ThreatType::DataExfiltration => "DataExfiltration"@,
        ThreatType::SuspiciousProcess => "SuspiciousProcess"@,
        ThreatType::SuspiciousNetwork => "SuspiciousNetwork"@,
        ThreatType::AnomalousBehavior => "AnomalousBehavior"@,
    }
}

/// A score written with two decimals, as in 7.50 for 750 hundredths.
pub open spec fn score_2dp(score: u32) -> Seq<char> {
    dec_str(score as int / 100) + seq!['.', dec_digit((score as int / 10) % 10), dec_digit(
        score as int % 10,
    )]
}

/// The message a response result carries for each action.
pub open spec fn response_message_spec(
    action: ResponseAction,
    success: bool,
    t: ThreatV,
) -> Seq<char> {
    match action {
        ResponseAction::Alert => "Alert: "@ + threat_type_name_spec(t.threat_type)
            + " threat detected - Score: "@ + score_2dp(t.score) + " - "@ + t.description,
        ResponseAction::Block => "Blocked: "@ + threat_type_name_spec(t.threat_type) + " - "@
            + t.description,
        ResponseAction::Quarantine => "Quarantined: "@ + threat_type_name_spec(t.threat_type)
            + " - "@ + t.description,
        ResponseAction::Allow => "Allowed: "@ + threat_type_name_spec(t.threat_type) + " - "@
            + t.description,
        ResponseAction::IsolateNetwork => "Network isolation applied"@,
        ResponseAction::Kill => match kill_target_spec(t.events) {
            Some(pid) => kill_message_spec(success, pid),
            None => "No process to kill"@,
        },
    }
}

/// The name of a threat kind, executable form.
fn threat_type_name(t: ThreatType) -> (r: &'static str)
    ensures
        r@ == threat_type_name_spec(t),
{
    match t {
        ThreatType::Malware => "Malware",
        ThreatType::Ransomware => "Ransomware",
        ThreatType::Rootkit => "Rootkit",
        ThreatType::PrivilegeEscalation => "PrivilegeEscalation",
        ThreatType::LateralMovement => "LateralMovement",
        ThreatType::DataExfiltration => "DataExfiltration",
        ThreatType::SuspiciousProcess => "SuspiciousProcess",
        ThreatType::SuspiciousNetwork => "SuspiciousNetwork",
        ThreatType::AnomalousBehavior => "AnomalousBehavior",
    }
}

/// Engine configuration: whether the ladder past the alert runs
/// automatically, and from which score (in hundredths).
pub struct ResponseEngine {
    auto_response_enabled: bool,
    threat_threshold: u32,
}

impl ResponseEngine {
    /// Whether automatic response is enabled.
    pub closed spec fn auto_enabled(self) -> bool {
        self.auto_response_enabled
    }

    /// The response threshold, in hundredths.
    pub closed spec fn threshold(self) -> u32 {
        self.threat_threshold
    }

    /// An engine with the given configuration.
    pub fn new(auto_response_enabled: bool, threat_threshold: u32) -> (r: Self)
        ensures
            r.auto_enabled() == auto_response_enabled,
            r.threshold() == threat_threshold,
    {
        ResponseEngine { auto_response_enabled, threat_threshold }
    }

    /// Decide the ladder of actions for a threat, in execution order.
    pub fn plan_actions(&self, threat: &Threat) -> (r: Vec<ResponseAction>)
        ensures
            r@ == planned_actions(self.auto_enabled(), self.threshold(), threat.deep_view()),
    {
        let ghost t = threat.deep_view();
        let mut out: Vec<ResponseAction> = Vec::new();
        out.push(ResponseAction::Alert);
        if self.auto_response_enabled && threat.score >= self.threat_threshold {
            match threat.severity {
                Severity::Critical => {
                    let targets = self.kill_targets(threat);
                    let m = targets.len();
                    let ghost base = out@;
                    let mut j: usize = 0;
                    while j < m
                        invariant
                            j <= m,
                            out@ =~= base + Seq::new(j as nat, |q: int| ResponseAction::Kill),
                        decreases m - j,
                    {
                        out.push(ResponseAction::Kill);
                        proof {
                            assert(out@ =~= base + Seq::new(
                                (j + 1) as nat,
                                |q: int| ResponseAction::Kill,
                            ));
                        }
                        j += 1;
                    }
                    out.push(ResponseAction::Quarantine);
                },
                Severity::High => {
                    out.push(ResponseAction::Block);
                    out.push(ResponseAction::Quarantine);
                },
                Severity::Medium => {
                    out.push(ResponseAction::Block);
                },
                _ => {},
            }
        }
        proof {
            assert(out@ =~= planned_actions(self.auto_enabled(), self.threshold(), t));
        }
        out
    }

    /// Every pid the kill action would signal, in order of first
    /// appearance, once each.
    pub fn kill_targets(&self, threat: &Threat) -> (r: Vec<u32>)
        ensures
            r@ == kill_targets_spec(threat.deep_view().events),
    {
        let ghost events = threat.deep_view().events;
        let mut out: Vec<u32> = Vec::new();
        let n = threat.events.len();
        let mut i: usize = 0;
        while i < n
            invariant
                events == threat.deep_view().events,
                n == threat.events@.len(),
                i <= n,
                out@ =~= kill_targets_spec(events.take(i as int)),
            decreases n - i,
        {
            proof {
                assert(events[i as int] == threat.events@[i as int].deep_view());
                assert(events.take(i + 1).drop_last() =~= events.take(i as int));
                assert(events.take(i + 1).last() == events[i as int]);
            }
            match kill_pid_of_exec(&threat.events[i].details) {
                Some(p) => {
                    if !holds_pid(&out, p) {
                        out.push(p);
                    }
                },
                None => {},
            }
            proof {
                assert(out@ =~= kill_targets_spec(events.take(i + 1)));
            }
            i += 1;
        }
        proof {
            assert(events.take(n as int) =~= events);
        }
        out
    }

    /// The first pid the kill action would signal, if any.
    pub fn kill_target(&self, threat: &Threat) -> (r: Option<u32>)
        ensures
            r == kill_target_spec(threat.deep_view().events),
    {
        let targets = self.kill_targets(threat);
        if targets.len() > 0 {
            Some(targets[0])
        } else {
            None
        }
    }

    /// High and critical threats call for a forensic capture beside the
    /// alert.
    pub fn forensics_wanted(&self, threat: &Threat) -> (r: bool)
        ensures
            r == forensics_wanted_spec(threat.deep_view().severity),
    {
        match threat.severity {
            Severity::High => true,
            Severity::Critical => true,
            _ => false,
        }
    }

    /// Build the result record for one action of the ladder, stamped `now`.
    /// The platform adapter reports whether the action succeeded; alerts,
    /// blocks and quarantines are declarations of intent and succeed.
    pub fn build_result(
        &self,
        action: ResponseAction,
        success: bool,
        threat: &Threat,
        now: u64,
    ) -> (r: ResponseResult)
        ensures
            r.deep_view() == (ResponseResultV {
                action: action,
                success: success,
                message: response_message_spec(action, success, threat.deep_view()),
                timestamp: now,
            }),
    {
        let message = match action {
            ResponseAction::Alert => {
                let mut m = String::from_str("Alert: ");
                m.append(threat_type_name(threat.threat_type));
                m.append(" threat detected - Score: ");
                let whole = u64_to_dec((threat.score / 100) as u64);
                m.append(whole.as_str());
                m.append(".");
                let tenth = dec_digit_char((threat.score / 10) % 10);
                let hundredth = dec_digit_char(threat.score % 10);
                m.append(tenth);
                m.append(hundredth);
                m.append(" - ");
                m.append(threat.description.as_str());
                proof {
                    reveal_strlit(".");
                    assert(m@ =~= response_message_spec(action, success, threat.deep_view()));
                }
                m
            },
            ResponseAction::Block => {
                let mut m = String::from_str("Blocked: ");
                m.append(threat_type_name(threat.threat_type));
                m.append(" - ");
                m.append(threat.description.as_str());
                m
            },
            ResponseAction::Quarantine => {
                let mut m = String::from_str("Quarantined: ");
                m.append(threat_type_name(threat.threat_type));
                m.append(" - ");
                m.append(threat.description.as_str());
                m
            },
            ResponseAction::Allow => {
                let mut m = String::from_str("Allowed: ");
                m.append(threat_type_name(threat.threat_type));
                m.append(" - ");
                m.append(threat.description.as_str());
                m
            },
            ResponseAction::IsolateNetwork => String::from_str("Network isolation applied"),
            ResponseAction::Kill => {
                match self.kill_target(threat) {
                    Some(pid) => {
                        let mut m = if success {
                            String::from_str("Killed process PID: ")
                        } else {
                            String::from_str("Failed to kill process PID: ")
                        };
                        let rendered = u64_to_dec(pid as u64);
                        m.append(rendered.as_str());
                        m
                    },
                    None => String::from_str("No process to kill"),
                }
            },
        };
        ResponseResult { action, success, message, timestamp: now }
    }

    /// Build the result record for one kill of the ladder, for the pid the
    /// platform adapter signalled.
    pub fn build_kill_result(&self, pid: u32, success: bool, now: u64) -> (r: ResponseResult)
        ensures
            r.deep_view() == (ResponseResultV {
                action: ResponseAction::Kill,
                success: success,
                message: kill_message_spec(success, pid),
                timestamp: now,
            }),
    {
        let mut m = if success {
            String::from_str("Killed process PID: ")
        } else {
            String::from_str("Failed to kill process PID: ")
        };
        let rendered = u64_to_dec(pid as u64);
        m.append(rendered.as_str());
        ResponseResult { action: ResponseAction::Kill, success, message: m, timestamp: now }
    }
}

/// The pid an event offers the kill action, executable form.
fn kill_pid_of_exec(details: &EventDetails) -> (r: Option<u32>)
    ensures
        r == kill_pid_of(details.deep_view()),
{
    match details {
        EventDetails::Process(p) => Some(p.pid),
        EventDetails::File(f) => Some(f.process_pid),
        _ => None,
    }
}

/// Does the list hold this pid already?
fn holds_pid(v: &Vec<u32>, pid: u32) -> (r: bool)
    ensures
        r == v@.contains(pid),
{
    let n = v.len();
    let mut i: usize = 0;
    while i < n
        invariant
            n == v@.len(),
            i <= n,
            forall|k: int| 0 <= k < i ==> v@[k] != pid,
        decreases n - i,
    {
        if v[i] == pid {
            return true;
        }
        i += 1;
    }
    false
}

/// The one-character string for decimal digit `d`.
fn dec_digit_char(d: u32) -> (r: &'static str)
    requires
        d < 10,
    ensures
        r@ =~= seq![dec_digit(d as int)],
{
    proof {
        reveal_strlit("0");
        reveal_strlit("1");
        reveal_strlit("2");
        reveal_strlit("3");
        reveal_strlit("4");
        reveal_strlit("5");
        reveal_strlit("6");
        reveal_strlit("7");
        reveal_strlit("8");
        reveal_strlit("9");
    }
    if d == 0 {
        "0"
    } else if d == 1 {
        "1"
    } else if d == 2 {
        "2"
    } else if d == 3 {
        "3"
    } else if d == 4 {
        "4"
    } else if d == 5 {
        "5"
    } else if d == 6 {
        "6"
    } else if d == 7 {
        "7"
    } else if d == 8 {
        "8"
    } else {
        "9"
    }
}

} // verus!
