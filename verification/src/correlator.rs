//! Sliding-window correlator: keeps the last five minutes of events, indexes
//! them by process, and sweeps the window for multi-event attack patterns.
//!
//! Times are milliseconds on the caller's clock, handed in by the caller;
//! the window holds `(time, event)` pairs in arrival order.

use std::collections::VecDeque;

use vstd::prelude::*;

use crate::ids::fresh_threat_id;
use crate::text::{dec_str, u64_to_dec};
use crate::types::{
    EventDetails, EventDetailsV, EventType, Severity, SystemEvent, SystemEventV, Threat, ThreatType,
    ThreatV,
};

verus! {

/// How long an event stays in the correlation window, in milliseconds.
pub const WINDOW_MILLIS: u64 = 300_000;

/// The pid that indexes an event, when its payload carries one.
pub open spec fn event_pid(d: EventDetailsV) -> Option<u32> {
    match d {
        EventDetailsV::Process(p) => Some(p.pid),
        EventDetailsV::File(f) => Some(f.process_pid),
        EventDetailsV::Network(n) => n.process_pid,
        EventDetailsV::Memory(m) => Some(m.process_pid),
        _ => None,
    }
}

/// What remains of the window at time `now`: entries are dropped from the
/// front while they are older than the horizon.
pub open spec fn evict_old(w: Seq<(u64, SystemEventV)>, now: u64) -> Seq<(u64, SystemEventV)>
    decreases w.len(),
{
    if w.len() > 0 && now > w.first().0 + WINDOW_MILLIS {
        evict_old(w.skip(1), now)
    } else {
        w
    }
}

/// There is an index entry for this pid.
pub open spec fn has_pid(ix: Seq<(u32, Seq<SystemEventV>)>, pid: u32) -> bool {
    exists|k: int| 0 <= k < ix.len() && ix[k].0 == pid
}

/// The per-process index after one event: the event is appended to its
/// pid's list, or opens a new list; an event without a pid changes nothing.
pub open spec fn pid_index_add(ix: Seq<(u32, Seq<SystemEventV>)>, e: SystemEventV) -> Seq<
    (u32, Seq<SystemEventV>),
> {
    match event_pid(e.details) {
        None => ix,
        Some(pid) => if has_pid(ix, pid) {
            let k = choose|k: int| 0 <= k < ix.len() && ix[k].0 == pid;
            ix.update(k, (pid, ix[k].1.push(e)))
        } else {
            ix.push((pid, seq![e]))
        },
    }
}

/// An event kind that takes part in a privilege-escalation chain.
pub open spec fn is_chain_kind(t: EventType) -> bool {
    t == EventType::UserElevation || t == EventType::ProcessCreated || t == EventType::FileModified
}

/// An event kind that takes part in lateral movement.
pub open spec fn is_lateral_kind(t: EventType) -> bool {
    t == EventType::NetworkConnection || t == EventType::ProcessCreated || t == EventType::UserLogin
}

/// An event kind that takes part in ransomware behaviour.
pub open spec fn is_ransom_kind(t: EventType) -> bool {
    t == EventType::FileModified || t == EventType::FileDeleted
}

/// An event kind that takes part in a rootkit installation.
pub open spec fn is_rootkit_kind(t: EventType) -> bool {
    t == EventType::RootkitDetected || t == EventType::FileModified
}

/// The window's events of one kind, in window order.
pub open spec fn events_of_kind(w: Seq<(u64, SystemEventV)>, t: EventType) -> Seq<SystemEventV>
    decreases w.len(),
{
    if w.len() == 0 {
        Seq::empty()
    } else {
        events_of_kind(w.drop_last(), t) + if w.last().1.event_type == t {
            seq![w.last().1]
        } else {
            Seq::empty()
        }
    }
}

/// The window's privilege-escalation-chain events, in window order.
pub open spec fn chain_events(w: Seq<(u64, SystemEventV)>) -> Seq<SystemEventV>
    decreases w.len(),
{
    if w.len() == 0 {
        Seq::empty()
    } else {
        chain_events(w.drop_last()) + if is_chain_kind(w.last().1.event_type) {
            seq![w.last().1]
        } else {
            Seq::empty()
        }
    }
}

/// The window's lateral-movement events, in window order.
pub open spec fn lateral_events(w: Seq<(u64, SystemEventV)>) -> Seq<SystemEventV>
    decreases w.len(),
{
    if w.len() == 0 {
        Seq::empty()
    } else {
        lateral_events(w.drop_last()) + if is_lateral_kind(w.last().1.event_type) {
            seq![w.last().1]
        } else {
            Seq::empty()
        }
    }
}

/// The window's file-modification and file-deletion events, in window order.
pub open spec fn ransom_events(w: Seq<(u64, SystemEventV)>) -> Seq<SystemEventV>
    decreases w.len(),
{
    if w.len() == 0 {
        Seq::empty()
    } else {
        ransom_events(w.drop_last()) + if is_ransom_kind(w.last().1.event_type) {
            seq![w.last().1]
        } else {
            Seq::empty()
        }
    }
}

/// The window's rootkit-related events, in window order.
pub open spec fn rootkit_events(w: Seq<(u64, SystemEventV)>) -> Seq<SystemEventV>
    decreases w.len(),
{
    if w.len() == 0 {
        Seq::empty()
    } else {
        rootkit_events(w.drop_last()) + if is_rootkit_kind(w.last().1.event_type) {
            seq![w.last().1]
        } else {
            Seq::empty()
        }
    }
}

/// One pattern detection: everything a correlated threat carries except its
/// fresh id and its timestamp.
#[verifier::ext_equal]
pub ghost struct FindingV {
    pub threat_type: ThreatType,
    pub severity: Severity,
    pub score: u32,
    pub description: Seq<char>,
    pub events: Seq<SystemEventV>,
    pub pattern: Seq<char>,
}

/// The description of a ransomware finding, naming both counts.
pub open spec fn ransomware_description(mods: int, dels: int) -> Seq<char> {
    "Ransomware behavior: "@ + dec_str(mods) + " files modified, "@ + dec_str(dels) + " deleted"@
}

/// The privilege-escalation-chain finding of a window.
pub open spec fn chain_finding(w: Seq<(u64, SystemEventV)>) -> FindingV {
    FindingV {
        threat_type: ThreatType::PrivilegeEscalation,
        severity: Severity::High,
        score: 750,
        description: "Privilege escalation chain detected"@,
        events: chain_events(w),
        pattern: "privilege_escalation_chain"@,
    }
}

/// The data-exfiltration finding of a window: its file accesses followed by
/// its connections.
pub open spec fn exfiltration_finding(w: Seq<(u64, SystemEventV)>) -> FindingV {
    FindingV {
        threat_type: ThreatType::DataExfiltration,
        severity: Severity::High,
        score: 800,
        description: "Potential data exfiltration detected"@,
        events: events_of_kind(w, EventType::FileAccessed) + events_of_kind(
            w,
            EventType::NetworkConnection,
        ),
        pattern: "data_exfiltration"@,
    }
}

/// The lateral-movement finding of a window.
pub open spec fn lateral_finding(w: Seq<(u64, SystemEventV)>) -> FindingV {
    FindingV {
        threat_type: ThreatType::LateralMovement,
        severity: Severity::High,
        score: 700,
        description: "Lateral movement detected"@,
        events: lateral_events(w),
        pattern: "lateral_movement"@,
    }
}

/// The ransomware finding of a window.
pub open spec fn ransomware_finding(w: Seq<(u64, SystemEventV)>) -> FindingV {
    FindingV {
        threat_type: ThreatType::Ransomware,
        severity: Severity::Critical,
        score: 950,
        description: ransomware_description(
            events_of_kind(w, EventType::FileModified).len() as int,
            events_of_kind(w, EventType::FileDeleted).len() as int,
        ),
        events: ransom_events(w),
        pattern: "ransomware_behavior"@,
    }
}

/// The rootkit finding of a window.
pub open spec fn rootkit_finding(w: Seq<(u64, SystemEventV)>) -> FindingV {
    FindingV {
        threat_type: ThreatType::Rootkit,
        severity: Severity::Critical,
        score: 900,
        description: "Rootkit installation detected"@,
        events: rootkit_events(w),
        pattern: "rootkit_installation"@,
    }
}

/// The privilege-escalation pattern fires on three or more chain events.
pub open spec fn chain_segment(w: Seq<(u64, SystemEventV)>) -> Seq<FindingV> {
    if chain_events(w).len() >= 3 {
        seq![chain_finding(w)]
    } else {
        Seq::empty()
    }
}

/// The data-exfiltration pattern fires on at least one file access together
/// with at least one connection.
pub open spec fn exfiltration_segment(w: Seq<(u64, SystemEventV)>) -> Seq<FindingV> {
    if events_of_kind(w, EventType::FileAccessed).len() > 0 && events_of_kind(
        w,
        EventType::NetworkConnection,
    ).len() > 0 {
        seq![exfiltration_finding(w)]
    } else {
        Seq::empty()
    }
}

/// The lateral-movement pattern fires on three or more of its events.
pub open spec fn lateral_segment(w: Seq<(u64, SystemEventV)>) -> Seq<FindingV> {
    if lateral_events(w).len() >= 3 {
        seq![lateral_finding(w)]
    } else {
        Seq::empty()
    }
}

/// The ransomware pattern fires on more than ten modifications or more than
/// five deletions.
pub open spec fn ransomware_segment(w: Seq<(u64, SystemEventV)>) -> Seq<FindingV> {
    if events_of_kind(w, EventType::FileModified).len() > 10 || events_of_kind(
        w,
        EventType::FileDeleted,
    ).len() > 5 {
        seq![ransomware_finding(w)]
    } else {
        Seq::empty()
    }
}

/// The rootkit pattern fires on any rootkit-related event.
pub open spec fn rootkit_segment(w: Seq<(u64, SystemEventV)>) -> Seq<FindingV> {
    if rootkit_events(w).len() > 0 {
        seq![rootkit_finding(w)]
    } else {
        Seq::empty()
    }
}

/// Everything a correlation sweep of the window must report, in pattern
/// order.  This is a function of the window alone: sweeping twice over an
/// unchanged window finds the same patterns.
pub open spec fn expected_findings(w: Seq<(u64, SystemEventV)>) -> Seq<FindingV> {
    chain_segment(w) + exfiltration_segment(w) + lateral_segment(w) + ransomware_segment(w)
        + rootkit_segment(w)
}

/// A threat reports a finding at time `now`: every field but the fresh id
/// is determined.
pub open spec fn threat_matches_finding(t: ThreatV, f: FindingV, now: u64) -> bool {
    &&& t.timestamp == now
    &&& t.threat_type == f.threat_type
    &&& t.severity == f.severity
    &&& t.score == f.score
    &&& t.description == f.description
    &&& t.events == f.events
    &&& t.ioc_matches == Seq::<Seq<char>>::empty()
    &&& t.rule_matches == seq![f.pattern]
}

/// The threats report the findings, one for one and in order.
pub open spec fn threats_match_findings(ts: Seq<ThreatV>, fs: Seq<FindingV>, now: u64) -> bool {
    &&& ts.len() == fs.len()
    &&& forall|k: int| 0 <= k < ts.len() ==> threat_matches_finding(ts[k], fs[k], now)
}

/// Correlator state: the time-ordered window and the per-process index.
pub struct EventCorrelator {
    event_window: VecDeque<(u64, SystemEvent)>,
    process_events: Vec<(u32, Vec<SystemEvent>)>,
}

impl EventCorrelator {
    /// The sliding window of `(time, event)` pairs, oldest first.
    pub closed spec fn window(self) -> Seq<(u64, SystemEventV)> {
        self.event_window.deep_view()
    }

    /// The per-process index.
    pub closed spec fn pid_index(self) -> Seq<(u32, Seq<SystemEventV>)> {
        self.process_events.deep_view()
    }

    /// Well-formed: window times never decrease, and index pids are
    /// pairwise distinct.
    pub open spec fn wf(self) -> bool {
        &&& forall|i: int, j: int|
            0 <= i <= j < self.window().len() ==> self.window()[i].0 <= self.window()[j].0
        &&& forall|i: int, j: int|
            0 <= i < j < self.pid_index().len() ==> self.pid_index()[i].0 != self.pid_index()[j].0
    }

    /// An empty correlator.
    pub fn new() -> (r: Self)
        ensures
            r.wf(),
            r.window() =~= Seq::<(u64, SystemEventV)>::empty(),
            r.pid_index() =~= Seq::<(u32, Seq<SystemEventV>)>::empty(),
    {
        EventCorrelator { event_window: VecDeque::new(), process_events: Vec::new() }
    }

    /// Take an event into the window at time `now` (milliseconds on the
    /// caller's clock, which never runs backwards): entries older than the
    /// horizon leave from the front, the new entry joins at the back, and
    /// the event is indexed under its pid.  Afterwards nothing in the
    /// window is older than `now` minus the horizon.
    pub fn add_event(&mut self, event: SystemEvent, now: u64)
        requires
            old(self).wf(),
            old(self).window().len() > 0 ==> old(self).window().last().0 <= now,
        ensures
            final(self).wf(),
            final(self).window() == evict_old(old(self).window(), now).push(
                (now, event.deep_view()),
            ),
            forall|k: int|
                0 <= k < final(self).window().len() ==> now <= final(self).window()[k].0
                    + WINDOW_MILLIS,
            final(self).pid_index() == pid_index_add(old(self).pid_index(), event.deep_view()),
    {
        let ghost w0 = self.event_window.deep_view();
        proof {
            assert(forall|k: int| 0 <= k < w0.len() ==> w0[k].0 <= now);
        }
        while self.event_window.len() > 0 && now - self.event_window[0].0 > WINDOW_MILLIS
            invariant
                forall|i: int, j: int|
                    0 <= i <= j < self.event_window.deep_view().len()
                        ==> self.event_window.deep_view()[i].0
                        <= self.event_window.deep_view()[j].0,
                forall|k: int|
                    0 <= k < self.event_window.deep_view().len()
                        ==> self.event_window.deep_view()[k].0 <= now,
                evict_old(w0, now) == evict_old(self.event_window.deep_view(), now),
                self.process_events == old(self).process_events,
            decreases self.event_window@.len(),
        {
            let ghost cur = self.event_window.deep_view();
            let popped = self.event_window.pop_front();
            proof {
                assert(popped is Some);
                assert(self.event_window.deep_view() =~= cur.skip(1));
            }
        }
        proof {
            assert(evict_old(self.event_window.deep_view(), now) == self.event_window.deep_view());
            assert(evict_old(w0, now) == self.event_window.deep_view());
        }
        let ghost kept = self.event_window.deep_view();
        self.event_window.push_back((now, event.clone()));
        proof {
            assert(self.event_window.deep_view() =~= kept.push((now, event.deep_view())));
            assert(forall|k: int|
                0 <= k < self.event_window.deep_view().len() ==> now <= self.event_window
                    .deep_view()[k].0 + WINDOW_MILLIS);
        }
        let ghost ix0 = self.process_events.deep_view();
        proof {
            assert(ix0 == old(self).pid_index());
            assert(forall|i: int, j: int| 0 <= i < j < ix0.len() ==> ix0[i].0 != ix0[j].0);
        }
        let pid_opt = extract_pid(&event);
        match pid_opt {
            None => {
                proof {
                    assert(self.process_events.deep_view() == pid_index_add(
                        ix0,
                        event.deep_view(),
                    ));
                }
            },
            Some(pid) => {
                match find_pid_slot(&self.process_events, pid) {
                    Some(k) => {
                        proof {
                            assert(has_pid(ix0, pid));
                        }
                        let slot = self.process_events.remove(k);
                        let (slot_pid, mut list) = slot;
                        list.push(event);
                        self.process_events.insert(k, (slot_pid, list));
                        proof {
                            let kk = choose|kk: int| 0 <= kk < ix0.len() && ix0[kk].0 == pid;
                            assert(0 <= kk < ix0.len() && ix0[kk].0 == pid);
                            if kk != k as int {
                                assert(false);  // two index entries would share a pid
                            }
                            assert(self.process_events.deep_view() =~~= ix0.update(
                                k as int,
                                (pid, ix0[k as int].1.push(event.deep_view())),
                            ));
                        }
                    },
                    None => {
                        proof {
                            assert(!has_pid(ix0, pid));
                        }
                        self.process_events.push((pid, vec![event]));
                        proof {
                            assert(self.process_events.deep_view() =~~= ix0.push(
                                (pid, seq![event.deep_view()]),
                            ));
                        }
                    },
                }
            },
        }
    }

    /// Sweep the window for every pattern that holds, and report one threat
    /// for each, stamped `now`.  The patterns are a pure function of the
    /// window (see [`lemma_correlate_deterministic`]).
    pub fn correlate(&self, now: u64) -> (r: Vec<Threat>)
        ensures
            threats_match_findings(r.deep_view(), expected_findings(self.window()), now),
    {
        let ghost w = self.window();
        let mut threats: Vec<Threat> = Vec::new();
        let ghost mut fs: Seq<FindingV> = Seq::empty();
        proof {
            assert(threats_match_findings(threats.deep_view(), fs, now));
        }
        let ghost before = threats.deep_view();
        match self.detect_privilege_escalation_chain(now) {
            Some(t) => {
                let ghost tv = t.deep_view();
                threats.push(t);
                proof {
                    assert(threats.deep_view() =~= before.push(tv));
                    assert(chain_segment(w) =~= seq![chain_finding(w)]);
                    fs = fs + chain_segment(w);
                    assert(threats_match_findings(threats.deep_view(), fs, now));
                }
            },
            None => {
                proof {
                    assert(chain_segment(w) =~= Seq::<FindingV>::empty());
                    fs = fs + chain_segment(w);
                    assert(threats_match_findings(threats.deep_view(), fs, now));
                }
            },
        }
        let ghost before = threats.deep_view();
        let ghost fs0 = fs;
        match self.detect_data_exfiltration(now) {
            Some(t) => {
                let ghost tv = t.deep_view();
                threats.push(t);
                proof {
                    assert(threats.deep_view() =~= before.push(tv));
                    assert(exfiltration_segment(w) =~= seq![exfiltration_finding(w)]);
                    fs = fs + exfiltration_segment(w);
                    assert(threats_match_findings(threats.deep_view(), fs, now));
                }
            },
            None => {
                proof {
                    assert(exfiltration_segment(w) =~= Seq::<FindingV>::empty());
                    fs = fs + exfiltration_segment(w);
                    assert(fs =~= fs0);
                    assert(threats_match_findings(threats.deep_view(), fs, now));
                }
            },
        }
        let ghost before = threats.deep_view();
        let ghost fs0 = fs;
        match self.detect_lateral_movement(now) {
            Some(t) => {
                let ghost tv = t.deep_view();
                threats.push(t);
                proof {
                    assert(threats.deep_view() =~= before.push(tv));
                    assert(lateral_segment(w) =~= seq![lateral_finding(w)]);
                    fs = fs + lateral_segment(w);
                    assert(threats_match_findings(threats.deep_view(), fs, now));
                }
            },
            None => {
                proof {
                    assert(lateral_segment(w) =~= Seq::<FindingV>::empty());
                    fs = fs + lateral_segment(w);
                    assert(fs =~= fs0);
                    assert(threats_match_findings(threats.deep_view(), fs, now));
                }
            },
        }
        let ghost before = threats.deep_view();
        let ghost fs0 = fs;
        match self.detect_ransomware_behavior(now) {
            Some(t) => {
                let ghost tv = t.deep_view();
                threats.push(t);
                proof {
                    assert(threats.deep_view() =~= before.push(tv));
                    assert(ransomware_segment(w) =~= seq![ransomware_finding(w)]);
                    fs = fs + ransomware_segment(w);
                    assert(threats_match_findings(threats.deep_view(), fs, now));
                }
            },
            None => {
                proof {
                    assert(ransomware_segment(w) =~= Seq::<FindingV>::empty());
                    fs = fs + ransomware_segment(w);
                    assert(fs =~= fs0);
                    assert(threats_match_findings(threats.deep_view(), fs, now));
                }
            },
        }
        let ghost before = threats.deep_view();
        let ghost fs0 = fs;
        match self.detect_rootkit_installation(now) {
            Some(t) => {
                let ghost tv = t.deep_view();
                threats.push(t);
                proof {
                    assert(threats.deep_view() =~= before.push(tv));
                    assert(rootkit_segment(w) =~= seq![rootkit_finding(w)]);
                    fs = fs + rootkit_segment(w);
                    assert(threats_match_findings(threats.deep_view(), fs, now));
                }
            },
            None => {
                proof {
                    assert(rootkit_segment(w) =~= Seq::<FindingV>::empty());
                    fs = fs + rootkit_segment(w);
                    assert(fs =~= fs0);
                    assert(threats_match_findings(threats.deep_view(), fs, now));
                }
            },
        }
        proof {
            assert(fs =~= expected_findings(w));
        }
        threats
    }

    /// Report a privilege-escalation chain of three or more events.
    fn detect_privilege_escalation_chain(&self, now: u64) -> (r: Option<Threat>)
        ensures
            match r {
                Some(t) => chain_events(self.window()).len() >= 3 && threat_matches_finding(
                    t.deep_view(),
                    chain_finding(self.window()),
                    now,
                ),
                None => chain_events(self.window()).len() < 3,
            },
    {
        let mut picked: Vec<SystemEvent> = Vec::new();
        let n = self.event_window.len();
        let mut i: usize = 0;
        while i < n
            invariant
                n == self.event_window@.len(),
                i <= n,
                picked.deep_view() =~= chain_events(self.window().take(i as int)),
            decreases n - i,
        {
            proof {
                assert(self.window()[i as int] == self.event_window@[i as int].deep_view());
                assert(self.window().take(i + 1).drop_last() =~= self.window().take(i as int));
                assert(self.window().take(i + 1).last() == self.window()[i as int]);
            }
            let ghost dvb = picked.deep_view();
            let t = self.event_window[i].1.event_type;
            if t == EventType::UserElevation || t == EventType::ProcessCreated || t
                == EventType::FileModified {
                picked.push(self.event_window[i].1.clone());
                proof {
                    assert(picked.deep_view() =~= dvb.push(self.window()[i as int].1));
                }
            }
            i += 1;
        }
        proof {
            assert(self.window().take(n as int) =~= self.window());
        }
        if picked.len() >= 3 {
            Some(
                make_threat(
                    now,
                    ThreatType::PrivilegeEscalation,
                    Severity::High,
                    750,
                    String::from_str("Privilege escalation chain detected"),
                    picked,
                    "privilege_escalation_chain",
                ),
            )
        } else {
            None
        }
    }

    /// Report file accesses combined with network connections.
    fn detect_data_exfiltration(&self, now: u64) -> (r: Option<Threat>)
        ensures
            match r {
                Some(t) => events_of_kind(self.window(), EventType::FileAccessed).len() > 0
                    && events_of_kind(self.window(), EventType::NetworkConnection).len() > 0
                    && threat_matches_finding(
                    t.deep_view(),
                    exfiltration_finding(self.window()),
                    now,
                ),
                None => events_of_kind(self.window(), EventType::FileAccessed).len() == 0
                    || events_of_kind(self.window(), EventType::NetworkConnection).len() == 0,
            },
    {
        let file_events = self.collect_of_kind(EventType::FileAccessed);
        let mut combined = file_events;
        let mut net_events = self.collect_of_kind(EventType::NetworkConnection);
        if combined.len() > 0 && net_events.len() > 0 {
            let ghost cv = combined.deep_view();
            let ghost nv = net_events.deep_view();
            combined.append(&mut net_events);
            proof {
                assert(combined.deep_view() =~= cv + nv);
            }
            Some(
                make_threat(
                    now,
                    ThreatType::DataExfiltration,
                    Severity::High,
                    800,
                    String::from_str("Potential data exfiltration detected"),
                    combined,
                    "data_exfiltration",
                ),
            )
        } else {
            None
        }
    }

    /// Report lateral movement across three or more events.
    fn detect_lateral_movement(&self, now: u64) -> (r: Option<Threat>)
        ensures
            match r {
                Some(t) => lateral_events(self.window()).len() >= 3 && threat_matches_finding(
                    t.deep_view(),
                    lateral_finding(self.window()),
                    now,
                ),
                None => lateral_events(self.window()).len() < 3,
            },
    {
        let mut picked: Vec<SystemEvent> = Vec::new();
        let n = self.event_window.len();
        let mut i: usize = 0;
        while i < n
            invariant
                n == self.event_window@.len(),
                i <= n,
                picked.deep_view() =~= lateral_events(self.window().take(i as int)),
            decreases n - i,
        {
            proof {
                assert(self.window()[i as int] == self.event_window@[i as int].deep_view());
                assert(self.window().take(i + 1).drop_last() =~= self.window().take(i as int));
                assert(self.window().take(i + 1).last() == self.window()[i as int]);
            }
            let ghost dvb = picked.deep_view();
            let t = self.event_window[i].1.event_type;
            if t == EventType::NetworkConnection || t == EventType::ProcessCreated || t
                == EventType::UserLogin {
                picked.push(self.event_window[i].1.clone());
                proof {
                    assert(picked.deep_view() =~= dvb.push(self.window()[i as int].1));
                }
            }
            i += 1;
        }
        proof {
            assert(self.window().take(n as int) =~= self.window());
        }
        if picked.len() >= 3 {
            Some(
                make_threat(
                    now,
                    ThreatType::LateralMovement,
                    Severity::High,
                    700,
                    String::from_str("Lateral movement detected"),
                    picked,
                    "lateral_movement",
                ),
            )
        } else {
            None
        }
    }

    /// Report ransomware behaviour: more than ten files modified or more
    /// than five deleted, with both counts named in the description.
    fn detect_ransomware_behavior(&self, now: u64) -> (r: Option<Threat>)
        ensures
            match r {
                Some(t) => (events_of_kind(self.window(), EventType::FileModified).len() > 10
                    || events_of_kind(self.window(), EventType::FileDeleted).len() > 5)
                    && threat_matches_finding(t.deep_view(), ransomware_finding(self.window()), now),
                None => events_of_kind(self.window(), EventType::FileModified).len() <= 10
                    && events_of_kind(self.window(), EventType::FileDeleted).len() <= 5,
            },
    {
        let mut picked: Vec<SystemEvent> = Vec::new();
        let mut mod_count: usize = 0;
        let mut del_count: usize = 0;
        let n = self.event_window.len();
        let mut i: usize = 0;
        while i < n
            invariant
                n == self.event_window@.len(),
                i <= n,
                picked.deep_view() =~= ransom_events(self.window().take(i as int)),
                mod_count == events_of_kind(
                    self.window().take(i as int),
                    EventType::FileModified,
                ).len(),
                del_count == events_of_kind(
                    self.window().take(i as int),
                    EventType::FileDeleted,
                ).len(),
                mod_count <= i,
                del_count <= i,
            decreases n - i,
        {
            proof {
                assert(self.window()[i as int] == self.event_window@[i as int].deep_view());
                assert(self.window().take(i + 1).drop_last() =~= self.window().take(i as int));
                assert(self.window().take(i + 1).last() == self.window()[i as int]);
            }
            let ghost dvb = picked.deep_view();
            let t = self.event_window[i].1.event_type;
            if t == EventType::FileModified {
                mod_count += 1;
                picked.push(self.event_window[i].1.clone());
                proof {
                    assert(picked.deep_view() =~= dvb.push(self.window()[i as int].1));
                }
            } else if t == EventType::FileDeleted {
                del_count += 1;
                picked.push(self.event_window[i].1.clone());
                proof {
                    assert(picked.deep_view() =~= dvb.push(self.window()[i as int].1));
                }
            }
            i += 1;
        }
        proof {
            assert(self.window().take(n as int) =~= self.window());
        }
        if mod_count > 10 || del_count > 5 {
            let mut description = String::from_str("Ransomware behavior: ");
            description.append(u64_to_dec(mod_count as u64).as_str());
            description.append(" files modified, ");
            description.append(u64_to_dec(del_count as u64).as_str());
            description.append(" deleted");
            Some(
                make_threat(
                    now,
                    ThreatType::Ransomware,
                    Severity::Critical,
                    950,
                    description,
                    picked,
                    "ransomware_behavior",
                ),
            )
        } else {
            None
        }
    }

    /// Report rootkit installation on any rootkit-related event.
    fn detect_rootkit_installation(&self, now: u64) -> (r: Option<Threat>)
        ensures
            match r {
                Some(t) => rootkit_events(self.window()).len() > 0 && threat_matches_finding(
                    t.deep_view(),
                    rootkit_finding(self.window()),
                    now,
                ),
                None => rootkit_events(self.window()).len() == 0,
            },
    {
        let mut picked: Vec<SystemEvent> = Vec::new();
        let n = self.event_window.len();
        let mut i: usize = 0;
        while i < n
            invariant
                n == self.event_window@.len(),
                i <= n,
                picked.deep_view() =~= rootkit_events(self.window().take(i as int)),
            decreases n - i,
        {
            proof {
                assert(self.window()[i as int] == self.event_window@[i as int].deep_view());
                assert(self.window().take(i + 1).drop_last() =~= self.window().take(i as int));
                assert(self.window().take(i + 1).last() == self.window()[i as int]);
            }
            let ghost dvb = picked.deep_view();
            let t = self.event_window[i].1.event_type;
            if t == EventType::RootkitDetected || t == EventType::FileModified {
                picked.push(self.event_window[i].1.clone());
                proof {
                    assert(picked.deep_view() =~= dvb.push(self.window()[i as int].1));
                }
            }
            i += 1;
        }
        proof {
            assert(self.window().take(n as int) =~= self.window());
        }
        if picked.len() > 0 {
            Some(
                make_threat(
                    now,
                    ThreatType::Rootkit,
                    Severity::Critical,
                    900,
                    String::from_str("Rootkit installation detected"),
                    picked,
                    "rootkit_installation",
                ),
            )
        } else {
            None
        }
    }

    /// Collect the window's events of one kind, in order.
    fn collect_of_kind(&self, t: EventType) -> (r: Vec<SystemEvent>)
        ensures
            r.deep_view() == events_of_kind(self.window(), t),
    {
        let mut picked: Vec<SystemEvent> = Vec::new();
        let n = self.event_window.len();
        let mut i: usize = 0;
        while i < n
            invariant
                n == self.event_window@.len(),
                i <= n,
                picked.deep_view() =~= events_of_kind(self.window().take(i as int), t),
            decreases n - i,
        {
            proof {
                assert(self.window()[i as int] == self.event_window@[i as int].deep_view());
                assert(self.window().take(i + 1).drop_last() =~= self.window().take(i as int));
                assert(self.window().take(i + 1).last() == self.window()[i as int]);
            }
            let ghost dvb = picked.deep_view();
            if self.event_window[i].1.event_type == t {
                picked.push(self.event_window[i].1.clone());
                proof {
                    assert(picked.deep_view() =~= dvb.push(self.window()[i as int].1));
                }
            }
            i += 1;
        }
        proof {
            assert(self.window().take(n as int) =~= self.window());
        }
        picked
    }
}

/// The pid an event is indexed under, if any.
fn extract_pid(event: &SystemEvent) -> (r: Option<u32>)
    ensures
        r == event_pid(event.deep_view().details),
{
    match &event.details {
        EventDetails::Process(p) => Some(p.pid),
        EventDetails::File(f) => Some(f.process_pid),
        EventDetails::Network(n) => n.process_pid,
        EventDetails::Memory(m) => Some(m.process_pid),
        _ => None,
    }
}

/// Position of a pid's slot in the index, if any.
fn find_pid_slot(ix: &Vec<(u32, Vec<SystemEvent>)>, pid: u32) -> (r: Option<usize>)
    ensures
        match r {
            Some(k) => k < ix@.len() && ix.deep_view()[k as int].0 == pid,
            None => forall|k: int| 0 <= k < ix@.len() ==> ix.deep_view()[k].0 != pid,
        },
{
    let n = ix.len();
    let mut i: usize = 0;
    while i < n
        invariant
            n == ix@.len(),
            i <= n,
            forall|k: int| 0 <= k < i ==> ix.deep_view()[k].0 != pid,
        decreases n - i,
    {
        proof {
            assert(ix.deep_view()[i as int] == ix@[i as int].deep_view());
        }
        if ix[i].0 == pid {
            return Some(i);
        }
        i += 1;
    }
    None
}

/// Assemble a threat for one finding, under a fresh id.
fn make_threat(
    now: u64,
    threat_type: ThreatType,
    severity: Severity,
    score: u32,
    description: String,
    events: Vec<SystemEvent>,
    pattern: &str,
) -> (r: Threat)
    ensures
        r.deep_view().timestamp == now,
        r.deep_view().threat_type == threat_type,
        r.deep_view().severity == severity,
        r.deep_view().score == score,
        r.deep_view().description == description@,
        r.deep_view().events == events.deep_view(),
        r.deep_view().ioc_matches == Seq::<Seq<char>>::empty(),
        r.deep_view().rule_matches == seq![pattern@],
{
    let r = Threat {
        id: fresh_threat_id(),
        timestamp: now,
        threat_type,
        severity,
        score,
        description,
        events,
        ioc_matches: Vec::new(),
        rule_matches: vec![String::from_str(pattern)],
    };
    proof {
        assert(r.deep_view().ioc_matches =~= Seq::<Seq<char>>::empty());
        assert(r.deep_view().rule_matches =~= seq![pattern@]);
    }
    r
}

/// Every correlated finding but the data-exfiltration one carries the
/// severity its score maps to: 7.5 and 7.0 map to `High`, 9.5 and 9.0 to
/// `Critical`.  The data-exfiltration pattern alone reports `High` with a
/// score of 8.0, which the score mapping would grade `Critical`.
pub proof fn lemma_finding_severity_consistent(w: Seq<(u64, SystemEventV)>, k: int)
    requires
        0 <= k < expected_findings(w).len(),
        expected_findings(w)[k].threat_type != ThreatType::DataExfiltration,
    ensures
        expected_findings(w)[k].severity == crate::scoring::score_to_severity_spec(
            expected_findings(w)[k].score as int,
        ),
{
    let fs = expected_findings(w);
    let c1 = chain_segment(w);
    let c2 = exfiltration_segment(w);
    let c3 = lateral_segment(w);
    let c4 = ransomware_segment(w);
    let c5 = rootkit_segment(w);
    if k < c1.len() {
        assert(fs[k] == chain_finding(w));
    } else if k < c1.len() + c2.len() {
        assert(fs[k] == exfiltration_finding(w));
    } else if k < c1.len() + c2.len() + c3.len() {
        assert(fs[k] == lateral_finding(w));
    } else if k < c1.len() + c2.len() + c3.len() + c4.len() {
        assert(fs[k] == ransomware_finding(w));
    } else {
        assert(fs[k] == rootkit_finding(w));
    }
}

/// Correlation is pure over the current state: two sweeps of the same
/// window at the same time report the same patterns, kinds, severities,
/// scores, descriptions and events, pair for pair (only the fresh ids may
/// differ).
pub proof fn lemma_correlate_deterministic(
    w: Seq<(u64, SystemEventV)>,
    now: u64,
    r1: Seq<ThreatV>,
    r2: Seq<ThreatV>,
)
    requires
        threats_match_findings(r1, expected_findings(w), now),
        threats_match_findings(r2, expected_findings(w), now),
    ensures
        r1.len() == r2.len(),
        forall|k: int|
            0 <= k < r1.len() ==> {
                &&& r1[k].threat_type == r2[k].threat_type
                &&& r1[k].severity == r2[k].severity
                &&& r1[k].score == r2[k].score
                &&& r1[k].description == r2[k].description
                &&& r1[k].events == r2[k].events
                &&& r1[k].rule_matches == r2[k].rule_matches
                &&& r1[k].timestamp == r2[k].timestamp
            },
{
}

} // verus!
