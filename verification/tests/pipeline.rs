// Engine, correlator and response tests.

use rust_edr::correlator::EventCorrelator;
use rust_edr::engine::DetectionEngine;
use rust_edr::scoring::ThreatScorer;
use rust_edr::response::ResponseEngine;
use rust_edr::types::{
    EventDetails, EventType, FileEvent, ProcessEvent, ResponseAction, Severity, SystemEvent,
    ThreatType,
};

fn tmp_shell_event() -> SystemEvent {
    SystemEvent {
        id: "evt-2000".to_string(),
        timestamp: 10_000,
        event_type: EventType::ProcessCreated,
        severity: Severity::Medium,
        source: "process_monitor".to_string(),
        details: EventDetails::Process(ProcessEvent {
            pid: 2000,
            ppid: Some(2),
            name: "bash".to_string(),
            path: "/tmp/x/bash".to_string(),
            cmdline: vec!["bash".to_string(), "-i".to_string()],
            user: "root".to_string(),
            uid: 0,
        }),
    }
}

fn shadow_write_event() -> SystemEvent {
    SystemEvent {
        id: "evt-3000".to_string(),
        timestamp: 20_000,
        event_type: EventType::FileModified,
        severity: Severity::Critical,
        source: "file_monitor".to_string(),
        details: EventDetails::File(FileEvent {
            path: "/etc/shadow".to_string(),
            operation: "modify".to_string(),
            process_pid: 3000,
            process_name: "vi".to_string(),
            user: "root".to_string(),
            permissions: None,
        }),
    }
}

fn file_modified(n: u32, at: u64) -> SystemEvent {
    SystemEvent {
        id: format!("fm-{}", n),
        timestamp: at,
        event_type: EventType::FileModified,
        severity: Severity::Low,
        source: "file_monitor".to_string(),
        details: EventDetails::File(FileEvent {
            path: format!("/home/user/doc{}", n),
            operation: "modify".to_string(),
            process_pid: 4000,
            process_name: "cryptor".to_string(),
            user: "user".to_string(),
            permissions: None,
        }),
    }
}

#[test]
fn benign_event_yields_no_threat() {
    let mut engine = DetectionEngine::new(700);
    engine.initialize();
    let event = SystemEvent {
        id: "evt-1000".to_string(),
        timestamp: 1_000,
        event_type: EventType::ProcessCreated,
        severity: Severity::Info,
        source: "process_monitor".to_string(),
        details: EventDetails::Process(ProcessEvent {
            pid: 1000,
            ppid: Some(500),
            name: "ls".to_string(),
            path: "/bin/ls".to_string(),
            cmdline: vec!["ls".to_string()],
            user: "user".to_string(),
            uid: 1000,
        }),
    };
    assert!(engine.process_event(event, 1_000).is_none());
}

#[test]
fn tmp_shell_yields_critical_threat() {
    let mut engine = DetectionEngine::new(700);
    engine.initialize();
    let threat = engine.process_event(tmp_shell_event(), 10_000).expect("threat expected");
    assert_eq!(threat.score, 1000);
    assert_eq!(threat.severity, Severity::Critical);
    assert_eq!(ThreatScorer::new().score_to_severity(threat.score), threat.severity);
    // The root_process_spawn rule id classifies as privilege escalation.
    assert_eq!(threat.threat_type, ThreatType::PrivilegeEscalation);
    assert_eq!(threat.timestamp, 10_000);
    assert_eq!(threat.events.len(), 1);
    assert_eq!(
        threat.rule_matches,
        vec!["suspicious_process_location".to_string(), "root_process_spawn".to_string()]
    );
}

#[test]
fn shadow_write_yields_anomalous_critical_threat() {
    let mut engine = DetectionEngine::new(700);
    engine.initialize();
    let threat = engine.process_event(shadow_write_event(), 20_000).expect("threat expected");
    assert_eq!(threat.score, 1000);
    assert_eq!(threat.severity, Severity::Critical);
    assert_eq!(threat.threat_type, ThreatType::AnomalousBehavior);
    assert_eq!(
        threat.description,
        "Event: FileModified | IOC matches: 1 | Rule matches: critical_file_modification"
    );
}

#[test]
fn ransomware_correlation_fires_on_eleven_writes() {
    let mut correlator = EventCorrelator::new();
    for n in 0..11u32 {
        correlator.add_event(file_modified(n, 1_000 + n as u64), 1_000 + n as u64);
    }
    let threats = correlator.correlate(2_000);
    let ransomware: Vec<_> =
        threats.iter().filter(|t| t.threat_type == ThreatType::Ransomware).collect();
    assert_eq!(ransomware.len(), 1);
    let t = ransomware[0];
    assert_eq!(t.severity, Severity::Critical);
    assert_eq!(t.score, 950);
    assert_eq!(ThreatScorer::new().score_to_severity(t.score), t.severity);
    assert_eq!(t.events.len(), 11);
    assert_eq!(t.rule_matches, vec!["ransomware_behavior".to_string()]);
    assert_eq!(t.description, "Ransomware behavior: 11 files modified, 0 deleted");
}

#[test]
fn correlate_twice_reports_the_same_patterns() {
    let mut correlator = EventCorrelator::new();
    for n in 0..11u32 {
        correlator.add_event(file_modified(n, 1_000 + n as u64), 1_000 + n as u64);
    }
    let first = correlator.correlate(2_000);
    let second = correlator.correlate(2_000);
    assert_eq!(first.len(), second.len());
    for (a, b) in first.iter().zip(second.iter()) {
        assert_eq!(a.threat_type, b.threat_type);
        assert_eq!(a.severity, b.severity);
        assert_eq!(a.score, b.score);
        assert_eq!(a.description, b.description);
        assert_eq!(a.events, b.events);
        assert_eq!(a.rule_matches, b.rule_matches);
    }
}

#[test]
fn window_drops_events_older_than_horizon() {
    let mut correlator = EventCorrelator::new();
    correlator.add_event(file_modified(1, 0), 0);
    // Something file-related is in the window: the rootkit pattern fires.
    assert!(correlator.correlate(0).iter().any(|t| t.threat_type == ThreatType::Rootkit));
    // 400 s later the write has left the five-minute window.
    let late = SystemEvent {
        id: "late".to_string(),
        timestamp: 400_000,
        event_type: EventType::ProcessTerminated,
        severity: Severity::Info,
        source: "process_monitor".to_string(),
        details: EventDetails::Process(ProcessEvent {
            pid: 7,
            ppid: None,
            name: "sleep".to_string(),
            path: "/bin/sleep".to_string(),
            cmdline: vec![],
            user: "user".to_string(),
            uid: 1000,
        }),
    };
    correlator.add_event(late, 400_000);
    assert!(correlator.correlate(400_000).is_empty());
}

#[test]
fn exfiltration_correlation_needs_both_sides() {
    let mut correlator = EventCorrelator::new();
    let access = SystemEvent {
        id: "acc".to_string(),
        timestamp: 100,
        event_type: EventType::FileAccessed,
        severity: Severity::Low,
        source: "file_monitor".to_string(),
        details: EventDetails::File(FileEvent {
            path: "/home/user/secrets".to_string(),
            operation: "read".to_string(),
            process_pid: 9,
            process_name: "cat".to_string(),
            user: "user".to_string(),
            permissions: None,
        }),
    };
    correlator.add_event(access, 100);
    assert!(
        !correlator.correlate(100).iter().any(|t| t.threat_type == ThreatType::DataExfiltration)
    );
}

#[test]
fn auto_response_ladder_for_critical_file_threat() {
    let mut engine = DetectionEngine::new(700);
    engine.initialize();
    let threat = engine.process_event(shadow_write_event(), 20_000).expect("threat expected");
    let responder = ResponseEngine::new(true, 700);
    // The pid recorded on the file operation is the kill target.
    assert_eq!(responder.kill_target(&threat), Some(3000));
    assert_eq!(responder.kill_targets(&threat), vec![3000]);
    let plan = responder.plan_actions(&threat);
    assert_eq!(
        plan,
        vec![ResponseAction::Alert, ResponseAction::Kill, ResponseAction::Quarantine]
    );
}

#[test]
fn auto_response_ladder_kills_process_payloads() {
    let mut engine = DetectionEngine::new(700);
    engine.initialize();
    let threat = engine.process_event(tmp_shell_event(), 10_000).expect("threat expected");
    let responder = ResponseEngine::new(true, 700);
    assert_eq!(responder.kill_target(&threat), Some(2000));
    let plan = responder.plan_actions(&threat);
    assert_eq!(
        plan,
        vec![ResponseAction::Alert, ResponseAction::Kill, ResponseAction::Quarantine]
    );
    assert!(responder.forensics_wanted(&threat));
}

#[test]
fn response_disabled_stops_at_alert() {
    let mut engine = DetectionEngine::new(700);
    engine.initialize();
    let threat = engine.process_event(tmp_shell_event(), 10_000).expect("threat expected");
    let responder = ResponseEngine::new(false, 700);
    assert_eq!(responder.plan_actions(&threat), vec![ResponseAction::Alert]);
}

#[test]
fn response_results_carry_exact_messages() {
    let mut engine = DetectionEngine::new(700);
    engine.initialize();
    let threat = engine.process_event(tmp_shell_event(), 10_000).expect("threat expected");
    let responder = ResponseEngine::new(true, 700);
    let alert = responder.build_result(ResponseAction::Alert, true, &threat, 11_000);
    assert_eq!(alert.action, ResponseAction::Alert);
    assert!(alert.success);
    assert_eq!(alert.timestamp, 11_000);
    let expected = format!(
        "Alert: PrivilegeEscalation threat detected - Score: 10.00 - {}",
        threat.description
    );
    assert_eq!(alert.message, expected);
    let kill = responder.build_result(ResponseAction::Kill, true, &threat, 11_001);
    assert_eq!(kill.message, "Killed process PID: 2000");
    let kill_failed = responder.build_result(ResponseAction::Kill, false, &threat, 11_002);
    assert_eq!(kill_failed.message, "Failed to kill process PID: 2000");
    let isolate = responder.build_result(ResponseAction::IsolateNetwork, true, &threat, 11_003);
    assert_eq!(isolate.message, "Network isolation applied");
}

#[test]
fn engine_correlations_come_from_its_window() {
    let mut engine = DetectionEngine::new(700);
    engine.initialize();
    for n in 0..11u32 {
        engine.process_event(file_modified(n, 30_000 + n as u64), 30_000 + n as u64);
    }
    let threats = engine.check_correlations(31_000);
    assert!(threats.iter().any(|t| t.threat_type == ThreatType::Ransomware));
}

#[test]
fn exfiltration_severity_is_the_known_exception() {
    let mut correlator = EventCorrelator::new();
    let access = SystemEvent {
        id: "acc".to_string(),
        timestamp: 100,
        event_type: EventType::FileAccessed,
        severity: Severity::Low,
        source: "file_monitor".to_string(),
        details: EventDetails::File(FileEvent {
            path: "/home/user/secrets".to_string(),
            operation: "read".to_string(),
            process_pid: 9,
            process_name: "cat".to_string(),
            user: "user".to_string(),
            permissions: None,
        }),
    };
    let conn = SystemEvent {
        id: "conn".to_string(),
        timestamp: 200,
        event_type: EventType::NetworkConnection,
        severity: Severity::Low,
        source: "network_monitor".to_string(),
        details: EventDetails::Network(rust_edr::types::NetworkEvent {
            protocol: "tcp".to_string(),
            src_ip: "10.0.0.2".to_string(),
            src_port: 50000,
            dst_ip: "203.0.113.9".to_string(),
            dst_port: 443,
            process_pid: Some(9),
            process_name: Some("cat".to_string()),
            bytes_sent: 1_000,
            bytes_received: 0,
        }),
    };
    correlator.add_event(access, 100);
    correlator.add_event(conn, 200);
    let threats = correlator.correlate(300);
    let exfil: Vec<_> =
        threats.iter().filter(|t| t.threat_type == ThreatType::DataExfiltration).collect();
    assert_eq!(exfil.len(), 1);
    // This is the one pattern whose fixed severity (High) disagrees with
    // the score mapping: 8.0 would grade Critical.
    assert_eq!(exfil[0].severity, Severity::High);
    assert_eq!(exfil[0].score, 800);
    assert_eq!(exfil[0].events.len(), 2);
}

#[test]
fn kill_ladder_targets_each_pid_once() {
    let responder = ResponseEngine::new(true, 700);
    let threat = rust_edr::types::Threat {
        id: "t-multi".to_string(),
        timestamp: 1,
        threat_type: ThreatType::Malware,
        severity: Severity::Critical,
        score: 1000,
        description: "several implicated processes".to_string(),
        events: vec![
            tmp_shell_event(),
            tmp_shell_event(),
            shadow_write_event(),
        ],
        ioc_matches: vec![],
        rule_matches: vec![],
    };
    // Two events name pid 2000, one names pid 3000: one kill each.
    assert_eq!(responder.kill_targets(&threat), vec![2000, 3000]);
    assert_eq!(
        responder.plan_actions(&threat),
        vec![
            ResponseAction::Alert,
            ResponseAction::Kill,
            ResponseAction::Kill,
            ResponseAction::Quarantine,
        ]
    );
    let kill = responder.build_kill_result(3000, true, 5);
    assert_eq!(kill.message, "Killed process PID: 3000");
    assert_eq!(kill.action, ResponseAction::Kill);
    let failed = responder.build_kill_result(2000, false, 6);
    assert_eq!(failed.message, "Failed to kill process PID: 2000");
}
