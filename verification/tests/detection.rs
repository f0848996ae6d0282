// Detection-layer tests: indicator matching, rules, scoring.

use rust_edr::ioc::IOCMatcher;
use rust_edr::rules::RuleEngine;
use rust_edr::scoring::ThreatScorer;
use rust_edr::types::{
    EventDetails, EventType, FileEvent, ProcessEvent, Severity, SystemEvent, UserEvent,
};

fn process_event(
    pid: u32,
    ppid: Option<u32>,
    name: &str,
    path: &str,
    cmdline: &[&str],
    uid: u32,
    severity: Severity,
) -> SystemEvent {
    SystemEvent {
        id: format!("evt-{}", pid),
        timestamp: 1_000,
        event_type: EventType::ProcessCreated,
        severity,
        source: "process_monitor".to_string(),
        details: EventDetails::Process(ProcessEvent {
            pid,
            ppid,
            name: name.to_string(),
            path: path.to_string(),
            cmdline: cmdline.iter().map(|s| s.to_string()).collect(),
            user: "root".to_string(),
            uid,
        }),
    }
}

fn file_event(path: &str, operation: &str, pid: u32, severity: Severity) -> SystemEvent {
    SystemEvent {
        id: format!("file-{}", pid),
        timestamp: 2_000,
        event_type: EventType::FileModified,
        severity,
        source: "file_monitor".to_string(),
        details: EventDetails::File(FileEvent {
            path: path.to_string(),
            operation: operation.to_string(),
            process_pid: pid,
            process_name: "editor".to_string(),
            user: "root".to_string(),
            permissions: None,
        }),
    }
}

#[test]
fn test_ioc_matcher() {
    let mut matcher = IOCMatcher::new();
    matcher.load_iocs();
    assert!(matcher.ioc_count() > 0);
}

#[test]
fn test_scoring() {
    let scorer = ThreatScorer::new();
    assert_eq!(scorer.score_to_severity(150), Severity::Info);
    assert_eq!(scorer.score_to_severity(550), Severity::Medium);
    assert_eq!(scorer.score_to_severity(900), Severity::Critical);
}

#[test]
fn severity_boundaries() {
    let scorer = ThreatScorer::new();
    assert_eq!(scorer.score_to_severity(199), Severity::Info);
    assert_eq!(scorer.score_to_severity(200), Severity::Low);
    assert_eq!(scorer.score_to_severity(399), Severity::Low);
    assert_eq!(scorer.score_to_severity(400), Severity::Medium);
    assert_eq!(scorer.score_to_severity(599), Severity::Medium);
    assert_eq!(scorer.score_to_severity(600), Severity::High);
    assert_eq!(scorer.score_to_severity(799), Severity::High);
    assert_eq!(scorer.score_to_severity(800), Severity::Critical);
}

#[test]
fn threshold_is_inclusive() {
    let scorer = ThreatScorer::new();
    assert!(scorer.exceeds_threshold(700, 700));
    assert!(!scorer.exceeds_threshold(699, 700));
}

#[test]
fn default_iocs_match_known_bad_process() {
    let mut matcher = IOCMatcher::new();
    matcher.load_iocs();
    let event = process_event(
        10,
        Some(1),
        "mimikatz",
        "/opt/tools/mimikatz",
        &["mimikatz"],
        1000,
        Severity::Info,
    );
    let matches = matcher.check_event(&event);
    assert!(matches.contains(&"proc_mimikatz".to_string()));
}

#[test]
fn default_iocs_have_recorded_details() {
    let mut matcher = IOCMatcher::new();
    matcher.load_iocs();
    let ioc = matcher.get_ioc("path__etc_shadow").expect("baseline indicator present");
    assert_eq!(ioc.value, "/etc/shadow");
    assert_eq!(ioc.severity, Severity::Medium);
    let ioc = matcher.get_ioc("proc_curl").expect("baseline indicator present");
    assert_eq!(ioc.value, "curl");
    assert_eq!(ioc.severity, Severity::High);
    assert!(matcher.get_ioc("no_such_id").is_none());
}

#[test]
fn ioc_matching_is_idempotent() {
    let mut matcher = IOCMatcher::new();
    matcher.load_iocs();
    let event = process_event(
        11,
        Some(1),
        "curl",
        "/tmp/x/curl",
        &["curl", "http://example.invalid"],
        0,
        Severity::Low,
    );
    let first = matcher.check_event(&event);
    let second = matcher.check_event(&event);
    assert_eq!(first, second);
    assert!(!first.is_empty());
}

#[test]
fn benign_event_matches_nothing() {
    let mut matcher = IOCMatcher::new();
    matcher.load_iocs();
    let mut rules = RuleEngine::new();
    rules.load_rules();
    let event = process_event(1000, Some(500), "ls", "/bin/ls", &["ls"], 1000, Severity::Info);
    assert!(matcher.check_event(&event).is_empty());
    assert!(rules.check_event(&event).is_empty());
}

#[test]
fn baseline_process_scores_one() {
    let mut matcher = IOCMatcher::new();
    matcher.load_iocs();
    let mut rules = RuleEngine::new();
    rules.load_rules();
    let scorer = ThreatScorer::new();
    let event = process_event(1000, Some(500), "ls", "/bin/ls", &["ls"], 1000, Severity::Info);
    let ioc_matches = matcher.check_event(&event);
    let rule_matches = rules.check_event(&event);
    let score = scorer.score_event(&event, &ioc_matches, &rule_matches, &matcher, &rules);
    assert_eq!(score, 100);
}

#[test]
fn tmp_shell_fires_location_and_root_rules() {
    let mut rules = RuleEngine::new();
    rules.load_rules();
    let event = process_event(
        2000,
        Some(2),
        "bash",
        "/tmp/x/bash",
        &["bash", "-i"],
        0,
        Severity::Medium,
    );
    let matches = rules.check_event(&event);
    assert_eq!(
        matches,
        vec!["suspicious_process_location".to_string(), "root_process_spawn".to_string()]
    );
}

#[test]
fn root_spawn_not_fired_for_init_parent() {
    let mut rules = RuleEngine::new();
    rules.load_rules();
    let event = process_event(
        2000,
        Some(1),
        "bash",
        "/opt/bash",
        &["bash", "-i"],
        0,
        Severity::Medium,
    );
    let matches = rules.check_event(&event);
    assert!(!matches.contains(&"root_process_spawn".to_string()));
}

#[test]
fn root_spawn_not_fired_for_ordinary_user() {
    let mut rules = RuleEngine::new();
    rules.load_rules();
    let event = process_event(
        2001,
        Some(2),
        "bash",
        "/opt/bash",
        &["bash", "-i"],
        1000,
        Severity::Medium,
    );
    let matches = rules.check_event(&event);
    assert!(!matches.contains(&"root_process_spawn".to_string()));
}

#[test]
fn critical_file_rule_fires_on_shadow() {
    let mut rules = RuleEngine::new();
    rules.load_rules();
    let event = file_event("/etc/shadow", "modify", 3000, Severity::Critical);
    let matches = rules.check_event(&event);
    assert_eq!(matches, vec!["critical_file_modification".to_string()]);
}

#[test]
fn remote_root_login_rule() {
    let mut rules = RuleEngine::new();
    rules.load_rules();
    let event = SystemEvent {
        id: "login-1".to_string(),
        timestamp: 5_000,
        event_type: EventType::UserLogin,
        severity: Severity::Medium,
        source: "user_monitor".to_string(),
        details: EventDetails::User(UserEvent {
            username: "root".to_string(),
            uid: 0,
            action: "login".to_string(),
            terminal: Some("pts/0".to_string()),
            remote_ip: Some("203.0.113.9".to_string()),
        }),
    };
    let matches = rules.check_event(&event);
    assert!(matches.contains(&"remote_root_login".to_string()));
}

#[test]
fn rule_lookup_reports_severity() {
    let mut rules = RuleEngine::new();
    rules.load_rules();
    let rule = rules.get_rule("critical_file_modification").expect("rule present");
    assert_eq!(rule.severity, Severity::Critical);
    assert!(rule.enabled);
    assert!(rules.get_rule("no_such_rule").is_none());
}

#[test]
fn score_event_applies_bonus_and_clamp() {
    let mut matcher = IOCMatcher::new();
    matcher.load_iocs();
    let mut rules = RuleEngine::new();
    rules.load_rules();
    let scorer = ThreatScorer::new();
    // One indicator hit (path /tmp/, Medium) and two rule hits (both High):
    // 5.0 + 5.0 + 7.5 + 7.5 = 25.0, times 1.5, clamped to 10.0.
    let event = process_event(
        2000,
        Some(2),
        "bash",
        "/tmp/x/bash",
        &["bash", "-i"],
        0,
        Severity::Medium,
    );
    let ioc_matches = matcher.check_event(&event);
    assert_eq!(ioc_matches, vec!["path__tmp_".to_string()]);
    let rule_matches = rules.check_event(&event);
    let score = scorer.score_event(&event, &ioc_matches, &rule_matches, &matcher, &rules);
    assert_eq!(score, 1000);
}

#[test]
fn score_threat_averages_and_multiplies() {
    let scorer = ThreatScorer::new();
    // Two Medium events for a Ransomware group: (5.0 + 5.0) * 2.0 / 2 = 10.0.
    let events = vec![
        file_event("/home/a/doc1", "modify", 1, Severity::Medium),
        file_event("/home/a/doc2", "modify", 1, Severity::Medium),
    ];
    let score = scorer.score_threat(&events, &rust_edr::types::ThreatType::Ransomware);
    assert_eq!(score, 1000);
    // One Info event, no multiplier: 1.0.
    let events = vec![process_event(1, None, "ls", "/bin/ls", &["ls"], 1000, Severity::Info)];
    let score = scorer.score_threat(&events, &rust_edr::types::ThreatType::AnomalousBehavior);
    assert_eq!(score, 100);
}

#[test]
fn unknown_match_ids_score_default() {
    let matcher = IOCMatcher::new();
    let rules = RuleEngine::new();
    let scorer = ThreatScorer::new();
    let event = process_event(1, None, "ls", "/bin/ls", &["ls"], 1000, Severity::Info);
    // 1.0 + 2.0 (unknown indicator) + 2.0 (unknown rule), times 1.5 = 7.5.
    let score = scorer.score_event(
        &event,
        &vec!["ghost_ioc".to_string()],
        &vec!["ghost_rule".to_string()],
        &matcher,
        &rules,
    );
    assert_eq!(score, 750);
}

#[test]
fn root_spawn_folds_case_before_matching() {
    let mut rules = RuleEngine::new();
    rules.load_rules();
    let event = process_event(
        2002,
        Some(2),
        "BASH",
        "/opt/BASH",
        &["BASH"],
        0,
        Severity::Medium,
    );
    let matches = rules.check_event(&event);
    assert!(matches.contains(&"root_process_spawn".to_string()));
}
