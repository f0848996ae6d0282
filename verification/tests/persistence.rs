// Serialisation round trips and the sled-backed store.

use rust_edr::codec::{decode_event, decode_threat, encode_event, encode_threat};
use rust_edr::store::EventStore;
use rust_edr::types::{
    EventDetails, EventType, MemoryEvent, NetworkEvent, ProcessEvent, RootkitEvent, Severity,
    SystemEvent, Threat, ThreatType, UserEvent,
};

fn sample_events() -> Vec<SystemEvent> {
    vec![
        SystemEvent {
            id: "p-1".to_string(),
            timestamp: 11,
            event_type: EventType::ProcessCreated,
            severity: Severity::Low,
            source: "process_monitor".to_string(),
            details: EventDetails::Process(ProcessEvent {
                pid: 42,
                ppid: Some(1),
                name: "bash".to_string(),
                path: "/bin/bash".to_string(),
                cmdline: vec!["bash".to_string(), "-c".to_string(), "true".to_string()],
                user: "root".to_string(),
                uid: 0,
            }),
        },
        SystemEvent {
            id: "n-1".to_string(),
            timestamp: 12,
            event_type: EventType::NetworkConnection,
            severity: Severity::Medium,
            source: "network_monitor".to_string(),
            details: EventDetails::Network(NetworkEvent {
                protocol: "tcp".to_string(),
                src_ip: "10.0.0.2".to_string(),
                src_port: 51000,
                dst_ip: "203.0.113.9".to_string(),
                dst_port: 4444,
                process_pid: None,
                process_name: None,
                bytes_sent: 123_456_789,
                bytes_received: 42,
            }),
        },
        SystemEvent {
            id: "u-1".to_string(),
            timestamp: 13,
            event_type: EventType::UserLogin,
            severity: Severity::High,
            source: "user_monitor".to_string(),
            details: EventDetails::User(UserEvent {
                username: "root".to_string(),
                uid: 0,
                action: "login".to_string(),
                terminal: None,
                remote_ip: Some("198.51.100.7".to_string()),
            }),
        },
        SystemEvent {
            id: "m-1".to_string(),
            timestamp: 14,
            event_type: EventType::MemoryInjection,
            severity: Severity::Critical,
            source: "memory_monitor".to_string(),
            details: EventDetails::Memory(MemoryEvent {
                process_pid: 77,
                process_name: "target".to_string(),
                operation: "inject".to_string(),
                address: 0xdead_beef,
                size: 4096,
                permissions: "rwx".to_string(),
            }),
        },
        SystemEvent {
            id: "r-1".to_string(),
            timestamp: 15,
            event_type: EventType::RootkitDetected,
            severity: Severity::Critical,
            source: "rootkit_monitor".to_string(),
            details: EventDetails::Rootkit(RootkitEvent {
                detection_type: "hidden_module".to_string(),
                description: "module not in lsmod".to_string(),
                affected_path: Some("/sys/module/evil".to_string()),
                affected_process: None,
            }),
        },
    ]
}

fn sample_threat() -> Threat {
    Threat {
        id: "threat-1".to_string(),
        timestamp: 99,
        threat_type: ThreatType::Ransomware,
        severity: Severity::Critical,
        score: 950,
        description: "Ransomware behavior: 11 files modified, 0 deleted".to_string(),
        events: sample_events(),
        ioc_matches: vec!["path__tmp_".to_string()],
        rule_matches: vec!["ransomware_behavior".to_string()],
    }
}

#[test]
fn event_round_trip_every_payload() {
    for event in sample_events() {
        let bytes = encode_event(&event);
        let back = decode_event(&bytes).expect("an encoding decodes");
        assert_eq!(back, event);
    }
}

#[test]
fn threat_round_trip_with_embedded_events() {
    let threat = sample_threat();
    let bytes = encode_threat(&threat);
    let back = decode_threat(&bytes).expect("an encoding decodes");
    assert_eq!(back, threat);
}

#[test]
fn threat_round_trip_empty_lists() {
    let threat = Threat {
        id: "t-empty".to_string(),
        timestamp: 0,
        threat_type: ThreatType::AnomalousBehavior,
        severity: Severity::Info,
        score: 0,
        description: String::new(),
        events: vec![],
        ioc_matches: vec![],
        rule_matches: vec![],
    };
    let bytes = encode_threat(&threat);
    assert_eq!(decode_threat(&bytes).expect("an encoding decodes"), threat);
}

#[test]
fn decoding_noise_does_not_panic() {
    let noise: Vec<u8> = (0..64u8).collect();
    let _ = decode_event(&noise);
    let _ = decode_threat(&noise);
    let empty: Vec<u8> = Vec::new();
    assert!(decode_event(&empty).is_none());
}

#[test]
fn store_round_trips_records() {
    let db = sled::Config::new().temporary(true).open().expect("temporary tree");
    let mut store = EventStore::new(db);
    let event = sample_events().remove(0);
    let threat = sample_threat();
    assert!(store.store_event(&event));
    assert!(store.store_threat(&threat));
    assert_eq!(store.get_event("p-1").expect("stored event"), event);
    assert_eq!(store.get_threat("threat-1").expect("stored threat"), threat);
    assert!(store.get_event("absent").is_none());
    assert_eq!(store.event_count(), 1);
    assert_eq!(store.threat_count(), 1);
    assert_eq!(store.get_recent_events(10).len(), 1);
    assert_eq!(store.get_recent_threats(10).len(), 1);
}

#[test]
fn store_retention_sweep_deletes_old_records() {
    let db = sled::Config::new().temporary(true).open().expect("temporary tree");
    let mut store = EventStore::new(db);
    let mut old_event = sample_events().remove(0);
    old_event.id = "old".to_string();
    old_event.timestamp = 10;
    let mut new_event = sample_events().remove(0);
    new_event.id = "new".to_string();
    new_event.timestamp = 1_000;
    assert!(store.store_event(&old_event));
    assert!(store.store_event(&new_event));
    let deleted = store.cleanup_old_data(500);
    assert_eq!(deleted, 1);
    assert!(store.get_event("old").is_none());
    assert!(store.get_event("new").is_some());
}

#[test]
fn event_round_trip_keeps_every_character() {
    let event = SystemEvent {
        id: "Ω-1".to_string(),
        timestamp: u64::MAX,
        event_type: EventType::SuspiciousBehavior,
        severity: Severity::High,
        source: "προβε".to_string(),
        details: EventDetails::Process(ProcessEvent {
            pid: u32::MAX,
            ppid: None,
            name: "ερμής 🦀".to_string(),
            path: String::new(),
            cmdline: vec![String::new(), "—dash".to_string()],
            user: "ρ".to_string(),
            uid: 0,
        }),
    };
    let bytes = encode_event(&event);
    assert_eq!(decode_event(&bytes).expect("an encoding decodes"), event);
}
