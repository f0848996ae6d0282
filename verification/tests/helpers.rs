// Text utilities and probe-side helpers.

use rust_edr::forensics::{parse_hex_ip, ForensicArchiver};
use rust_edr::probes::{
    assess_connection_severity, assess_file_severity, assess_process_severity,
};
use rust_edr::text::{basename_str, contains_sub, join_with, starts_with_sub, str_eq, u64_to_dec};
use rust_edr::types::Severity;

#[test]
fn substring_search() {
    assert!(contains_sub("/tmp/x/bash", "/tmp/"));
    assert!(!contains_sub("/bin/ls", "/tmp/"));
    assert!(contains_sub("abc", ""));
    assert!(!contains_sub("ab", "abc"));
    assert!(contains_sub("abcabd", "abd"));
}

#[test]
fn prefix_and_equality() {
    assert!(starts_with_sub("/var/tmp/x", "/var/tmp/"));
    assert!(!starts_with_sub("/var/tmpx", "/var/tmp/"));
    assert!(str_eq("execute", "execute"));
    assert!(!str_eq("execute", "executed"));
}

#[test]
fn joining_and_numbers() {
    let parts = vec!["wget".to_string(), "http://x".to_string()];
    assert_eq!(join_with(&parts, " "), "wget http://x");
    assert_eq!(join_with(&parts, ", "), "wget, http://x");
    assert_eq!(join_with(&Vec::new(), ", "), "");
    assert_eq!(u64_to_dec(0), "0");
    assert_eq!(u64_to_dec(10), "10");
    assert_eq!(u64_to_dec(1234567890), "1234567890");
}

#[test]
fn basenames() {
    assert_eq!(basename_str("/etc/cron.d/.hidden"), ".hidden");
    assert_eq!(basename_str("plain"), "plain");
    // Trailing slashes are ignored, as Path::file_name ignores them.
    assert_eq!(basename_str("/tmp/.hidden/"), ".hidden");
    assert_eq!(basename_str("/ends/with//"), "with");
    assert_eq!(basename_str("///"), "");
    assert_eq!(basename_str(""), "");
}

#[test]
fn hex_addresses() {
    assert_eq!(parse_hex_ip("0100007F"), "127.0.0.1");
    assert_eq!(parse_hex_ip("00000000"), "0.0.0.0");
    assert_eq!(parse_hex_ip("0BB8A8C0"), "192.168.184.11");
    assert_eq!(parse_hex_ip("not8hexx"), "0.0.0.0");
    assert_eq!(parse_hex_ip("tooshort-or-v6"), "tooshort-or-v6");
}

#[test]
fn probe_severities() {
    assert_eq!(
        assess_process_severity("/tmp/x/a.out", &vec!["a.out".to_string()], 1000),
        Severity::High
    );
    assert_eq!(
        assess_process_severity(
            "/usr/bin/curl",
            &vec!["curl".to_string(), "http://x".to_string(), "|bash".to_string()],
            1000
        ),
        Severity::High
    );
    assert_eq!(assess_process_severity("/bin/ls", &vec!["ls".to_string()], 0), Severity::Medium);
    assert_eq!(assess_process_severity("/bin/ls", &vec!["ls".to_string()], 1000), Severity::Info);
    assert_eq!(assess_file_severity("/etc/shadow", "modify"), Severity::Critical);
    assert_eq!(assess_file_severity("/etc/hosts", "modify"), Severity::High);
    assert_eq!(assess_file_severity("/etc/hosts", "create"), Severity::Medium);
    assert_eq!(assess_file_severity("/tmp/scratch", "create"), Severity::Medium);
    assert_eq!(assess_file_severity("/home/user/notes", "create"), Severity::Info);
    assert_eq!(assess_connection_severity("203.0.113.9", 4444), Severity::High);
    assert_eq!(assess_connection_severity("127.0.0.1", 80), Severity::Info);
    assert_eq!(assess_connection_severity("203.0.113.9", 443), Severity::Low);
}

#[test]
fn archiver_constructs() {
    let _ = ForensicArchiver::new("/var/log/rust-edr");
}
