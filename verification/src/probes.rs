//! Severity stamping for the probes: pure rules that grade an observation
//! before it enters the bus.  The probes themselves (walking `/proc`,
//! watching inotify, polling sockets) are the platform adapter's work and
//! hand these functions plain values.

use vstd::prelude::*;

use crate::text::{contains_sub, join_spaces, join_spaces_seq, seq_contains, seq_starts_with,
    starts_with_sub, str_eq};
use crate::types::Severity;

verus! {

/// How a new process is graded: high from a scratch directory or with a
/// download-and-run command line, medium as root, else informational.
pub open spec fn process_severity_spec(path: Seq<char>, cmdline: Seq<Seq<char>>, uid: u32)
    -> Severity {
    let cmd = join_spaces_seq(cmdline);
    if seq_contains(path, "/tmp/"@) || seq_contains(path, "/dev/shm/"@) {
        Severity::High
    } else if (seq_contains(cmd, "wget"@) && seq_contains(cmd, "http"@)) || (seq_contains(
        cmd,
        "curl"@,
    ) && seq_contains(cmd, "bash"@)) || seq_contains(cmd, "nc -"@) || seq_contains(
        cmd,
        "/dev/tcp/"@,
    ) {
        Severity::High
    } else if uid == 0 {
        Severity::Medium
    } else {
        Severity::Info
    }
}

/// Grade a new process.
pub fn assess_process_severity(exe_path: &str, cmdline: &Vec<String>, uid: u32) -> (r: Severity)
    ensures
        r == process_severity_spec(exe_path@, cmdline.deep_view(), uid),
{
    if contains_sub(exe_path, "/tmp/") || contains_sub(exe_path, "/dev/shm/") {
        return Severity::High;
    }
    let cmd = join_spaces(cmdline);
    if (contains_sub(cmd.as_str(), "wget") && contains_sub(cmd.as_str(), "http")) || (contains_sub(
        cmd.as_str(),
        "curl",
    ) && contains_sub(cmd.as_str(), "bash")) || contains_sub(cmd.as_str(), "nc -") || contains_sub(
        cmd.as_str(),
        "/dev/tcp/",
    ) {
        return Severity::High;
    }
    if uid == 0 {
        return Severity::Medium;
    }
    Severity::Info
}

/// How a file operation is graded: critical on the credential files, high
/// on modification or deletion under system directories, medium there
/// otherwise or in scratch directories, else informational.
pub open spec fn file_severity_spec(path: Seq<char>, operation: Seq<char>) -> Severity {
    if seq_contains(path, "/etc/passwd"@) || seq_contains(path, "/etc/shadow"@) || seq_contains(
        path,
        "/etc/sudoers"@,
    ) || seq_contains(path, ".ssh/authorized_keys"@) {
        Severity::Critical
    } else if seq_starts_with(path, "/etc/"@) || seq_starts_with(path, "/usr/bin/"@)
        || seq_starts_with(path, "/usr/sbin/"@) {
        if operation == "modify"@ || operation == "delete"@ {
            Severity::High
        } else {
            Severity::Medium
        }
    } else if seq_contains(path, "/tmp/"@) || seq_contains(path, "/dev/shm/"@) {
        Severity::Medium
    } else {
        Severity::Info
    }
}

/// Grade a file operation.
pub fn assess_file_severity(path: &str, operation: &str) -> (r: Severity)
    ensures
        r == file_severity_spec(path@, operation@),
{
    if contains_sub(path, "/etc/passwd") || contains_sub(path, "/etc/shadow") || contains_sub(
        path,
        "/etc/sudoers",
    ) || contains_sub(path, ".ssh/authorized_keys") {
        return Severity::Critical;
    }
    if starts_with_sub(path, "/etc/") || starts_with_sub(path, "/usr/bin/") || starts_with_sub(
        path,
        "/usr/sbin/",
    ) {
        if str_eq(operation, "modify") || str_eq(operation, "delete") {
            return Severity::High;
        }
        return Severity::Medium;
    }
    if contains_sub(path, "/tmp/") || contains_sub(path, "/dev/shm/") {
        return Severity::Medium;
    }
    Severity::Info
}

/// How a connection is graded: high to a port attack tooling favours,
/// informational to localhost, else low.
pub open spec fn connection_severity_spec(dst_ip: Seq<char>, dst_port: u16) -> Severity {
    if dst_port == 4444 || dst_port == 31337 || dst_port == 1337 || dst_port == 8888 || dst_port
        == 9999 || dst_port == 6666 || dst_port == 12345 {
        Severity::High
    } else if seq_starts_with(dst_ip, "127."@) {
        Severity::Info
    } else {
        Severity::Low
    }
}

/// Grade a connection.
pub fn assess_connection_severity(dst_ip: &str, dst_port: u16) -> (r: Severity)
    ensures
        r == connection_severity_spec(dst_ip@, dst_port),
{
    if dst_port == 4444 || dst_port == 31337 || dst_port == 1337 || dst_port == 8888 || dst_port
        == 9999 || dst_port == 6666 || dst_port == 12345 {
        return Severity::High;
    }
    if starts_with_sub(dst_ip, "127.") {
        return Severity::Info;
    }
    Severity::Low
}

} // verus!
