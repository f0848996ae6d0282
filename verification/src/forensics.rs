//! Forensic records and helpers: the archive layout, the record types a
//! snapshot collects, and the parsing of kernel hex addresses.  Walking
//! `/proc`, capturing snapshots and writing archives are the platform
//! adapter's work.

use vstd::prelude::*;

use crate::text::{dec_str, u64_to_dec};

verus! {

/// A process, as a snapshot records it.
#[derive(Debug, Clone, PartialEq)]
pub struct ProcessInfo {
    pub pid: u32,
    pub name: String,
    pub cmdline: Vec<String>,
    pub uid: u32,
    pub parent_pid: Option<u32>,
    pub status: String,
    pub memory_kb: u64,
}

/// A connection, as a snapshot records it.
#[derive(Debug, Clone, PartialEq)]
pub struct NetworkConnection {
    pub protocol: String,
    pub local_addr: String,
    pub local_port: u16,
    pub remote_addr: String,
    pub remote_port: u16,
    pub state: String,
    pub pid: Option<u32>,
}

/// An open file, as a snapshot records it.
#[derive(Debug, Clone, PartialEq)]
pub struct OpenFile {
    pub pid: u32,
    pub path: String,
    pub mode: String,
}

/// A memory mapping, as a snapshot records it.
#[derive(Debug, Clone, PartialEq)]
pub struct MemoryMap {
    pub pid: u32,
    pub address: String,
    pub permissions: String,
    pub path: Option<String>,
    pub size_kb: u64,
}

/// Archiver configuration: where archives live, when logs are compressed,
/// and how long archives are kept.
pub struct ForensicArchiver {
    base_dir: String,
    archive_dir: String,
    max_log_size_mb: u64,
    retention_days: u64,
}

impl ForensicArchiver {
    /// The base directory.
    pub closed spec fn base(self) -> Seq<char> {
        self.base_dir@
    }

    /// The archive directory.
    pub closed spec fn archive(self) -> Seq<char> {
        self.archive_dir@
    }

    /// The size, in megabytes, above which a log is compressed.
    pub closed spec fn max_log_size(self) -> u64 {
        self.max_log_size_mb
    }

    /// How many days archives are kept.
    pub closed spec fn retention(self) -> u64 {
        self.retention_days
    }

    /// An archiver rooted at `base_dir`: archives live in its `archives`
    /// subdirectory, logs over 100 MB are compressed, and archives are
    /// kept for 90 days.
    pub fn new(base_dir: &str) -> (r: Self)
        ensures
            r.base() == base_dir@,
            r.archive() == base_dir@ + "/archives"@,
            r.max_log_size() == 100,
            r.retention() == 90,
    {
        let mut archive = String::from_str(base_dir);
        archive.append("/archives");
        ForensicArchiver {
            base_dir: String::from_str(base_dir),
            archive_dir: archive,
            max_log_size_mb: 100,
            retention_days: 90,
        }
    }
}

/// The value of a hex digit, or nothing.
pub open spec fn hex_digit_val(c: char) -> Option<int> {
    if '0' <= c <= '9' {
        Some(c as u32 - '0' as u32)
    } else if 'a' <= c <= 'f' {
        Some(c as u32 - 'a' as u32 + 10)
    } else if 'A' <= c <= 'F' {
        Some(c as u32 - 'A' as u32 + 10)
    } else {
        None
    }
}

/// The byte two hex digits spell; a malformed pair reads as zero, as
/// lenient kernel-table parsing does.
pub open spec fn hex_pair_val(c1: char, c2: char) -> int {
    match (hex_digit_val(c1), hex_digit_val(c2)) {
        (Some(h), Some(l)) => 16 * h + l,
        _ => 0,
    }
}

/// The dotted-decimal rendering of a kernel hex address: eight hex digits
/// are a little-endian IPv4 address; anything else passes through.
pub open spec fn parse_hex_ip_spec(s: Seq<char>) -> Seq<char> {
    if s.len() == 8 {
        dec_str(hex_pair_val(s[6], s[7])) + seq!['.'] + dec_str(hex_pair_val(s[4], s[5]))
            + seq!['.'] + dec_str(hex_pair_val(s[2], s[3])) + seq!['.'] + dec_str(
            hex_pair_val(s[0], s[1]),
        )
    } else {
        s
    }
}

/// The value of a hex digit, executable form.
fn hex_digit(c: char) -> (r: Option<u32>)
    ensures
        match r {
            Some(v) => hex_digit_val(c) == Some(v as int),
            None => hex_digit_val(c) is None,
        },
{
    if '0' <= c && c <= '9' {
        Some(c as u32 - '0' as u32)
    } else if 'a' <= c && c <= 'f' {
        Some(c as u32 - 'a' as u32 + 10)
    } else if 'A' <= c && c <= 'F' {
        Some(c as u32 - 'A' as u32 + 10)
    } else {
        None
    }
}

/// The byte two hex digits spell, executable form.
fn hex_pair(c1: char, c2: char) -> (r: u32)
    ensures
        r == hex_pair_val(c1, c2),
        r <= 255,
{
    match (hex_digit(c1), hex_digit(c2)) {
        (Some(h), Some(l)) => 16 * h + l,
        _ => 0,
    }
}

/// Render a kernel hex address in dotted decimal.
pub fn parse_hex_ip(hex: &str) -> (r: String)
    ensures
        r@ == parse_hex_ip_spec(hex@),
{
    let n = hex.unicode_len();
    if n == 8 {
        let b3 = hex_pair(hex.get_char(6), hex.get_char(7));
        let b2 = hex_pair(hex.get_char(4), hex.get_char(5));
        let b1 = hex_pair(hex.get_char(2), hex.get_char(3));
        let b0 = hex_pair(hex.get_char(0), hex.get_char(1));
        let mut out = u64_to_dec(b3 as u64);
        out.append(".");
        let p2 = u64_to_dec(b2 as u64);
        out.append(p2.as_str());
        out.append(".");
        let p1 = u64_to_dec(b1 as u64);
        out.append(p1.as_str());
        out.append(".");
        let p0 = u64_to_dec(b0 as u64);
        out.append(p0.as_str());
        proof {
            reveal_strlit(".");
            assert(out@ =~= parse_hex_ip_spec(hex@));
        }
        out
    } else {
        String::from_str(hex)
    }
}

} // verus!
