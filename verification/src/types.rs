//! Common record types of the pipeline: events, indicators, threats,
//! response actions, together with their mathematical models.
//!
//! Each record type `X` has a ghost model `XV` reached through
//! [`vstd::prelude::DeepView`]; strings become `Seq<char>` and vectors
//! become `Seq` of element models.  Contracts throughout the crate are
//! stated over these models.
//!
//! Timestamps are milliseconds on the caller's clock.  Scores are
//! fixed-point numbers in hundredths of a point, so the scale of 0.0 to
//! 10.0 becomes 0 to 1000.

use vstd::prelude::*;

verus! {

/// Severity level for events and threats, totally ordered from `Info` up to
/// `Critical` (see [`Severity::rank`]).
#[derive(Debug, Clone, Copy, PartialEq, Eq, Hash, Structural)]
pub enum Severity {
    Info,
    Low,
    Medium,
    High,
    Critical,
}

impl Severity {
    /// Position in the total order `Info < Low < Medium < High < Critical`.
    pub open spec fn rank(self) -> int {
        match self {
            Severity::Info => 0,
            Severity::Low => 1,
            Severity::Medium => 2,
            Severity::High => 3,
            Severity::Critical => 4,
        }
    }
}

impl DeepView for Severity {
    type V = Severity;

    open spec fn deep_view(&self) -> Severity {
        *self
    }
}

/// Kind of event detected by a probe.
#[derive(Debug, Clone, Copy, PartialEq, Eq, Structural)]
pub enum EventType {
    ProcessCreated,
    ProcessTerminated,
    ProcessModified,
    FileCreated,
    FileModified,
    FileDeleted,
    FileAccessed,
    NetworkConnection,
    NetworkDnsQuery,
    NetworkHttpRequest,
    MemoryInjection,
    MemoryAllocation,
    UserLogin,
    UserLogout,
    UserElevation,
    RootkitDetected,
    SuspiciousBehavior,
}

impl DeepView for EventType {
    type V = EventType;

    open spec fn deep_view(&self) -> EventType {
        *self
    }
}

/// Kind of threat detected.
#[derive(Debug, Clone, Copy, PartialEq, Eq, Structural)]
pub enum ThreatType {
    Malware,
    Ransomware,
    Rootkit,
    PrivilegeEscalation,
    LateralMovement,
    DataExfiltration,
    SuspiciousProcess,
    SuspiciousNetwork,
    AnomalousBehavior,
}

impl DeepView for ThreatType {
    type V = ThreatType;

    open spec fn deep_view(&self) -> ThreatType {
        *self
    }
}

/// Kind of indicator.
#[derive(Debug, Clone, Copy, PartialEq, Eq, Structural)]
pub enum IOCType {
    FileHash,
    FilePath,
    IpAddress,
    Domain,
    Url,
    ProcessName,
    RegistryKey,
    Mutex,
}

impl DeepView for IOCType {
    type V = IOCType;

    open spec fn deep_view(&self) -> IOCType {
        *self
    }
}

/// Response action to take for a threat.
#[derive(Debug, Clone, Copy, PartialEq, Eq, Structural)]
pub enum ResponseAction {
    Allow,
    Block,
    Quarantine,
    Alert,
    Kill,
    IsolateNetwork,
}

impl DeepView for ResponseAction {
    type V = ResponseAction;

    open spec fn deep_view(&self) -> ResponseAction {
        *self
    }
}

/// Model of a [`ProcessEvent`].
#[verifier::ext_equal]
pub ghost struct ProcessEventV {
    pub pid: u32,
    pub ppid: Option<u32>,
    pub name: Seq<char>,
    pub path: Seq<char>,
    pub cmdline: Seq<Seq<char>>,
    pub user: Seq<char>,
    pub uid: u32,
}

/// Process-related event details.
#[derive(Debug, PartialEq)]
pub struct ProcessEvent {
    pub pid: u32,
    pub ppid: Option<u32>,
    pub name: String,
    pub path: String,
    pub cmdline: Vec<String>,
    pub user: String,
    pub uid: u32,
}

impl DeepView for ProcessEvent {
    type V = ProcessEventV;

    open spec fn deep_view(&self) -> ProcessEventV {
        ProcessEventV {
            pid: self.pid,
            ppid: self.ppid,
            name: self.name.deep_view(),
            path: self.path.deep_view(),
            cmdline: self.cmdline.deep_view(),
            user: self.user.deep_view(),
            uid: self.uid,
        }
    }
}

impl Clone for ProcessEvent {
    fn clone(&self) -> (r: Self)
        ensures
            r.deep_view() == self.deep_view(),
    {
        let r = ProcessEvent {
            pid: self.pid,
            ppid: self.ppid,
            name: self.name.clone(),
            path: self.path.clone(),
            cmdline: self.cmdline.clone(),
            user: self.user.clone(),
            uid: self.uid,
        };
        proof {
            assert(r.deep_view() =~~= self.deep_view());
        }
        r
    }
}

/// Model of a [`FileEvent`].
#[verifier::ext_equal]
pub ghost struct FileEventV {
    pub path: Seq<char>,
    pub operation: Seq<char>,
    pub process_pid: u32,
    pub process_name: Seq<char>,
    pub user: Seq<char>,
    pub permissions: Option<u32>,
}

/// File-related event details.
#[derive(Debug, PartialEq)]
pub struct FileEvent {
    pub path: String,
    pub operation: String,
    pub process_pid: u32,
    pub process_name: String,
    pub user: String,
    pub permissions: Option<u32>,
}

impl DeepView for FileEvent {
    type V = FileEventV;

    open spec fn deep_view(&self) -> FileEventV {
        FileEventV {
            path: self.path.deep_view(),
            operation: self.operation.deep_view(),
            process_pid: self.process_pid,
            process_name: self.process_name.deep_view(),
            user: self.user.deep_view(),
            permissions: self.permissions,
        }
    }
}

impl Clone for FileEvent {
    fn clone(&self) -> (r: Self)
        ensures
            r.deep_view() == self.deep_view(),
    {
        let r = FileEvent {
            path: self.path.clone(),
            operation: self.operation.clone(),
            process_pid: self.process_pid,
            process_name: self.process_name.clone(),
            user: self.user.clone(),
            permissions: self.permissions,
        };
        proof {
            assert(r.deep_view() =~~= self.deep_view());
        }
        r
    }
}

/// Model of a [`NetworkEvent`].
#[verifier::ext_equal]
pub ghost struct NetworkEventV {
    pub protocol: Seq<char>,
    pub src_ip: Seq<char>,
    pub src_port: u16,
    pub dst_ip: Seq<char>,
    pub dst_port: u16,
    pub process_pid: Option<u32>,
    pub process_name: Option<Seq<char>>,
    pub bytes_sent: u64,
    pub bytes_received: u64,
}

/// Network-related event details.  Addresses are kept in their canonical
/// string rendering.
#[derive(Debug, PartialEq)]
pub struct NetworkEvent {
    pub protocol: String,
    pub src_ip: String,
    pub src_port: u16,
    pub dst_ip: String,
    pub dst_port: u16,
    pub process_pid: Option<u32>,
    pub process_name: Option<String>,
    pub bytes_sent: u64,
    pub bytes_received: u64,
}

impl DeepView for NetworkEvent {
    type V = NetworkEventV;

    open spec fn deep_view(&self) -> NetworkEventV {
        NetworkEventV {
            protocol: self.protocol.deep_view(),
            src_ip: self.src_ip.deep_view(),
            src_port: self.src_port,
            dst_ip: self.dst_ip.deep_view(),
            dst_port: self.dst_port,
            process_pid: self.process_pid,
            process_name: self.process_name.deep_view(),
            bytes_sent: self.bytes_sent,
            bytes_received: self.bytes_received,
        }
    }
}

impl Clone for NetworkEvent {
    fn clone(&self) -> (r: Self)
        ensures
            r.deep_view() == self.deep_view(),
    {
        let r = NetworkEvent {
            protocol: self.protocol.clone(),
            src_ip: self.src_ip.clone(),
            src_port: self.src_port,
            dst_ip: self.dst_ip.clone(),
            dst_port: self.dst_port,
            process_pid: self.process_pid,
            process_name: self.process_name.clone(),
            bytes_sent: self.bytes_sent,
            bytes_received: self.bytes_received,
        };
        proof {
            assert(r.deep_view() =~~= self.deep_view());
        }
        r
    }
}

/// Model of a [`MemoryEvent`].
#[verifier::ext_equal]
pub ghost struct MemoryEventV {
    pub process_pid: u32,
    pub process_name: Seq<char>,
    pub operation: Seq<char>,
    pub address: u64,
    pub size: u64,
    pub permissions: Seq<char>,
}

/// Memory-related event details.
#[derive(Debug, PartialEq)]
pub struct MemoryEvent {
    pub process_pid: u32,
    pub process_name: String,
    pub operation: String,
    pub address: u64,
    pub size: u64,
    pub permissions: String,
}

impl DeepView for MemoryEvent {
    type V = MemoryEventV;

    open spec fn deep_view(&self) -> MemoryEventV {
        MemoryEventV {
            process_pid: self.process_pid,
            process_name: self.process_name.deep_view(),
            operation: self.operation.deep_view(),
            address: self.address,
            size: self.size,
            permissions: self.permissions.deep_view(),
        }
    }
}

impl Clone for MemoryEvent {
    fn clone(&self) -> (r: Self)
        ensures
            r.deep_view() == self.deep_view(),
    {
        let r = MemoryEvent {
            process_pid: self.process_pid,
            process_name: self.process_name.clone(),
            operation: self.operation.clone(),
            address: self.address,
            size: self.size,
            permissions: self.permissions.clone(),
        };
        proof {
            assert(r.deep_view() =~~= self.deep_view());
        }
        r
    }
}

/// Model of a [`UserEvent`].
#[verifier::ext_equal]
pub ghost struct UserEventV {
    pub username: Seq<char>,
    pub uid: u32,
    pub action: Seq<char>,
    pub terminal: Option<Seq<char>>,
    pub remote_ip: Option<Seq<char>>,
}

/// User action event details.
#[derive(Debug, PartialEq)]
pub struct UserEvent {
    pub username: String,
    pub uid: u32,
    pub action: String,
    pub terminal: Option<String>,
    pub remote_ip: Option<String>,
}

impl DeepView for UserEvent {
    type V = UserEventV;

    open spec fn deep_view(&self) -> UserEventV {
        UserEventV {
            username: self.username.deep_view(),
            uid: self.uid,
            action: self.action.deep_view(),
            terminal: self.terminal.deep_view(),
            remote_ip: self.remote_ip.deep_view(),
        }
    }
}

impl Clone for UserEvent {
    fn clone(&self) -> (r: Self)
        ensures
            r.deep_view() == self.deep_view(),
    {
        let r = UserEvent {
            username: self.username.clone(),
            uid: self.uid,
            action: self.action.clone(),
            terminal: self.terminal.clone(),
            remote_ip: self.remote_ip.clone(),
        };
        proof {
            assert(r.deep_view() =~~= self.deep_view());
        }
        r
    }
}

/// Model of a [`RootkitEvent`].
#[verifier::ext_equal]
pub ghost struct RootkitEventV {
    pub detection_type: Seq<char>,
    pub description: Seq<char>,
    pub affected_path: Option<Seq<char>>,
    pub affected_process: Option<Seq<char>>,
}

/// Rootkit detection event details.
#[derive(Debug, PartialEq)]
pub struct RootkitEvent {
    pub detection_type: String,
    pub description: String,
    pub affected_path: Option<String>,
    pub affected_process: Option<String>,
}

impl DeepView for RootkitEvent {
    type V = RootkitEventV;

    open spec fn deep_view(&self) -> RootkitEventV {
        RootkitEventV {
            detection_type: self.detection_type.deep_view(),
            description: self.description.deep_view(),
            affected_path: self.affected_path.deep_view(),
            affected_process: self.affected_process.deep_view(),
        }
    }
}

impl Clone for RootkitEvent {
    fn clone(&self) -> (r: Self)
        ensures
            r.deep_view() == self.deep_view(),
    {
        let r = RootkitEvent {
            detection_type: self.detection_type.clone(),
            description: self.description.clone(),
            affected_path: self.affected_path.clone(),
            affected_process: self.affected_process.clone(),
        };
        proof {
            assert(r.deep_view() =~~= self.deep_view());
        }
        r
    }
}

/// Model of [`EventDetails`].
#[verifier::ext_equal]
pub ghost enum EventDetailsV {
    Process(ProcessEventV),
    File(FileEventV),
    Network(NetworkEventV),
    Memory(MemoryEventV),
    User(UserEventV),
    Rootkit(RootkitEventV),
}

/// Detailed information about an event; exactly one payload family.
#[derive(Debug, PartialEq)]
pub enum EventDetails {
    Process(ProcessEvent),
    File(FileEvent),
    Network(NetworkEvent),
    Memory(MemoryEvent),
    User(UserEvent),
    Rootkit(RootkitEvent),
}

impl DeepView for EventDetails {
    type V = EventDetailsV;

    open spec fn deep_view(&self) -> EventDetailsV {
        match self {
            EventDetails::Process(p) => EventDetailsV::Process(p.deep_view()),
            EventDetails::File(f) => EventDetailsV::File(f.deep_view()),
            EventDetails::Network(n) => EventDetailsV::Network(n.deep_view()),
            EventDetails::Memory(m) => EventDetailsV::Memory(m.deep_view()),
            EventDetails::User(u) => EventDetailsV::User(u.deep_view()),
            EventDetails::Rootkit(r) => EventDetailsV::Rootkit(r.deep_view()),
        }
    }
}

impl Clone for EventDetails {
    fn clone(&self) -> (r: Self)
        ensures
            r.deep_view() == self.deep_view(),
    {
        match self {
            EventDetails::Process(p) => EventDetails::Process(p.clone()),
            EventDetails::File(f) => EventDetails::File(f.clone()),
            EventDetails::Network(n) => EventDetails::Network(n.clone()),
            EventDetails::Memory(m) => EventDetails::Memory(m.clone()),
            EventDetails::User(u) => EventDetails::User(u.clone()),
            EventDetails::Rootkit(k) => EventDetails::Rootkit(k.clone()),
        }
    }
}

/// Model of a [`SystemEvent`].
#[verifier::ext_equal]
pub ghost struct SystemEventV {
    pub id: Seq<char>,
    pub timestamp: u64,
    pub event_type: EventType,
    pub severity: Severity,
    pub source: Seq<char>,
    pub details: EventDetailsV,
}

/// System event captured by a monitoring probe.
#[derive(Debug, PartialEq)]
pub struct SystemEvent {
    pub id: String,
    /// Milliseconds on the emitting probe's clock.
    pub timestamp: u64,
    pub event_type: EventType,
    pub severity: Severity,
    pub source: String,
    pub details: EventDetails,
}

impl DeepView for SystemEvent {
    type V = SystemEventV;

    open spec fn deep_view(&self) -> SystemEventV {
        SystemEventV {
            id: self.id.deep_view(),
            timestamp: self.timestamp,
            event_type: self.event_type,
            severity: self.severity,
            source: self.source.deep_view(),
            details: self.details.deep_view(),
        }
    }
}

impl Clone for SystemEvent {
    fn clone(&self) -> (r: Self)
        ensures
            r.deep_view() == self.deep_view(),
    {
        let r = SystemEvent {
            id: self.id.clone(),
            timestamp: self.timestamp,
            event_type: self.event_type,
            severity: self.severity,
            source: self.source.clone(),
            details: self.details.clone(),
        };
        proof {
            assert(r.deep_view() =~~= self.deep_view());
        }
        r
    }
}

/// Model of a [`Threat`].
#[verifier::ext_equal]
pub ghost struct ThreatV {
    pub id: Seq<char>,
    pub timestamp: u64,
    pub threat_type: ThreatType,
    pub severity: Severity,
    pub score: u32,
    pub description: Seq<char>,
    pub events: Seq<SystemEventV>,
    pub ioc_matches: Seq<Seq<char>>,
    pub rule_matches: Seq<Seq<char>>,
}

/// Threat detected by the detection engine.
#[derive(Debug, PartialEq)]
pub struct Threat {
    pub id: String,
    pub timestamp: u64,
    pub threat_type: ThreatType,
    pub severity: Severity,
    /// Fixed-point score in hundredths; always between 0 and 1000.
    pub score: u32,
    pub description: String,
    pub events: Vec<SystemEvent>,
    pub ioc_matches: Vec<String>,
    pub rule_matches: Vec<String>,
}

impl DeepView for Threat {
    type V = ThreatV;

    open spec fn deep_view(&self) -> ThreatV {
        ThreatV {
            id: self.id.deep_view(),
            timestamp: self.timestamp,
            threat_type: self.threat_type,
            severity: self.severity,
            score: self.score,
            description: self.description.deep_view(),
            events: self.events.deep_view(),
            ioc_matches: self.ioc_matches.deep_view(),
            rule_matches: self.rule_matches.deep_view(),
        }
    }
}

impl Clone for Threat {
    fn clone(&self) -> (r: Self)
        ensures
            r.deep_view() == self.deep_view(),
    {
        let r = Threat {
            id: self.id.clone(),
            timestamp: self.timestamp,
            threat_type: self.threat_type,
            severity: self.severity,
            score: self.score,
            description: self.description.clone(),
            events: self.events.clone(),
            ioc_matches: self.ioc_matches.clone(),
            rule_matches: self.rule_matches.clone(),
        };
        proof {
            assert(r.deep_view() =~~= self.deep_view());
        }
        r
    }
}

/// Model of an [`IOC`].
#[verifier::ext_equal]
pub ghost struct IOCV {
    pub id: Seq<char>,
    pub ioc_type: IOCType,
    pub value: Seq<char>,
    pub description: Seq<char>,
    pub severity: Severity,
    pub tags: Seq<Seq<char>>,
}

/// Indicator of Compromise: a value whose presence in an event attribute
/// implicates known-bad activity.
#[derive(Debug, PartialEq)]
pub struct IOC {
    pub id: String,
    pub ioc_type: IOCType,
    pub value: String,
    pub description: String,
    pub severity: Severity,
    pub tags: Vec<String>,
}

impl DeepView for IOC {
    type V = IOCV;

    open spec fn deep_view(&self) -> IOCV {
        IOCV {
            id: self.id.deep_view(),
            ioc_type: self.ioc_type,
            value: self.value.deep_view(),
            description: self.description.deep_view(),
            severity: self.severity,
            tags: self.tags.deep_view(),
        }
    }
}

impl Clone for IOC {
    fn clone(&self) -> (r: Self)
        ensures
            r.deep_view() == self.deep_view(),
    {
        let r = IOC {
            id: self.id.clone(),
            ioc_type: self.ioc_type,
            value: self.value.clone(),
            description: self.description.clone(),
            severity: self.severity,
            tags: self.tags.clone(),
        };
        proof {
            assert(r.deep_view() =~~= self.deep_view());
        }
        r
    }
}

/// Model of a [`ResponseResult`].
#[verifier::ext_equal]
pub ghost struct ResponseResultV {
    pub action: ResponseAction,
    pub success: bool,
    pub message: Seq<char>,
    pub timestamp: u64,
}

/// Result of one response action.
#[derive(Debug, PartialEq)]
pub struct ResponseResult {
    pub action: ResponseAction,
    pub success: bool,
    pub message: String,
    pub timestamp: u64,
}

impl DeepView for ResponseResult {
    type V = ResponseResultV;

    open spec fn deep_view(&self) -> ResponseResultV {
        ResponseResultV {
            action: self.action,
            success: self.success,
            message: self.message.deep_view(),
            timestamp: self.timestamp,
        }
    }
}

impl Clone for ResponseResult {
    fn clone(&self) -> (r: Self)
        ensures
            r.deep_view() == self.deep_view(),
    {
        let r = ResponseResult {
            action: self.action,
            success: self.success,
            message: self.message.clone(),
            timestamp: self.timestamp,
        };
        proof {
            assert(r.deep_view() =~~= self.deep_view());
        }
        r
    }
}

} // verus!
