//! Behavioural rule engine: a fixed list of named predicates over single
//! events.  `check_event` returns the ids of the enabled rules whose
//! predicate holds, in rule order.

use vstd::prelude::*;

use crate::text::{
    basename_of, basename_str, contains_sub, join_spaces, join_spaces_seq, lower_of, lowercase,
    seq_contains, seq_starts_with, starts_with_sub, str_eq,
};
use crate::types::{EventDetails, EventDetailsV, ProcessEventV, Severity, SystemEvent, SystemEventV};

verus! {

/// Model of a [`BehavioralRule`].
#[verifier::ext_equal]
pub ghost struct BehavioralRuleV {
    pub id: Seq<char>,
    pub name: Seq<char>,
    pub description: Seq<char>,
    pub severity: Severity,
    pub enabled: bool,
    pub conditions: Seq<RuleConditionV>,
}

/// A declarative behavioural rule; the predicate itself is keyed by `id`.
#[derive(Debug, Clone, PartialEq)]
pub struct BehavioralRule {
    pub id: String,
    pub name: String,
    pub description: String,
    pub severity: Severity,
    pub enabled: bool,
    pub conditions: Vec<RuleCondition>,
}

impl DeepView for BehavioralRule {
    type V = BehavioralRuleV;

    open spec fn deep_view(&self) -> BehavioralRuleV {
        BehavioralRuleV {
            id: self.id.deep_view(),
            name: self.name.deep_view(),
            description: self.description.deep_view(),
            severity: self.severity,
            enabled: self.enabled,
            conditions: self.conditions.deep_view(),
        }
    }
}

/// Model of a [`RuleCondition`].
#[verifier::ext_equal]
pub ghost struct RuleConditionV {
    pub field: Seq<char>,
    pub operator: Seq<char>,
    pub value: Seq<char>,
}

/// A declarative field/operator/value triple kept with a rule.
#[derive(Debug, Clone, PartialEq)]
pub struct RuleCondition {
    pub field: String,
    pub operator: String,
    pub value: String,
}

impl DeepView for RuleCondition {
    type V = RuleConditionV;

    open spec fn deep_view(&self) -> RuleConditionV {
        RuleConditionV {
            field: self.field.deep_view(),
            operator: self.operator.deep_view(),
            value: self.value.deep_view(),
        }
    }
}

/// A process started from `/tmp`, `/dev/shm`, or under `/var/tmp`.
pub open spec fn suspicious_process_location_fires(e: SystemEventV) -> bool {
    match e.details {
        EventDetailsV::Process(p) => seq_contains(p.path, "/tmp/"@) || seq_contains(
            p.path,
            "/dev/shm/"@,
        ) || seq_starts_with(p.path, "/var/tmp/"@),
        _ => false,
    }
}

/// The lower-cased process name holds one of the shell or scripting names.
pub open spec fn root_spawn_name_suspicious(p: ProcessEventV) -> bool {
    let lname = lower_of(p.name);
    seq_contains(lname, "nc"@) || seq_contains(lname, "ncat"@) || seq_contains(lname, "bash"@)
        || seq_contains(lname, "sh"@) || seq_contains(lname, "python"@) || seq_contains(
        lname,
        "perl"@,
    ) || seq_contains(lname, "ruby"@)
}

/// The joined command line names a scratch directory.
pub open spec fn root_spawn_location_suspicious(p: ProcessEventV) -> bool {
    let cmdline = join_spaces_seq(p.cmdline);
    seq_contains(cmdline, "/tmp/"@) || seq_contains(cmdline, "/dev/shm/"@) || seq_contains(
        cmdline,
        "/var/tmp/"@,
    )
}

/// A suspicious process running as root whose parent is not init.
pub open spec fn root_process_spawn_fires(e: SystemEventV) -> bool {
    match e.details {
        EventDetailsV::Process(p) => p.uid == 0 && (root_spawn_name_suspicious(p)
            || root_spawn_location_suspicious(p)) && p.ppid != Some(1u32),
        _ => false,
    }
}

/// A command line that downloads, pipes into a shell, or opens a raw socket.
pub open spec fn suspicious_cmdline_fires(e: SystemEventV) -> bool {
    match e.details {
        EventDetailsV::Process(p) => {
            let cmdline = join_spaces_seq(p.cmdline);
            (seq_contains(cmdline, "wget"@) && seq_contains(cmdline, "http"@)) || (seq_contains(
                cmdline,
                "curl"@,
            ) && seq_contains(cmdline, "bash"@)) || seq_contains(cmdline, "nc -"@) || seq_contains(
                cmdline,
                "/dev/tcp/"@,
            )
        },
        _ => false,
    }
}

/// A write that touches a critical system file.
pub open spec fn critical_file_modification_fires(e: SystemEventV) -> bool {
    match e.details {
        EventDetailsV::File(f) => seq_contains(f.path, "/etc/passwd"@) || seq_contains(
            f.path,
            "/etc/shadow"@,
        ) || seq_contains(f.path, "/etc/sudoers"@) || seq_contains(f.path, ".ssh/authorized_keys"@),
        _ => false,
    }
}

/// Execution of a dot-file.
pub open spec fn hidden_file_execution_fires(e: SystemEventV) -> bool {
    match e.details {
        EventDetailsV::File(f) => {
            let base = basename_of(f.path);
            base.len() > 0 && base.first() == '.' && f.operation == "execute"@
        },
        _ => false,
    }
}

/// A connection to a port commonly used by attack tooling.
pub open spec fn uncommon_port_connection_fires(e: SystemEventV) -> bool {
    match e.details {
        EventDetailsV::Network(n) => n.dst_port == 4444 || n.dst_port == 31337 || n.dst_port
            == 1337 || n.dst_port == 8888 || n.dst_port == 9999,
        _ => false,
    }
}

/// More than 100 MB sent out.
pub open spec fn high_volume_transfer_fires(e: SystemEventV) -> bool {
    match e.details {
        EventDetailsV::Network(n) => n.bytes_sent > 100_000_000,
        _ => false,
    }
}

/// A sudo or su action.
pub open spec fn privilege_escalation_fires(e: SystemEventV) -> bool {
    match e.details {
        EventDetailsV::User(u) => seq_contains(u.action, "sudo"@) || seq_contains(u.action, "su"@),
        _ => false,
    }
}

/// A root login from a remote address.
pub open spec fn remote_root_login_fires(e: SystemEventV) -> bool {
    match e.details {
        EventDetailsV::User(u) => u.uid == 0 && u.remote_ip is Some && u.action == "login"@,
        _ => false,
    }
}

/// A memory injection, or a mapping that is readable, writable and
/// executable at once.
pub open spec fn memory_injection_fires(e: SystemEventV) -> bool {
    match e.details {
        EventDetailsV::Memory(m) => seq_contains(m.operation, "inject"@) || seq_contains(
            m.permissions,
            "rwx"@,
        ),
        _ => false,
    }
}

/// The predicate keyed by a rule id; an unknown id never fires.
pub open spec fn rule_fires(id: Seq<char>, e: SystemEventV) -> bool {
    if id == "suspicious_process_location"@ {
        suspicious_process_location_fires(e)
    } else if id == "root_process_spawn"@ {
        root_process_spawn_fires(e)
    } else if id == "suspicious_cmdline"@ {
        suspicious_cmdline_fires(e)
    } else if id == "critical_file_modification"@ {
        critical_file_modification_fires(e)
    } else if id == "hidden_file_execution"@ {
        hidden_file_execution_fires(e)
    } else if id == "uncommon_port_connection"@ {
        uncommon_port_connection_fires(e)
    } else if id == "high_volume_transfer"@ {
        high_volume_transfer_fires(e)
    } else if id == "privilege_escalation"@ {
        privilege_escalation_fires(e)
    } else if id == "remote_root_login"@ {
        remote_root_login_fires(e)
    } else if id == "memory_injection"@ {
        memory_injection_fires(e)
    } else {
        false
    }
}

/// Ids of the enabled rules whose predicate holds, in rule order.
pub open spec fn rule_matches_spec(rules: Seq<BehavioralRuleV>, e: SystemEventV) -> Seq<Seq<char>>
    decreases rules.len(),
{
    if rules.len() == 0 {
        Seq::empty()
    } else {
        rule_matches_spec(rules.drop_last(), e) + if rules.last().enabled && rule_fires(
            rules.last().id,
            e,
        ) {
            seq![rules.last().id]
        } else {
            Seq::empty()
        }
    }
}

/// The first rule carrying this id, as `get_rule` finds it.
pub open spec fn rule_lookup(rules: Seq<BehavioralRuleV>, id: Seq<char>) -> Option<BehavioralRuleV>
    decreases rules.len(),
{
    if rules.len() == 0 {
        None
    } else if rules.first().id == id {
        Some(rules.first())
    } else {
        rule_lookup(rules.skip(1), id)
    }
}

/// Engine holding the rule list.
pub struct RuleEngine {
    rules: Vec<BehavioralRule>,
}

impl RuleEngine {
    /// The rules, in evaluation order.
    pub closed spec fn rules_view(self) -> Seq<BehavioralRuleV> {
        self.rules.deep_view()
    }

    /// An engine with no rules.
    pub fn new() -> (r: Self)
        ensures
            r.rules_view() =~= Seq::<BehavioralRuleV>::empty(),
    {
        RuleEngine { rules: Vec::new() }
    }

    /// Load the built-in rules.
    pub fn load_rules(&mut self)
        ensures
            final(self).rules_view() == old(self).rules_view() + default_rules(),
    {
        self.add_default_rules();
    }

    /// Append the built-in rules, in their fixed order.
    pub fn add_default_rules(&mut self)
        ensures
            final(self).rules_view() == old(self).rules_view() + default_rules(),
    {
        self.push_rule(
            "suspicious_process_location",
            "Process Started from Suspicious Location",
            "Detects processes starting from /tmp or /dev/shm",
            Severity::High,
        );
        self.push_rule(
            "critical_file_modification",
            "Critical System File Modified",
            "Detects modifications to /etc/passwd, /etc/shadow, or SSH keys",
            Severity::Critical,
        );
        self.push_rule(
            "uncommon_port_connection",
            "Connection to Uncommon Port",
            "Detects connections to commonly used hacker ports",
            Severity::Medium,
        );
        self.push_rule(
            "privilege_escalation",
            "Privilege Escalation Attempt",
            "Detects sudo or su usage",
            Severity::High,
        );
        self.push_rule(
            "remote_root_login",
            "Remote Root Login",
            "Detects root login from remote IP",
            Severity::Critical,
        );
        self.push_rule(
            "suspicious_cmdline",
            "Suspicious Command Line",
            "Detects suspicious command patterns (reverse shells, downloads)",
            Severity::High,
        );
        self.push_rule(
            "memory_injection",
            "Memory Injection Detected",
            "Detects memory injection or RWX permissions",
            Severity::Critical,
        );
        self.push_rule(
            "hidden_file_execution",
            "Hidden File Execution",
            "Detects execution of hidden files (starting with .)",
            Severity::Medium,
        );
        self.push_rule(
            "high_volume_transfer",
            "High Volume Data Transfer",
            "Detects large data transfers (potential exfiltration)",
            Severity::High,
        );
        self.push_rule(
            "root_process_spawn",
            "Suspicious Root Process",
            "Detects suspicious processes running as root (shells, scripts from /tmp)",
            Severity::High,
        );
        proof {
            assert(self.rules_view() =~~= old(self).rules_view() + default_rules());
        }
    }

    /// Append one enabled rule without conditions.
    fn push_rule(&mut self, id: &str, name: &str, description: &str, severity: Severity)
        ensures
            final(self).rules_view() =~= old(self).rules_view().push(
                BehavioralRuleV {
                    id: id@,
                    name: name@,
                    description: description@,
                    severity: severity,
                    enabled: true,
                    conditions: Seq::empty(),
                },
            ),
    {
        let rule = BehavioralRule {
            id: String::from_str(id),
            name: String::from_str(name),
            description: String::from_str(description),
            severity,
            enabled: true,
            conditions: Vec::new(),
        };
        proof {
            assert(rule.deep_view() =~~= (BehavioralRuleV {
                id: id@,
                name: name@,
                description: description@,
                severity: severity,
                enabled: true,
                conditions: Seq::empty(),
            }));
        }
        self.rules.push(rule);
    }

    /// Collect the ids of the enabled rules the event matches, in rule
    /// order.
    pub fn check_event(&self, event: &SystemEvent) -> (r: Vec<String>)
        ensures
            r.deep_view() == rule_matches_spec(self.rules_view(), event.deep_view()),
    {
        let mut out: Vec<String> = Vec::new();
        let n = self.rules.len();
        let mut i: usize = 0;
        while i < n
            invariant
                n == self.rules@.len(),
                i <= n,
                out.deep_view() =~= rule_matches_spec(
                    self.rules_view().take(i as int),
                    event.deep_view(),
                ),
            decreases n - i,
        {
            let rule = &self.rules[i];
            proof {
                assert(self.rules_view()[i as int] == self.rules@[i as int].deep_view());
                assert(self.rules_view().take(i + 1).drop_last() =~= self.rules_view().take(
                    i as int,
                ));
                assert(self.rules_view().take(i + 1).last() == self.rules_view()[i as int]);
            }
            let ghost dvb = out.deep_view();
            if rule.enabled && evaluate_rule(rule, event) {
                out.push(rule.id.clone());
                proof {
                    assert(out.deep_view() =~= dvb.push(self.rules_view()[i as int].id));
                }
            }
            proof {
                assert(out.deep_view() =~= rule_matches_spec(
                    self.rules_view().take(i + 1),
                    event.deep_view(),
                ));
            }
            i += 1;
        }
        proof {
            assert(self.rules_view().take(n as int) =~= self.rules_view());
        }
        out
    }

    /// Look a rule up by id; the first rule carrying the id wins.
    pub fn get_rule(&self, id: &str) -> (r: Option<&BehavioralRule>)
        ensures
            match r {
                Some(rule) => rule_lookup(self.rules_view(), id@) == Some(rule.deep_view()),
                None => rule_lookup(self.rules_view(), id@) is None,
            },
    {
        let n = self.rules.len();
        proof {
            assert(self.rules_view().skip(0) =~= self.rules_view());
        }
        let mut i: usize = 0;
        while i < n
            invariant
                n == self.rules@.len(),
                i <= n,
                rule_lookup(self.rules_view(), id@) == rule_lookup(
                    self.rules_view().skip(i as int),
                    id@,
                ),
            decreases n - i,
        {
            proof {
                assert(self.rules_view()[i as int] == self.rules@[i as int].deep_view());
                assert(self.rules_view().skip(i as int).first() == self.rules_view()[i as int]);
            }
            if str_eq(self.rules[i].id.as_str(), id) {
                return Some(&self.rules[i]);
            }
            proof {
                assert(self.rules_view().skip(i as int).skip(1) =~= self.rules_view().skip(i + 1));
            }
            i += 1;
        }
        proof {
            assert(self.rules_view().skip(n as int) =~= Seq::<BehavioralRuleV>::empty());
        }
        None
    }
}

/// The ten rule ids are pairwise distinct sequences of characters.
proof fn lemma_rule_ids_distinct()
    ensures
        "suspicious_process_location"@.len() == 27,
        "root_process_spawn"@.len() == 18,
        "suspicious_cmdline"@.len() == 18,
        "critical_file_modification"@.len() == 26,
        "hidden_file_execution"@.len() == 21,
        "uncommon_port_connection"@.len() == 24,
        "high_volume_transfer"@.len() == 20,
        "privilege_escalation"@.len() == 20,
        "remote_root_login"@.len() == 17,
        "memory_injection"@.len() == 16,
        "root_process_spawn"@ != "suspicious_cmdline"@,
        "high_volume_transfer"@ != "privilege_escalation"@,
{
    reveal_strlit("suspicious_process_location");
    reveal_strlit("root_process_spawn");
    reveal_strlit("suspicious_cmdline");
    reveal_strlit("critical_file_modification");
    reveal_strlit("hidden_file_execution");
    reveal_strlit("uncommon_port_connection");
    reveal_strlit("high_volume_transfer");
    reveal_strlit("privilege_escalation");
    reveal_strlit("remote_root_login");
    reveal_strlit("memory_injection");
    assert("root_process_spawn"@[0] == 'r');
    assert("suspicious_cmdline"@[0] == 's');
    assert("high_volume_transfer"@[0] == 'h');
    assert("privilege_escalation"@[0] == 'p');
}

/// Evaluate one rule's predicate on one event.
#[verifier::rlimit(60)]
fn evaluate_rule(rule: &BehavioralRule, event: &SystemEvent) -> (r: bool)
    ensures
        r == rule_fires(rule.deep_view().id, event.deep_view()),
{
    proof {
        lemma_rule_ids_distinct();
    }
    match &event.details {
        EventDetails::Process(p) => {
            if str_eq(rule.id.as_str(), "suspicious_process_location") {
                contains_sub(p.path.as_str(), "/tmp/") || contains_sub(p.path.as_str(), "/dev/shm/")
                    || starts_with_sub(p.path.as_str(), "/var/tmp/")
            } else if str_eq(rule.id.as_str(), "root_process_spawn") {
                if p.uid == 0 {
                    let lname = lowercase(p.name.as_str());
                    let name_suspicious = contains_sub(lname.as_str(), "nc") || contains_sub(
                        lname.as_str(),
                        "ncat",
                    ) || contains_sub(lname.as_str(), "bash") || contains_sub(lname.as_str(), "sh")
                        || contains_sub(lname.as_str(), "python") || contains_sub(
                        lname.as_str(),
                        "perl",
                    ) || contains_sub(lname.as_str(), "ruby");
                    let cmdline = join_spaces(&p.cmdline);
                    let location_suspicious = contains_sub(cmdline.as_str(), "/tmp/")
                        || contains_sub(cmdline.as_str(), "/dev/shm/") || contains_sub(
                        cmdline.as_str(),
                        "/var/tmp/",
                    );
                    let parent_not_init = match p.ppid {
                        Some(pp) => pp != 1,
                        None => true,
                    };
                    (name_suspicious || location_suspicious) && parent_not_init
                } else {
                    false
                }
            } else if str_eq(rule.id.as_str(), "suspicious_cmdline") {
                let cmdline = join_spaces(&p.cmdline);
                (contains_sub(cmdline.as_str(), "wget") && contains_sub(cmdline.as_str(), "http"))
                    || (contains_sub(cmdline.as_str(), "curl") && contains_sub(
                    cmdline.as_str(),
                    "bash",
                )) || contains_sub(cmdline.as_str(), "nc -") || contains_sub(
                    cmdline.as_str(),
                    "/dev/tcp/",
                )
            } else {
                false
            }
        },
        EventDetails::File(f) => {
            if str_eq(rule.id.as_str(), "critical_file_modification") {
                contains_sub(f.path.as_str(), "/etc/passwd") || contains_sub(
                    f.path.as_str(),
                    "/etc/shadow",
                ) || contains_sub(f.path.as_str(), "/etc/sudoers") || contains_sub(
                    f.path.as_str(),
                    ".ssh/authorized_keys",
                )
            } else if str_eq(rule.id.as_str(), "hidden_file_execution") {
                let base = basename_str(f.path.as_str());
                let hidden = if base.as_str().unicode_len() > 0 {
                    let c = base.as_str().get_char(0);
                    c == '.'
                } else {
                    false
                };
                hidden && str_eq(f.operation.as_str(), "execute")
            } else {
                false
            }
        },
        EventDetails::Network(n) => {
            if str_eq(rule.id.as_str(), "uncommon_port_connection") {
                n.dst_port == 4444 || n.dst_port == 31337 || n.dst_port == 1337 || n.dst_port
                    == 8888 || n.dst_port == 9999
            } else if str_eq(rule.id.as_str(), "high_volume_transfer") {
                n.bytes_sent > 100_000_000
            } else {
                false
            }
        },
        EventDetails::User(u) => {
            if str_eq(rule.id.as_str(), "privilege_escalation") {
                contains_sub(u.action.as_str(), "sudo") || contains_sub(u.action.as_str(), "su")
            } else if str_eq(rule.id.as_str(), "remote_root_login") {
                u.uid == 0 && u.remote_ip.is_some() && str_eq(u.action.as_str(), "login")
            } else {
                false
            }
        },
        EventDetails::Memory(m) => {
            if str_eq(rule.id.as_str(), "memory_injection") {
                contains_sub(m.operation.as_str(), "inject") || contains_sub(
                    m.permissions.as_str(),
                    "rwx",
                )
            } else {
                false
            }
        },
        EventDetails::Rootkit(_) => false,
    }
}

/// The built-in rule list, in evaluation order.
pub open spec fn default_rules() -> Seq<BehavioralRuleV> {
    seq![
        BehavioralRuleV {
            id: "suspicious_process_location"@,
            name: "Process Started from Suspicious Location"@,
            description: "Detects processes starting from /tmp or /dev/shm"@,
            severity: Severity::High,
            enabled: true,
            conditions: Seq::empty(),
        },
        BehavioralRuleV {
            id: "critical_file_modification"@,
            name: "Critical System File Modified"@,
            description: "Detects modifications to /etc/passwd, /etc/shadow, or SSH keys"@,
            severity: Severity::Critical,
            enabled: true,
            conditions: Seq::empty(),
        },
        BehavioralRuleV {
            id: "uncommon_port_connection"@,
            name: "Connection to Uncommon Port"@,
            description: "Detects connections to commonly used hacker ports"@,
            severity: Severity::Medium,
            enabled: true,
            conditions: Seq::empty(),
        },
        BehavioralRuleV {
            id: "privilege_escalation"@,
            name: "Privilege Escalation Attempt"@,
            description: "Detects sudo or su usage"@,
            severity: Severity::High,
            enabled: true,
            conditions: Seq::empty(),
        },
        BehavioralRuleV {
            id: "remote_root_login"@,
            name: "Remote Root Login"@,
            description: "Detects root login from remote IP"@,
            severity: Severity::Critical,
            enabled: true,
            conditions: Seq::empty(),
        },
        BehavioralRuleV {
            id: "suspicious_cmdline"@,
            name: "Suspicious Command Line"@,
            description: "Detects suspicious command patterns (reverse shells, downloads)"@,
            severity: Severity::High,
            enabled: true,
            conditions: Seq::empty(),
        },
        BehavioralRuleV {
            id: "memory_injection"@,
            name: "Memory Injection Detected"@,
            description: "Detects memory injection or RWX permissions"@,
            severity: Severity::Critical,
            enabled: true,
            conditions: Seq::empty(),
        },
        BehavioralRuleV {
            id: "hidden_file_execution"@,
            name: "Hidden File Execution"@,
            description: "Detects execution of hidden files (starting with .)"@,
            severity: Severity::Medium,
            enabled: true,
            conditions: Seq::empty(),
        },
        BehavioralRuleV {
            id: "high_volume_transfer"@,
            name: "High Volume Data Transfer"@,
            description: "Detects large data transfers (potential exfiltration)"@,
            severity: Severity::High,
            enabled: true,
            conditions: Seq::empty(),
        },
        BehavioralRuleV {
            id: "root_process_spawn"@,
            name: "Suspicious Root Process"@,
            description: "Detects suspicious processes running as root (shells, scripts from /tmp)"@,
            severity: Severity::High,
            enabled: true,
            conditions: Seq::empty(),
        },
    ]
}

/// A rule whose predicate an event does not satisfy never appears in the
/// check result, whatever the rule list.
pub proof fn lemma_unmatched_rule_absent(
    rules: Seq<BehavioralRuleV>,
    e: SystemEventV,
    id: Seq<char>,
)
    requires
        !rule_fires(id, e),
    ensures
        !rule_matches_spec(rules, e).contains(id),
    decreases rules.len(),
{
    if rules.len() == 0 {
    } else {
        lemma_unmatched_rule_absent(rules.drop_last(), e, id);
        let prefix = rule_matches_spec(rules.drop_last(), e);
        let whole = rule_matches_spec(rules, e);
        if rules.last().enabled && rule_fires(rules.last().id, e) {
            assert(rules.last().id != id);
            assert forall|k: int| 0 <= k < whole.len() implies whole[k] != id by {
                if k < prefix.len() {
                    assert(whole[k] == prefix[k]);
                    assert(!prefix.contains(id));
                } else {
                    assert(whole[k] == rules.last().id);
                }
            }
        } else {
            assert(whole =~= prefix);
        }
    }
}

/// A root process whose parent is init (pid 1) never fires the
/// `root_process_spawn` rule, whatever its name or command line.
pub proof fn lemma_root_spawn_parent_init(
    rules: Seq<BehavioralRuleV>,
    e: SystemEventV,
    p: ProcessEventV,
)
    requires
        e.details == EventDetailsV::Process(p),
        p.ppid == Some(1u32),
    ensures
        !root_process_spawn_fires(e),
        !rule_matches_spec(rules, e).contains("root_process_spawn"@),
{
    assert(!rule_fires("root_process_spawn"@, e)) by {
        reveal_strlit("suspicious_process_location");
        reveal_strlit("root_process_spawn");
        assert("suspicious_process_location"@.len() != "root_process_spawn"@.len());
        assert(rule_fires("root_process_spawn"@, e) == root_process_spawn_fires(e));
        assert(!root_process_spawn_fires(e));
    }
    lemma_unmatched_rule_absent(rules, e, "root_process_spawn"@);
}

/// A process that does not run as root never fires the
/// `root_process_spawn` rule, even when its name holds a shell name such
/// as `bash`.
pub proof fn lemma_root_spawn_needs_root(
    rules: Seq<BehavioralRuleV>,
    e: SystemEventV,
    p: ProcessEventV,
)
    requires
        e.details == EventDetailsV::Process(p),
        seq_contains(lower_of(p.name), "bash"@),
        p.uid != 0,
    ensures
        !root_process_spawn_fires(e),
        !rule_matches_spec(rules, e).contains("root_process_spawn"@),
{
    assert(!rule_fires("root_process_spawn"@, e)) by {
        reveal_strlit("suspicious_process_location");
        reveal_strlit("root_process_spawn");
        assert("suspicious_process_location"@.len() != "root_process_spawn"@.len());
        assert(rule_fires("root_process_spawn"@, e) == root_process_spawn_fires(e));
        assert(!root_process_spawn_fires(e));
    }
    lemma_unmatched_rule_absent(rules, e, "root_process_spawn"@);
}

} // verus!
