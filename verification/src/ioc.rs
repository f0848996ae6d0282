//! Indicator-of-compromise matcher: a registry of indicators keyed by id,
//! partitioned by type, matched against event attributes by substring (names
//! and paths) or by exact equality (addresses).

use vstd::prelude::*;

use crate::text::{contains_sub, seq_contains, str_eq};
use crate::types::{EventDetails, EventDetailsV, IOCType, Severity, SystemEvent, SystemEventV, IOC, IOCV};

verus! {

/// There is an indicator with this id.
pub open spec fn has_ioc(iocs: Seq<IOCV>, id: Seq<char>) -> bool {
    exists|k: int| 0 <= k < iocs.len() && iocs[k].id == id
}

/// The indicator with this id; meaningful when ids are unique and the id is
/// present.
pub open spec fn ioc_with_id(iocs: Seq<IOCV>, id: Seq<char>) -> IOCV {
    iocs[choose|k: int| 0 <= k < iocs.len() && iocs[k].id == id]
}

/// A registry update: replace the indicator that carries this id, or append
/// the indicator when its id is new.
pub open spec fn upsert(iocs: Seq<IOCV>, ioc: IOCV) -> Seq<IOCV> {
    if has_ioc(iocs, ioc.id) {
        iocs.update(choose|k: int| 0 <= k < iocs.len() && iocs[k].id == ioc.id, ioc)
    } else {
        iocs.push(ioc)
    }
}

/// A process indicator hits when its value occurs in the process name or in
/// the executable path.
pub open spec fn proc_ioc_hit(ioc: IOCV, name: Seq<char>, path: Seq<char>) -> bool {
    seq_contains(name, ioc.value) || seq_contains(path, ioc.value)
}

/// Ids of the process indicators that hit a name and path, in registry order.
pub open spec fn proc_hits(list: Seq<IOCV>, name: Seq<char>, path: Seq<char>) -> Seq<Seq<char>>
    decreases list.len(),
{
    if list.len() == 0 {
        Seq::empty()
    } else {
        proc_hits(list.drop_last(), name, path) + if proc_ioc_hit(list.last(), name, path) {
            seq![list.last().id]
        } else {
            Seq::empty()
        }
    }
}

/// Ids of the path indicators whose value occurs in the path, in registry
/// order.
pub open spec fn path_hits(list: Seq<IOCV>, path: Seq<char>) -> Seq<Seq<char>>
    decreases list.len(),
{
    if list.len() == 0 {
        Seq::empty()
    } else {
        path_hits(list.drop_last(), path) + if seq_contains(path, list.last().value) {
            seq![list.last().id]
        } else {
            Seq::empty()
        }
    }
}

/// An address indicator hits when its value equals the source or the
/// destination address exactly.
pub open spec fn ip_ioc_hit(ioc: IOCV, src: Seq<char>, dst: Seq<char>) -> bool {
    dst == ioc.value || src == ioc.value
}

/// Ids of the address indicators that hit, in registry order.
pub open spec fn ip_hits(list: Seq<IOCV>, src: Seq<char>, dst: Seq<char>) -> Seq<Seq<char>>
    decreases list.len(),
{
    if list.len() == 0 {
        Seq::empty()
    } else {
        ip_hits(list.drop_last(), src, dst) + if ip_ioc_hit(list.last(), src, dst) {
            seq![list.last().id]
        } else {
            Seq::empty()
        }
    }
}

/// Matcher over a registry of indicators, with type-partitioned lists for
/// matching.
pub struct IOCMatcher {
    iocs: Vec<IOC>,
    hash_iocs: Vec<IOC>,
    path_iocs: Vec<IOC>,
    ip_iocs: Vec<IOC>,
    domain_iocs: Vec<IOC>,
    process_iocs: Vec<IOC>,
}

/// The full list of indicator ids an event matches: for process events the
/// process and path indicators, for file events the path indicators, for
/// network events the address indicators; other payloads match nothing.
pub open spec fn ioc_matches_spec(m: IOCMatcher, e: SystemEventV) -> Seq<Seq<char>> {
    match e.details {
        EventDetailsV::Process(p) => proc_hits(m.process_list(), p.name, p.path) + path_hits(
            m.path_list(),
            p.path,
        ),
        EventDetailsV::File(f) => path_hits(m.path_list(), f.path),
        EventDetailsV::Network(n) => ip_hits(m.ip_list(), n.src_ip, n.dst_ip),
        _ => Seq::empty(),
    }
}

/// Apply a list of registry updates in order.
pub open spec fn upsert_all(iocs: Seq<IOCV>, items: Seq<IOCV>) -> Seq<IOCV>
    decreases items.len(),
{
    if items.len() == 0 {
        iocs
    } else {
        upsert_all(upsert(iocs, items.first()), items.skip(1))
    }
}

/// The built-in baseline, in its fixed order.
pub open spec fn default_iocs() -> Seq<IOCV> {
    seq![
        IOCV {
            id: "proc_mimikatz"@,
            ioc_type: IOCType::ProcessName,
            value: "mimikatz"@,
            description: "Credential dumping tool"@,
            severity: Severity::High,
            tags: seq!["process"@, "suspicious"@],
        },
        IOCV {
            id: "proc_nc.exe"@,
            ioc_type: IOCType::ProcessName,
            value: "nc.exe"@,
            description: "Netcat reverse shell"@,
            severity: Severity::High,
            tags: seq!["process"@, "suspicious"@],
        },
        IOCV {
            id: "proc_psexec"@,
            ioc_type: IOCType::ProcessName,
            value: "psexec"@,
            description: "Remote execution tool"@,
            severity: Severity::High,
            tags: seq!["process"@, "suspicious"@],
        },
        IOCV {
            id: "proc_whoami"@,
            ioc_type: IOCType::ProcessName,
            value: "whoami"@,
            description: "Reconnaissance command"@,
            severity: Severity::High,
            tags: seq!["process"@, "suspicious"@],
        },
        IOCV {
            id: "proc_curl"@,
            ioc_type: IOCType::ProcessName,
            value: "curl"@,
            description: "Potential data exfiltration"@,
            severity: Severity::High,
            tags: seq!["process"@, "suspicious"@],
        },
        IOCV {
            id: "path__tmp_"@,
            ioc_type: IOCType::FilePath,
            value: "/tmp/"@,
            description: "Temporary directory execution"@,
            severity: Severity::Medium,
            tags: seq!["file"@, "suspicious"@],
        },
        IOCV {
            id: "path__dev_shm_"@,
            ioc_type: IOCType::FilePath,
            value: "/dev/shm/"@,
            description: "Shared memory execution"@,
            severity: Severity::Medium,
            tags: seq!["file"@, "suspicious"@],
        },
        IOCV {
            id: "path_.ssh_authorized_keys"@,
            ioc_type: IOCType::FilePath,
            value: ".ssh/authorized_keys"@,
            description: "SSH key modification"@,
            severity: Severity::Medium,
            tags: seq!["file"@, "suspicious"@],
        },
        IOCV {
            id: "path__etc_passwd"@,
            ioc_type: IOCType::FilePath,
            value: "/etc/passwd"@,
            description: "Password file access"@,
            severity: Severity::Medium,
            tags: seq!["file"@, "suspicious"@],
        },
        IOCV {
            id: "path__etc_shadow"@,
            ioc_type: IOCType::FilePath,
            value: "/etc/shadow"@,
            description: "Shadow file access"@,
            severity: Severity::Medium,
            tags: seq!["file"@, "suspicious"@],
        },
        IOCV {
            id: "ip_0_0_0_0"@,
            ioc_type: IOCType::IpAddress,
            value: "0.0.0.0"@,
            description: "Null route"@,
            severity: Severity::Low,
            tags: seq!["network"@],
        },
        IOCV {
            id: "ip_127_0_0_1"@,
            ioc_type: IOCType::IpAddress,
            value: "127.0.0.1"@,
            description: "Localhost suspicious connection"@,
            severity: Severity::Low,
            tags: seq!["network"@],
        },
    ]
}

proof fn lemma_upsert_all_push(iocs: Seq<IOCV>, items: Seq<IOCV>, x: IOCV)
    ensures
        upsert_all(iocs, items.push(x)) == upsert(upsert_all(iocs, items), x),
    decreases items.len(),
{
    if items.len() == 0 {
        assert(items.push(x).skip(1) =~= Seq::<IOCV>::empty());
        assert(items.push(x).first() == x);
        assert(upsert_all(iocs, items.push(x)) == upsert_all(upsert(iocs, x), items.push(x).skip(1)));
    } else {
        assert(items.push(x).first() == items.first());
        assert(items.push(x).skip(1) =~= items.skip(1).push(x));
        lemma_upsert_all_push(upsert(iocs, items.first()), items.skip(1), x);
    }
}

/// One more update extends the fold by one step.
proof fn lemma_upsert_all_step(iocs: Seq<IOCV>, items: Seq<IOCV>, k: int)
    requires
        0 <= k < items.len(),
    ensures
        upsert_all(iocs, items.take(k + 1)) == upsert(upsert_all(iocs, items.take(k)), items[k]),
{
    assert(items.take(k + 1) =~= items.take(k).push(items[k]));
    lemma_upsert_all_push(iocs, items.take(k), items[k]);
}

/// Assemble one indicator.
fn make_ioc(
    id: &str,
    ioc_type: IOCType,
    value: &str,
    description: &str,
    severity: Severity,
    tags: Vec<String>,
) -> (r: IOC)
    ensures
        r.deep_view() == (IOCV {
            id: id@,
            ioc_type: ioc_type,
            value: value@,
            description: description@,
            severity: severity,
            tags: tags.deep_view(),
        }),
{
    let r = IOC {
        id: String::from_str(id),
        ioc_type,
        value: String::from_str(value),
        description: String::from_str(description),
        severity,
        tags,
    };
    proof {
        assert(r.deep_view() =~~= (IOCV {
            id: id@,
            ioc_type: ioc_type,
            value: value@,
            description: description@,
            severity: severity,
            tags: tags.deep_view(),
        }));
    }
    r
}

/// The process-indicator tags.
fn process_tags() -> (r: Vec<String>)
    ensures
        r.deep_view() =~= seq!["process"@, "suspicious"@],
{
    vec![String::from_str("process"), String::from_str("suspicious")]
}

/// The path-indicator tags.
fn file_tags() -> (r: Vec<String>)
    ensures
        r.deep_view() =~= seq!["file"@, "suspicious"@],
{
    vec![String::from_str("file"), String::from_str("suspicious")]
}

/// The address-indicator tags.
fn network_tags() -> (r: Vec<String>)
    ensures
        r.deep_view() =~= seq!["network"@],
{
    vec![String::from_str("network")]
}

/// Position of the indicator that carries this id, if any.
fn find_ioc_index(iocs: &Vec<IOC>, id: &str) -> (r: Option<usize>)
    ensures
        match r {
            Some(i) => i < iocs@.len() && iocs.deep_view()[i as int].id == id@,
            None => forall|k: int| 0 <= k < iocs@.len() ==> iocs.deep_view()[k].id != id@,
        },
{
    let n = iocs.len();
    let mut i: usize = 0;
    while i < n
        invariant
            n == iocs@.len(),
            i <= n,
            forall|k: int| 0 <= k < i ==> iocs.deep_view()[k].id != id@,
        decreases n - i,
    {
        proof {
            assert(iocs.deep_view()[i as int] == iocs@[i as int].deep_view());
        }
        if str_eq(iocs[i].id.as_str(), id) {
            return Some(i);
        }
        i += 1;
    }
    None
}

impl IOCMatcher {
    /// The id-keyed registry of all indicators.
    pub closed spec fn registry(self) -> Seq<IOCV> {
        self.iocs.deep_view()
    }

    /// The file-hash partition.
    pub closed spec fn hash_list(self) -> Seq<IOCV> {
        self.hash_iocs.deep_view()
    }

    /// The file-path partition.
    pub closed spec fn path_list(self) -> Seq<IOCV> {
        self.path_iocs.deep_view()
    }

    /// The address partition.
    pub closed spec fn ip_list(self) -> Seq<IOCV> {
        self.ip_iocs.deep_view()
    }

    /// The domain partition.
    pub closed spec fn domain_list(self) -> Seq<IOCV> {
        self.domain_iocs.deep_view()
    }

    /// The process-name partition.
    pub closed spec fn process_list(self) -> Seq<IOCV> {
        self.process_iocs.deep_view()
    }

    /// Well-formed: registry ids are pairwise distinct.
    pub open spec fn wf(self) -> bool {
        forall|i: int, j: int|
            0 <= i < j < self.registry().len() ==> self.registry()[i].id != self.registry()[j].id
    }

    /// An empty matcher.
    pub fn new() -> (r: Self)
        ensures
            r.wf(),
            r.registry() =~= Seq::<IOCV>::empty(),
            r.hash_list() =~= Seq::<IOCV>::empty(),
            r.path_list() =~= Seq::<IOCV>::empty(),
            r.ip_list() =~= Seq::<IOCV>::empty(),
            r.domain_list() =~= Seq::<IOCV>::empty(),
            r.process_list() =~= Seq::<IOCV>::empty(),
    {
        IOCMatcher {
            iocs: Vec::new(),
            hash_iocs: Vec::new(),
            path_iocs: Vec::new(),
            ip_iocs: Vec::new(),
            domain_iocs: Vec::new(),
            process_iocs: Vec::new(),
        }
    }

    /// Add an indicator: it is appended to its type's partition and upserted
    /// into the registry.
    pub fn add_ioc(&mut self, ioc: IOC)
        requires
            old(self).wf(),
        ensures
            final(self).wf(),
            final(self).registry() == upsert(old(self).registry(), ioc.deep_view()),
            final(self).hash_list() == if ioc.ioc_type == IOCType::FileHash {
                old(self).hash_list().push(ioc.deep_view())
            } else {
                old(self).hash_list()
            },
            final(self).path_list() == if ioc.ioc_type == IOCType::FilePath {
                old(self).path_list().push(ioc.deep_view())
            } else {
                old(self).path_list()
            },
            final(self).ip_list() == if ioc.ioc_type == IOCType::IpAddress {
                old(self).ip_list().push(ioc.deep_view())
            } else {
                old(self).ip_list()
            },
            final(self).domain_list() == if ioc.ioc_type == IOCType::Domain {
                old(self).domain_list().push(ioc.deep_view())
            } else {
                old(self).domain_list()
            },
            final(self).process_list() == if ioc.ioc_type == IOCType::ProcessName {
                old(self).process_list().push(ioc.deep_view())
            } else {
                old(self).process_list()
            },
    {
        match ioc.ioc_type {
            IOCType::FileHash => self.hash_iocs.push(ioc.clone()),
            IOCType::FilePath => self.path_iocs.push(ioc.clone()),
            IOCType::IpAddress => self.ip_iocs.push(ioc.clone()),
            IOCType::Domain => self.domain_iocs.push(ioc.clone()),
            IOCType::ProcessName => self.process_iocs.push(ioc.clone()),
            _ => {},
        }
        proof {
            assert(self.hash_iocs.deep_view() =~= if ioc.ioc_type == IOCType::FileHash {
                old(self).hash_list().push(ioc.deep_view())
            } else {
                old(self).hash_list()
            });
            assert(self.path_iocs.deep_view() =~= if ioc.ioc_type == IOCType::FilePath {
                old(self).path_list().push(ioc.deep_view())
            } else {
                old(self).path_list()
            });
            assert(self.ip_iocs.deep_view() =~= if ioc.ioc_type == IOCType::IpAddress {
                old(self).ip_list().push(ioc.deep_view())
            } else {
                old(self).ip_list()
            });
            assert(self.domain_iocs.deep_view() =~= if ioc.ioc_type == IOCType::Domain {
                old(self).domain_list().push(ioc.deep_view())
            } else {
                old(self).domain_list()
            });
            assert(self.process_iocs.deep_view() =~= if ioc.ioc_type == IOCType::ProcessName {
                old(self).process_list().push(ioc.deep_view())
            } else {
                old(self).process_list()
            });
        }
        let ghost reg0 = self.iocs.deep_view();
        let ghost iv = ioc.deep_view();
        let found = find_ioc_index(&self.iocs, ioc.id.as_str());
        match found {
            Some(i) => {
                proof {
                    assert(reg0[i as int].id == iv.id);
                    assert(has_ioc(reg0, iv.id));
                }
                self.iocs.set(i, ioc);
                proof {
                    let k = choose|k: int| 0 <= k < reg0.len() && reg0[k].id == iv.id;
                    assert(reg0[k].id == iv.id);
                    if k != i as int {
                        assert(false);  // two registry entries would share an id
                    }
                    assert(self.iocs.deep_view() =~= reg0.update(i as int, iv));
                    assert(self.registry() == upsert(reg0, iv));
                    assert(forall|a: int|
                        0 <= a < self.registry().len() ==> self.registry()[a].id == reg0[a].id);
                }
            },
            None => {
                proof {
                    assert(!has_ioc(reg0, iv.id));
                }
                self.iocs.push(ioc);
                proof {
                    assert(self.iocs.deep_view() =~= reg0.push(iv));
                    assert(self.registry() == upsert(reg0, iv));
                }
            },
        }
    }

    /// Load the built-in baseline of known-bad indicators.
    pub fn load_iocs(&mut self)
        requires
            old(self).wf(),
        ensures
            final(self).wf(),
            final(self).registry() == upsert_all(old(self).registry(), default_iocs()),
            final(self).registry().len() > 0,
            final(self).process_list() == old(self).process_list() + default_iocs().subrange(0, 5),
            final(self).path_list() == old(self).path_list() + default_iocs().subrange(5, 10),
            final(self).ip_list() == old(self).ip_list() + default_iocs().subrange(10, 12),
            final(self).hash_list() == old(self).hash_list(),
            final(self).domain_list() == old(self).domain_list(),
    {
        self.add_default_iocs();
    }

    /// Add the built-in baseline, in its fixed order: suspicious process
    /// names, suspicious file paths, and illustrative address markers.
    pub fn add_default_iocs(&mut self)
        requires
            old(self).wf(),
        ensures
            final(self).wf(),
            final(self).registry() == upsert_all(old(self).registry(), default_iocs()),
            final(self).registry().len() > 0,
            final(self).process_list() == old(self).process_list() + default_iocs().subrange(0, 5),
            final(self).path_list() == old(self).path_list() + default_iocs().subrange(5, 10),
            final(self).ip_list() == old(self).ip_list() + default_iocs().subrange(10, 12),
            final(self).hash_list() == old(self).hash_list(),
            final(self).domain_list() == old(self).domain_list(),
    {
        let ghost reg0 = self.registry();
        let ghost defaults = default_iocs();
        let ioc = make_ioc("proc_mimikatz", IOCType::ProcessName, "mimikatz", "Credential dumping tool", Severity::High, process_tags());
        proof {
            assert(ioc.deep_view() =~~= defaults[0]);
        }
        self.add_ioc(ioc);
        proof {
            lemma_upsert_all_step(reg0, defaults, 0);
            assert(self.registry() == upsert_all(reg0, defaults.take(1)));
        }
        let ioc = make_ioc("proc_nc.exe", IOCType::ProcessName, "nc.exe", "Netcat reverse shell", Severity::High, process_tags());
        proof {
            assert(ioc.deep_view() =~~= defaults[1]);
        }
        self.add_ioc(ioc);
        proof {
            lemma_upsert_all_step(reg0, defaults, 1);
            assert(self.registry() == upsert_all(reg0, defaults.take(2)));
        }
        let ioc = make_ioc("proc_psexec", IOCType::ProcessName, "psexec", "Remote execution tool", Severity::High, process_tags());
        proof {
            assert(ioc.deep_view() =~~= defaults[2]);
        }
        self.add_ioc(ioc);
        proof {
            lemma_upsert_all_step(reg0, defaults, 2);
            assert(self.registry() == upsert_all(reg0, defaults.take(3)));
        }
        let ioc = make_ioc("proc_whoami", IOCType::ProcessName, "whoami", "Reconnaissance command", Severity::High, process_tags());
        proof {
            assert(ioc.deep_view() =~~= defaults[3]);
        }
        self.add_ioc(ioc);
        proof {
            lemma_upsert_all_step(reg0, defaults, 3);
            assert(self.registry() == upsert_all(reg0, defaults.take(4)));
        }
        let ioc = make_ioc("proc_curl", IOCType::ProcessName, "curl", "Potential data exfiltration", Severity::High, process_tags());
        proof {
            assert(ioc.deep_view() =~~= defaults[4]);
        }
        self.add_ioc(ioc);
        proof {
            lemma_upsert_all_step(reg0, defaults, 4);
            assert(self.registry() == upsert_all(reg0, defaults.take(5)));
        }
        let ioc = make_ioc("path__tmp_", IOCType::FilePath, "/tmp/", "Temporary directory execution", Severity::Medium, file_tags());
        proof {
            assert(ioc.deep_view() =~~= defaults[5]);
        }
        self.add_ioc(ioc);
        proof {
            lemma_upsert_all_step(reg0, defaults, 5);
            assert(self.registry() == upsert_all(reg0, defaults.take(6)));
        }
        let ioc = make_ioc("path__dev_shm_", IOCType::FilePath, "/dev/shm/", "Shared memory execution", Severity::Medium, file_tags());
        proof {
            assert(ioc.deep_view() =~~= defaults[6]);
        }
        self.add_ioc(ioc);
        proof {
            lemma_upsert_all_step(reg0, defaults, 6);
            assert(self.registry() == upsert_all(reg0, defaults.take(7)));
        }
        let ioc = make_ioc("path_.ssh_authorized_keys", IOCType::FilePath, ".ssh/authorized_keys", "SSH key modification", Severity::Medium, file_tags());
        proof {
            assert(ioc.deep_view() =~~= defaults[7]);
        }
        self.add_ioc(ioc);
        proof {
            lemma_upsert_all_step(reg0, defaults, 7);
            assert(self.registry() == upsert_all(reg0, defaults.take(8)));
        }
        let ioc = make_ioc("path__etc_passwd", IOCType::FilePath, "/etc/passwd", "Password file access", Severity::Medium, file_tags());
        proof {
            assert(ioc.deep_view() =~~= defaults[8]);
        }
        self.add_ioc(ioc);
        proof {
            lemma_upsert_all_step(reg0, defaults, 8);
            assert(self.registry() == upsert_all(reg0, defaults.take(9)));
        }
        let ioc = make_ioc("path__etc_shadow", IOCType::FilePath, "/etc/shadow", "Shadow file access", Severity::Medium, file_tags());
        proof {
            assert(ioc.deep_view() =~~= defaults[9]);
        }
        self.add_ioc(ioc);
        proof {
            lemma_upsert_all_step(reg0, defaults, 9);
            assert(self.registry() == upsert_all(reg0, defaults.take(10)));
        }
        let ioc = make_ioc("ip_0_0_0_0", IOCType::IpAddress, "0.0.0.0", "Null route", Severity::Low, network_tags());
        proof {
            assert(ioc.deep_view() =~~= defaults[10]);
        }
        self.add_ioc(ioc);
        proof {
            lemma_upsert_all_step(reg0, defaults, 10);
            assert(self.registry() == upsert_all(reg0, defaults.take(11)));
        }
        let ioc = make_ioc("ip_127_0_0_1", IOCType::IpAddress, "127.0.0.1", "Localhost suspicious connection", Severity::Low, network_tags());
        proof {
            assert(ioc.deep_view() =~~= defaults[11]);
        }
        self.add_ioc(ioc);
        proof {
            lemma_upsert_all_step(reg0, defaults, 11);
            assert(self.registry() == upsert_all(reg0, defaults.take(12)));
        }
        proof {
            assert(defaults.take(12) =~= defaults);
            assert(self.process_list() =~= old(self).process_list() + defaults.subrange(0, 5));
            assert(self.path_list() =~= old(self).path_list() + defaults.subrange(5, 10));
            assert(self.ip_list() =~= old(self).ip_list() + defaults.subrange(10, 12));
        }
    }

    /// Number of indicators in the registry.
    pub fn ioc_count(&self) -> (r: usize)
        ensures
            r == self.registry().len(),
    {
        self.iocs.len()
    }

    /// Look an indicator up by id.
    pub fn get_ioc(&self, id: &str) -> (r: Option<&IOC>)
        requires
            self.wf(),
        ensures
            match r {
                Some(ioc) => has_ioc(self.registry(), id@) && ioc.deep_view() == ioc_with_id(
                    self.registry(),
                    id@,
                ),
                None => !has_ioc(self.registry(), id@),
            },
    {
        let n = self.iocs.len();
        let mut i: usize = 0;
        while i < n
            invariant
                self.wf(),
                n == self.iocs@.len(),
                i <= n,
                forall|k: int| 0 <= k < i ==> self.registry()[k].id != id@,
            decreases n - i,
        {
            proof {
                assert(self.registry()[i as int] == self.iocs@[i as int].deep_view());
            }
            if str_eq(self.iocs[i].id.as_str(), id) {
                proof {
                    let k = choose|k: int|
                        0 <= k < self.registry().len() && self.registry()[k].id == id@;
                    assert(k == i as int);
                }
                return Some(&self.iocs[i]);
            }
            i += 1;
        }
        None
    }

    /// Collect the ids of all indicators the event matches.  Matching reads
    /// the matcher and the event and nothing else, so it has no side effect
    /// and two calls return the same ids
    /// (see [`lemma_ioc_match_deterministic`]).
    pub fn check_event(&self, event: &SystemEvent) -> (r: Vec<String>)
        ensures
            r.deep_view() == ioc_matches_spec(*self, event.deep_view()),
    {
        let mut out: Vec<String> = Vec::new();
        match &event.details {
            EventDetails::Process(p) => {
                let pn = self.process_iocs.len();
                let mut i: usize = 0;
                while i < pn
                    invariant
                        pn == self.process_iocs@.len(),
                        i <= pn,
                        out.deep_view() =~= proc_hits(
                            self.process_list().take(i as int),
                            p.deep_view().name,
                            p.deep_view().path,
                        ),
                    decreases pn - i,
                {
                    let ioc = &self.process_iocs[i];
                    proof {
                        assert(self.process_list()[i as int] == self.process_iocs@[
                            i as int
                        ].deep_view());
                        assert(self.process_list().take(i + 1).drop_last() =~= self.process_list()
                            .take(i as int));
                        assert(self.process_list().take(i + 1).last() == self.process_list()[
                            i as int
                        ]);
                    }
                    if contains_sub(p.name.as_str(), ioc.value.as_str()) || contains_sub(
                        p.path.as_str(),
                        ioc.value.as_str(),
                    ) {
                        out.push(ioc.id.clone());
                    }
                    proof {
                        assert(out.deep_view() =~= proc_hits(
                            self.process_list().take(i + 1),
                            p.deep_view().name,
                            p.deep_view().path,
                        ));
                    }
                    i += 1;
                }
                proof {
                    assert(self.process_list().take(pn as int) =~= self.process_list());
                }
                let ghost first = out.deep_view();
                let qn = self.path_iocs.len();
                let mut i: usize = 0;
                while i < qn
                    invariant
                        qn == self.path_iocs@.len(),
                        i <= qn,
                        out.deep_view() =~= first + path_hits(
                            self.path_list().take(i as int),
                            p.deep_view().path,
                        ),
                    decreases qn - i,
                {
                    let ioc = &self.path_iocs[i];
                    proof {
                        assert(self.path_list()[i as int] == self.path_iocs@[i as int].deep_view());
                        assert(self.path_list().take(i + 1).drop_last() =~= self.path_list().take(
                            i as int,
                        ));
                        assert(self.path_list().take(i + 1).last() == self.path_list()[i as int]);
                    }
                    let ghost dvb = out.deep_view();
                    if contains_sub(p.path.as_str(), ioc.value.as_str()) {
                        out.push(ioc.id.clone());
                        proof {
                            assert(out.deep_view() =~= dvb.push(self.path_list()[i as int].id));
                        }
                    }
                    proof {
                        assert(out.deep_view() =~= first + path_hits(
                            self.path_list().take(i + 1),
                            p.deep_view().path,
                        ));
                    }
                    i += 1;
                }
                proof {
                    assert(self.path_list().take(qn as int) =~= self.path_list());
                }
            },
            EventDetails::File(f) => {
                let qn = self.path_iocs.len();
                let mut i: usize = 0;
                while i < qn
                    invariant
                        qn == self.path_iocs@.len(),
                        i <= qn,
                        out.deep_view() =~= path_hits(
                            self.path_list().take(i as int),
                            f.deep_view().path,
                        ),
                    decreases qn - i,
                {
                    let ioc = &self.path_iocs[i];
                    proof {
                        assert(self.path_list()[i as int] == self.path_iocs@[i as int].deep_view());
                        assert(self.path_list().take(i + 1).drop_last() =~= self.path_list().take(
                            i as int,
                        ));
                        assert(self.path_list().take(i + 1).last() == self.path_list()[i as int]);
                    }
                    if contains_sub(f.path.as_str(), ioc.value.as_str()) {
                        out.push(ioc.id.clone());
                    }
                    proof {
                        assert(out.deep_view() =~= path_hits(
                            self.path_list().take(i + 1),
                            f.deep_view().path,
                        ));
                    }
                    i += 1;
                }
                proof {
                    assert(self.path_list().take(qn as int) =~= self.path_list());
                }
            },
            EventDetails::Network(net) => {
                let qn = self.ip_iocs.len();
                let mut i: usize = 0;
                while i < qn
                    invariant
                        qn == self.ip_iocs@.len(),
                        i <= qn,
                        out.deep_view() =~= ip_hits(
                            self.ip_list().take(i as int),
                            net.deep_view().src_ip,
                            net.deep_view().dst_ip,
                        ),
                    decreases qn - i,
                {
                    let ioc = &self.ip_iocs[i];
                    proof {
                        assert(self.ip_list()[i as int] == self.ip_iocs@[i as int].deep_view());
                        assert(self.ip_list().take(i + 1).drop_last() =~= self.ip_list().take(
                            i as int,
                        ));
                        assert(self.ip_list().take(i + 1).last() == self.ip_list()[i as int]);
                    }
                    if str_eq(net.dst_ip.as_str(), ioc.value.as_str()) || str_eq(
                        net.src_ip.as_str(),
                        ioc.value.as_str(),
                    ) {
                        out.push(ioc.id.clone());
                    }
                    proof {
                        assert(out.deep_view() =~= ip_hits(
                            self.ip_list().take(i + 1),
                            net.deep_view().src_ip,
                            net.deep_view().dst_ip,
                        ));
                    }
                    i += 1;
                }
                proof {
                    assert(self.ip_list().take(qn as int) =~= self.ip_list());
                }
            },
            _ => {},
        }
        proof {
            assert(out.deep_view() =~= ioc_matches_spec(*self, event.deep_view()));
        }
        out
    }
}

/// Indicator matching is idempotent: it is a pure function of the matcher
/// and the event, so any two results for the same matcher and event are the
/// same list of ids.
pub proof fn lemma_ioc_match_deterministic(
    m: IOCMatcher,
    e: SystemEventV,
    r1: Seq<Seq<char>>,
    r2: Seq<Seq<char>>,
)
    requires
        r1 == ioc_matches_spec(m, e),
        r2 == ioc_matches_spec(m, e),
    ensures
        r1 == r2,
{
}

} // verus!
