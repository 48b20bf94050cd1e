use vstd::prelude::*;

verus! {

/// Nanoseconds in one second; the bound on `Timestamp::nanos`.
pub const NANOS_PER_SEC: u32 = 1_000_000_000;

/// A capture instant, as the time elapsed since the Unix epoch.
#[derive(Clone, Copy, Debug, PartialEq, Eq, Structural)]
pub struct Timestamp {
    pub secs: u64,
    pub nanos: u32,
}

impl Timestamp {
    pub open spec fn wf(&self) -> bool {
        self.nanos < NANOS_PER_SEC
    }

    /// Builds an instant from seconds and nanoseconds, carrying whole seconds
    /// out of `nanos`.
    pub fn new(secs: u64, nanos: u32) -> (r: Option<Timestamp>)
        ensures
            r is Some <==> secs as int + nanos as int / NANOS_PER_SEC as int <= u64::MAX,
            r matches Some(t) ==> t.wf() && t.secs == secs + nanos / NANOS_PER_SEC && t.nanos
                == nanos % NANOS_PER_SEC,
    {
        let carry: u32 = nanos / NANOS_PER_SEC;
        match secs.checked_add(carry as u64) {
            Some(s) => Some(Timestamp { secs: s, nanos: nanos % NANOS_PER_SEC }),
            None => None,
        }
    }
}

/// One process record. The CPU share is carried as the IEEE-754 bit pattern
/// of a single-precision percentage, so that it passes through unchanged.
#[derive(Debug)]
pub struct ProcessInfo {
    pub pid: i32,
    pub name: String,
    pub cpu_usage_bits: u32,
    pub memory: u64,
}

impl ProcessInfo {
    pub fn duplicate(&self) -> (r: ProcessInfo)
        ensures
            r == *self,
    {
        ProcessInfo {
            pid: self.pid,
            name: self.name.clone(),
            cpu_usage_bits: self.cpu_usage_bits,
            memory: self.memory,
        }
    }
}

/// Host identity.
#[derive(Debug)]
pub struct SystemInfo {
    pub name: String,
    pub hostname: String,
    pub uptime: u64,
    pub os_version: String,
    pub kernel_version: String,
}

/// Text that stands for a host name or system name the probe could not read.
pub open spec fn unknown_text() -> Seq<char> {
    "Unknown"@
}

/// A probed text field, or `fallback` when the probe had none.
pub open spec fn text_or(v: Option<String>, fallback: Seq<char>) -> Seq<char> {
    match v {
        Some(s) => s@,
        None => fallback,
    }
}

fn text_or_unknown(v: Option<String>) -> (r: String)
    ensures
        r@ == text_or(v, unknown_text()),
{
    match v {
        Some(s) => s,
        None => {
            proof {
                reveal_strlit("Unknown");
            }
            String::from_str("Unknown")
        },
    }
}

fn text_or_empty(v: Option<String>) -> (r: String)
    ensures
        r@ == text_or(v, Seq::empty()),
{
    match v {
        Some(s) => s,
        None => String::new(),
    }
}

impl SystemInfo {
    /// Host identity from what the probe read: a missing system name or host
    /// name reads "Unknown", a missing OS or kernel version reads empty.
    pub fn from_probe(
        name: Option<String>,
        hostname: Option<String>,
        uptime: u64,
        os_version: Option<String>,
        kernel_version: Option<String>,
    ) -> (r: SystemInfo)
        ensures
            r.name@ == text_or(name, unknown_text()),
            r.hostname@ == text_or(hostname, unknown_text()),
            r.uptime == uptime,
            r.os_version@ == text_or(os_version, Seq::empty()),
            r.kernel_version@ == text_or(kernel_version, Seq::empty()),
    {
        SystemInfo {
            name: text_or_unknown(name),
            hostname: text_or_unknown(hostname),
            uptime,
            os_version: text_or_empty(os_version),
            kernel_version: text_or_empty(kernel_version),
        }
    }

    pub fn duplicate(&self) -> (r: SystemInfo)
        ensures
            r == *self,
    {
        SystemInfo {
            name: self.name.clone(),
            hostname: self.hostname.clone(),
            uptime: self.uptime,
            os_version: self.os_version.clone(),
            kernel_version: self.kernel_version.clone(),
        }
    }
}

/// Memory totals in bytes.
#[derive(Clone, Copy, Debug, PartialEq, Eq, Structural)]
pub struct MemoryInfo {
    pub total: u64,
    pub used: u64,
    pub total_swap: u64,
    pub used_swap: u64,
}

/// Byte counters of one network interface: since the previous refresh and
/// since boot.
#[derive(Clone, Copy, Debug, PartialEq, Eq, Structural)]
pub struct NetworkInfo {
    pub received_bytes: u64,
    pub total_received_bytes: u64,
    pub transmitted_bytes: u64,
    pub total_transmitted_bytes: u64,
}

/// One immutable capture of host telemetry.
#[derive(Debug)]
pub struct PerfInfo {
    pub time: Timestamp,
    pub system: SystemInfo,
    /// Per-core CPU shares, as bit patterns (see `ProcessInfo`).
    pub cpu_bits: Vec<u32>,
    pub memory: MemoryInfo,
    pub processes: Vec<ProcessInfo>,
    /// Interface name and counters, one entry per interface: no name occurs
    /// twice (see `names_distinct`).
    pub networks: Vec<(String, NetworkInfo)>,
}

/// No interface name occurs twice.
pub open spec fn names_distinct(entries: Seq<(String, NetworkInfo)>) -> bool {
    forall|i: int, j: int|
        0 <= i < j < entries.len() ==> (#[trigger] entries[i]).0@ != (#[trigger] entries[j]).0@
}

/// The mapping from interface name to counters that a list of entries
/// describes; where a name recurs, the later entry wins.
pub open spec fn interface_map(entries: Seq<(String, NetworkInfo)>) -> Map<Seq<char>, NetworkInfo>
    decreases entries.len(),
{
    if entries.len() == 0 {
        Map::empty()
    } else {
        interface_map(entries.drop_last()).insert(entries.last().0@, entries.last().1)
    }
}

/// Overwriting the counters of a name that occurs once sets that name in the
/// mapping.
proof fn lemma_interface_map_update(entries: Seq<(String, NetworkInfo)>, j: int, e: (String, NetworkInfo))
    requires
        names_distinct(entries),
        0 <= j < entries.len(),
        e.0@ == entries[j].0@,
    ensures
        interface_map(entries.update(j, e)) == interface_map(entries).insert(e.0@, e.1),
    decreases entries.len(),
{
    let u = entries.update(j, e);
    let d = entries.drop_last();
    if j == entries.len() - 1 {
        assert(u.drop_last() =~= d);
        assert(interface_map(u) =~= interface_map(entries).insert(e.0@, e.1));
    } else {
        assert(names_distinct(d));
        lemma_interface_map_update(d, j, e);
        assert(u.drop_last() =~= d.update(j, e));
        assert(entries[j].0@ != entries.last().0@);
        assert(interface_map(u) =~= interface_map(entries).insert(e.0@, e.1));
    }
}

/// The interfaces as a list with one entry per name, in the order each name
/// first occurs; a name that recurs keeps its last counters.
pub fn merge_interfaces(entries: Vec<(String, NetworkInfo)>) -> (r: Vec<(String, NetworkInfo)>)
    ensures
        names_distinct(r@),
        interface_map(r@) == interface_map(entries@),
{
    let mut out: Vec<(String, NetworkInfo)> = Vec::new();
    let mut i: usize = 0;
    while i < entries.len()
        invariant
            i <= entries@.len(),
            names_distinct(out@),
            interface_map(out@) == interface_map(entries@.take(i as int)),
        decreases entries@.len() - i,
    {
        proof {
            assert(entries@.take(i as int + 1).drop_last() =~= entries@.take(i as int));
        }
        let name = entries[i].0.clone();
        let counters = entries[i].1;
        let mut j: usize = 0;
        let mut found: bool = false;
        while j < out.len()
            invariant_except_break
                !found,
            invariant
                j <= out@.len(),
                forall|k: int| 0 <= k < j ==> (#[trigger] out@[k]).0@ != name@,
            ensures
                found ==> j < out@.len() && out@[j as int].0@ == name@,
                !found ==> j == out@.len(),
            decreases out@.len() - j,
        {
            if out[j].0 == name {
                found = true;
                break;
            }
            j = j + 1;
        }
        if found {
            let ghost before = out@;
            out.set(j, (name, counters));
            proof {
                lemma_interface_map_update(before, j as int, (name, counters));
                assert(names_distinct(out@)) by {
                    assert forall|a: int, b: int| 0 <= a < b < out@.len() implies (#[trigger] out@[a]).0@
                        != (#[trigger] out@[b]).0@ by {
                        assert(before[a].0@ != before[b].0@);
                        assert(out@[a].0@ == before[a].0@);
                        assert(out@[b].0@ == before[b].0@);
                    }
                }
            }
        } else {
            let ghost before = out@;
            out.push((name, counters));
            proof {
                assert(out@.drop_last() =~= before);
                assert(names_distinct(out@)) by {
                    assert forall|a: int, b: int| 0 <= a < b < out@.len() implies (#[trigger] out@[a]).0@
                        != (#[trigger] out@[b]).0@ by {
                        if b < before.len() {
                            assert(before[a].0@ != before[b].0@);
                        } else {
                            assert(out@[a] == before[a]);
                        }
                    }
                }
            }
        }
        i = i + 1;
    }
    proof {
        assert(entries@.take(entries@.len() as int) =~= entries@);
    }
    out
}

/// The records that were read, in the order they were enumerated; the ones
/// that failed are left out.
pub open spec fn readable_records(records: Seq<Option<ProcessInfo>>) -> Seq<ProcessInfo>
    decreases records.len(),
{
    if records.len() == 0 {
        Seq::empty()
    } else {
        let rest = readable_records(records.drop_last());
        match records.last() {
            Some(p) => rest.push(p),
            None => rest,
        }
    }
}

/// Process records that were read: each `None` is a process that could not
/// be read and is dropped; the rest keep their order.
pub fn retain_readable(records: Vec<Option<ProcessInfo>>) -> (r: Vec<ProcessInfo>)
    ensures
        r@ == readable_records(records@),
{
    let mut out: Vec<ProcessInfo> = Vec::new();
    let mut i: usize = 0;
    while i < records.len()
        invariant
            i <= records@.len(),
            out@ == readable_records(records@.take(i as int)),
        decreases records@.len() - i,
    {
        proof {
            assert(records@.take(i as int + 1).drop_last() =~= records@.take(i as int));
        }
        match &records[i] {
            Some(p) => out.push(p.duplicate()),
            None => {},
        }
        i = i + 1;
    }
    proof {
        assert(records@.take(records@.len() as int) =~= records@);
    }
    out
}

fn copy_cpu(v: &Vec<u32>) -> (r: Vec<u32>)
    ensures
        r@ == v@,
{
    let mut out: Vec<u32> = Vec::new();
    let mut i: usize = 0;
    while i < v.len()
        invariant
            i <= v@.len(),
            out@ == v@.take(i as int),
        decreases v@.len() - i,
    {
        out.push(v[i]);
        i = i + 1;
        proof {
            assert(out@ =~= v@.take(i as int));
        }
    }
    proof {
        assert(v@.take(v@.len() as int) =~= v@);
    }
    out
}

fn copy_processes(v: &Vec<ProcessInfo>) -> (r: Vec<ProcessInfo>)
    ensures
        r@ == v@,
{
    let mut out: Vec<ProcessInfo> = Vec::new();
    let mut i: usize = 0;
    while i < v.len()
        invariant
            i <= v@.len(),
            out@ == v@.take(i as int),
        decreases v@.len() - i,
    {
        out.push(v[i].duplicate());
        i = i + 1;
        proof {
            assert(out@ =~= v@.take(i as int));
        }
    }
    proof {
        assert(v@.take(v@.len() as int) =~= v@);
    }
    out
}

fn copy_networks(v: &Vec<(String, NetworkInfo)>) -> (r: Vec<(String, NetworkInfo)>)
    ensures
        r@ == v@,
{
    let mut out: Vec<(String, NetworkInfo)> = Vec::new();
    let mut i: usize = 0;
    while i < v.len()
        invariant
            i <= v@.len(),
            out@ == v@.take(i as int),
        decreases v@.len() - i,
    {
        let entry = (v[i].0.clone(), v[i].1);
        out.push(entry);
        i = i + 1;
        proof {
            assert(out@ =~= v@.take(i as int));
        }
    }
    proof {
        assert(v@.take(v@.len() as int) =~= v@);
    }
    out
}

/// Two snapshots hold the same values, field by field.
pub open spec fn same_snapshot(a: PerfInfo, b: PerfInfo) -> bool {
    &&& a.time == b.time
    &&& a.system == b.system
    &&& a.cpu_bits@ == b.cpu_bits@
    &&& a.memory == b.memory
    &&& a.processes@ == b.processes@
    &&& a.networks@ == b.networks@
}

impl PerfInfo {

    /// Assembles one snapshot from what the probe read. Process records that
    /// could not be read are dropped, and the interfaces become one entry per
    /// name; every other field is kept as given.
    pub fn assemble(
        time: Timestamp,
        system: SystemInfo,
        cpu_bits: Vec<u32>,
        memory: MemoryInfo,
        process_records: Vec<Option<ProcessInfo>>,
        networks: Vec<(String, NetworkInfo)>,
    ) -> (r: PerfInfo)
        ensures
            r.time == time,
            r.system == system,
            r.cpu_bits@ == cpu_bits@,
            r.memory == memory,
            r.processes@ == readable_records(process_records@),
            names_distinct(r.networks@),
            interface_map(r.networks@) == interface_map(networks@),
    {
        PerfInfo {
            time,
            system,
            cpu_bits,
            memory,
            processes: retain_readable(process_records),
            networks: merge_interfaces(networks),
        }
    }

    pub fn duplicate(&self) -> (r: PerfInfo)
        ensures
            same_snapshot(r, *self),
    {
        PerfInfo {
            time: self.time,
            system: self.system.duplicate(),
            cpu_bits: copy_cpu(&self.cpu_bits),
            memory: self.memory,
            processes: copy_processes(&self.processes),
            networks: copy_networks(&self.networks),
        }
    }
}

} // verus!
