//! The resources that a document declares, and how they are read from it.
//!
//! CPU amounts are kept exactly as declared, never as rounded numbers: the
//! text of an annotation, a count of shares, or a quota with its period.

use crate::data::{
    spec_view, ContainerData, JsonSpec, JsonSpecView, LinuxCpu, LinuxMemory, LinuxResources,
    SandboxData,
};
use crate::numeral::{bounded_value, is_number_text, parse_u32, parse_u64, reads_as_number};
use vstd::prelude::*;

verus! {

/// An amount of CPU, in the form in which it was declared.
#[derive(Debug, PartialEq, Eq)]
pub enum CpuAmount {
    /// A number of cores, written as text.
    Text(String),
    /// A relative weight; 1024 shares make one core.
    Shares(u64),
    /// `quota` units of run time in every `period` units; the cores are
    /// their quotient. The pair is kept as declared, also where the quota is
    /// negative or the period 0 and the quotient is no finite count of cores.
    Quota { quota: i64, period: u64 },
}

/// What a CPU amount says.
pub enum CpuAmountView {
    Text(Seq<char>),
    Shares(u64),
    Quota { quota: i64, period: u64 },
}

impl View for CpuAmount {
    type V = CpuAmountView;

    open spec fn view(&self) -> CpuAmountView {
        match self {
            CpuAmount::Text(text) => CpuAmountView::Text(text@),
            CpuAmount::Shares(shares) => CpuAmountView::Shares(*shares),
            CpuAmount::Quota { quota, period } => CpuAmountView::Quota {
                quota: *quota,
                period: *period,
            },
        }
    }
}

impl Clone for CpuAmount {
    /// A second amount that says the same.
    fn clone(&self) -> (copy: Self)
        ensures
            copy@ == self@,
    {
        match self {
            CpuAmount::Text(text) => CpuAmount::Text(text.clone()),
            CpuAmount::Shares(shares) => CpuAmount::Shares(*shares),
            CpuAmount::Quota { quota, period } => CpuAmount::Quota {
                quota: *quota,
                period: *period,
            },
        }
    }
}

/// What an optional CPU amount says.
pub open spec fn amount_view(amount: Option<CpuAmount>) -> Option<CpuAmountView> {
    match amount {
        Some(a) => Some(a@),
        None => None,
    }
}

/// A second optional amount that says the same.
fn clone_amount(amount: &Option<CpuAmount>) -> (copy: Option<CpuAmount>)
    ensures
        amount_view(copy) == amount_view(*amount),
{
    match amount {
        Some(a) => Some(a.clone()),
        None => None,
    }
}

/// The resources declared for a sandbox or a container. A field that is
/// `None` was not declared; that is not the same as zero.
#[derive(Debug, PartialEq, Eq)]
pub struct ResourceInfo {
    /// CPU limit, in cores.
    pub cpu_limit: Option<CpuAmount>,
    /// CPU request, in cores.
    pub cpu_request: Option<CpuAmount>,
    /// Memory limit, in bytes.
    pub memory_limit: Option<u64>,
    /// Memory request, in bytes.
    pub memory_request: Option<u64>,
    /// Highest number of processes.
    pub pid_limit: Option<u32>,
    /// Storage limit, in bytes. Kept for later use; nothing sets it.
    pub storage_limit: Option<u64>,
    /// Network bandwidth. Kept for later use; nothing sets it.
    pub network_bandwidth: Option<u64>,
}

/// What a resource record says.
pub struct ResourceInfoView {
    pub cpu_limit: Option<CpuAmountView>,
    pub cpu_request: Option<CpuAmountView>,
    pub memory_limit: Option<u64>,
    pub memory_request: Option<u64>,
    pub pid_limit: Option<u32>,
    pub storage_limit: Option<u64>,
    pub network_bandwidth: Option<u64>,
}

impl View for ResourceInfo {
    type V = ResourceInfoView;

    open spec fn view(&self) -> ResourceInfoView {
        ResourceInfoView {
            cpu_limit: amount_view(self.cpu_limit),
            cpu_request: amount_view(self.cpu_request),
            memory_limit: self.memory_limit,
            memory_request: self.memory_request,
            pid_limit: self.pid_limit,
            storage_limit: self.storage_limit,
            network_bandwidth: self.network_bandwidth,
        }
    }
}

/// The record in which nothing is declared.
pub open spec fn nothing_declared() -> ResourceInfoView {
    ResourceInfoView {
        cpu_limit: None,
        cpu_request: None,
        memory_limit: None,
        memory_request: None,
        pid_limit: None,
        storage_limit: None,
        network_bandwidth: None,
    }
}

/// The annotation that declares a CPU limit.
pub open spec fn cpu_limit_key() -> Seq<char> {
    "resources.limits.cpu"@
}

/// The annotation that declares a CPU request.
pub open spec fn cpu_request_key() -> Seq<char> {
    "resources.requests.cpu"@
}

/// The annotation that declares a memory limit.
pub open spec fn memory_limit_key() -> Seq<char> {
    "resources.limits.memory"@
}

/// The annotation that declares a limit on processes.
pub open spec fn pid_key() -> Seq<char> {
    "resources.requests.pid"@
}

/// The CPU amount that the annotation `key` declares: its text, where that
/// writes a number.
pub open spec fn annotated_cpu(doc: JsonSpecView, key: Seq<char>) -> Option<CpuAmountView> {
    if doc.annotations.contains_key(key) && is_number_text(doc.annotations[key]) {
        Some(CpuAmountView::Text(doc.annotations[key]))
    } else {
        None
    }
}

/// The whole number of at most `max` that the annotation `key` declares.
pub open spec fn annotated_whole(doc: JsonSpecView, key: Seq<char>, max: nat) -> Option<nat> {
    if doc.annotations.contains_key(key) {
        bounded_value(doc.annotations[key], max)
    } else {
        None
    }
}

/// The resource section of a document, where it has one.
pub open spec fn linux_resources(doc: Option<JsonSpecView>) -> Option<LinuxResources> {
    match doc {
        Some(JsonSpecView { linux: Some(linux), .. }) => linux.resources,
        _ => None,
    }
}

/// The CPU settings of a document, where it has them.
pub open spec fn linux_cpu(doc: Option<JsonSpecView>) -> Option<LinuxCpu> {
    match linux_resources(doc) {
        Some(resources) => resources.cpu,
        None => None,
    }
}

/// The CPU limit that the resource section declares: a quota with its
/// period, where it gives both. The pair is kept as it stands, whatever the
/// numbers; their quotient is for whoever needs the cores to compute.
pub open spec fn section_cpu_limit(doc: Option<JsonSpecView>) -> Option<CpuAmountView> {
    match linux_cpu(doc) {
        Some(LinuxCpu { quota: Some(quota), period: Some(period), .. }) => Some(
            CpuAmountView::Quota { quota, period },
        ),
        _ => None,
    }
}

/// The CPU request that the resource section declares: its shares, where it
/// gives them.
pub open spec fn section_cpu_request(doc: Option<JsonSpecView>) -> Option<CpuAmountView> {
    match linux_cpu(doc) {
        Some(LinuxCpu { shares: Some(shares), .. }) => Some(CpuAmountView::Shares(shares)),
        _ => None,
    }
}

/// The memory limit that the resource section declares: its limit, where it
/// gives one that is a count of bytes. A negative limit is none.
pub open spec fn section_memory_limit(doc: Option<JsonSpecView>) -> Option<u64> {
    match linux_resources(doc) {
        Some(LinuxResources { memory: Some(LinuxMemory { limit: Some(limit) }), .. }) => if limit
            >= 0 {
            Some(limit as u64)
        } else {
            None
        },
        _ => None,
    }
}

/// The limit on processes that the resource section declares: its limit,
/// where it gives one that is a count fitting 32 bits. A negative limit, and
/// one above that width, is none.
pub open spec fn section_pid_limit(doc: Option<JsonSpecView>) -> Option<u32> {
    match linux_resources(doc) {
        Some(LinuxResources { pids: Some(pids), .. }) => if 0 <= pids.limit <= u32::MAX {
            Some(pids.limit as u32)
        } else {
            None
        },
        _ => None,
    }
}

/// What the resource section says of a field, or else what came before.
pub open spec fn section_first<T>(section: Option<T>, before: Option<T>) -> Option<T> {
    match section {
        Some(value) => Some(value),
        None => before,
    }
}

/// The CPU limit that the annotations declare, where they are read.
pub open spec fn annotated_cpu_limit(doc: Option<JsonSpecView>, annotations: bool) -> Option<
    CpuAmountView,
> {
    if annotations && doc is Some {
        annotated_cpu(doc->0, cpu_limit_key())
    } else {
        None
    }
}

/// The CPU request that the annotations declare, where they are read.
pub open spec fn annotated_cpu_request(doc: Option<JsonSpecView>, annotations: bool) -> Option<
    CpuAmountView,
> {
    if annotations && doc is Some {
        annotated_cpu(doc->0, cpu_request_key())
    } else {
        None
    }
}

/// The memory limit that the annotations declare, where they are read.
pub open spec fn annotated_memory_limit(doc: Option<JsonSpecView>, annotations: bool) -> Option<
    u64,
> {
    if annotations && doc is Some {
        match annotated_whole(doc->0, memory_limit_key(), u64::MAX as nat) {
            Some(v) => Some(v as u64),
            None => None,
        }
    } else {
        None
    }
}

/// The limit on processes that the annotations declare, where they are read.
pub open spec fn annotated_pid_limit(doc: Option<JsonSpecView>, annotations: bool) -> Option<u32> {
    if annotations && doc is Some {
        match annotated_whole(doc->0, pid_key(), u32::MAX as nat) {
            Some(v) => Some(v as u32),
            None => None,
        }
    } else {
        None
    }
}

/// The CPU limit that a document declares. A quota with its period decides;
/// without both, the annotation does, where annotations are read.
pub open spec fn declared_cpu_limit(doc: Option<JsonSpecView>, annotations: bool) -> Option<
    CpuAmountView,
> {
    section_first(section_cpu_limit(doc), annotated_cpu_limit(doc, annotations))
}

/// The CPU request that a document declares. Shares decide; without them,
/// the annotation does, where annotations are read.
pub open spec fn declared_cpu_request(doc: Option<JsonSpecView>, annotations: bool) -> Option<
    CpuAmountView,
> {
    section_first(section_cpu_request(doc), annotated_cpu_request(doc, annotations))
}

/// The memory limit that a document declares. The resource section decides
/// where it gives a limit that is a count of bytes; where it gives none, or
/// a negative one, the annotation does, where annotations are read.
pub open spec fn declared_memory_limit(doc: Option<JsonSpecView>, annotations: bool) -> Option<
    u64,
> {
    section_first(section_memory_limit(doc), annotated_memory_limit(doc, annotations))
}

/// The limit on processes that a document declares. The resource section
/// decides where it gives a limit that is a count fitting 32 bits; where it
/// gives none, or one outside that range, the annotation does, where
/// annotations are read.
pub open spec fn declared_pid_limit(doc: Option<JsonSpecView>, annotations: bool) -> Option<u32> {
    section_first(section_pid_limit(doc), annotated_pid_limit(doc, annotations))
}

/// All that a document declares, with or without its annotations.
pub open spec fn declared(doc: Option<JsonSpecView>, annotations: bool) -> ResourceInfoView {
    ResourceInfoView {
        cpu_limit: declared_cpu_limit(doc, annotations),
        cpu_request: declared_cpu_request(doc, annotations),
        memory_limit: declared_memory_limit(doc, annotations),
        memory_request: None,
        pid_limit: declared_pid_limit(doc, annotations),
        storage_limit: None,
        network_bandwidth: None,
    }
}

/// What the document of a sandbox declares: annotations are read.
pub open spec fn sandbox_resources(doc: Option<JsonSpecView>) -> ResourceInfoView {
    declared(doc, true)
}

/// What the document of a container declares: annotations are not read.
pub open spec fn container_resources(doc: Option<JsonSpecView>) -> ResourceInfoView {
    declared(doc, false)
}

/// Reads the CPU amount that the annotation `key` declares.
fn read_cpu(spec: &JsonSpec, key: &str) -> (amount: Option<CpuAmount>)
    ensures
        amount_view(amount) == annotated_cpu(spec@, key@),
{
    match spec.annotations.get(key) {
        Some(text) => {
            if reads_as_number(text.as_str()) {
                Some(CpuAmount::Text(text.clone()))
            } else {
                None
            }
        },
        None => None,
    }
}

/// Reads the whole number that fits 64 bits from the annotation `key`.
fn read_u64(spec: &JsonSpec, key: &str) -> (value: Option<u64>)
    ensures
        match value {
            Some(v) => annotated_whole(spec@, key@, u64::MAX as nat) == Some(v as nat),
            None => annotated_whole(spec@, key@, u64::MAX as nat) is None,
        },
{
    match spec.annotations.get(key) {
        Some(text) => parse_u64(text.as_str()),
        None => None,
    }
}

/// Reads the whole number that fits 32 bits from the annotation `key`.
fn read_u32(spec: &JsonSpec, key: &str) -> (value: Option<u32>)
    ensures
        match value {
            Some(v) => annotated_whole(spec@, key@, u32::MAX as nat) == Some(v as nat),
            None => annotated_whole(spec@, key@, u32::MAX as nat) is None,
        },
{
    match spec.annotations.get(key) {
        Some(text) => parse_u32(text.as_str()),
        None => None,
    }
}

impl Default for ResourceInfo {
    /// The record in which nothing is declared.
    fn default() -> (info: Self)
        ensures
            info@ == nothing_declared(),
    {
        ResourceInfo {
            cpu_limit: None,
            cpu_request: None,
            memory_limit: None,
            memory_request: None,
            pid_limit: None,
            storage_limit: None,
            network_bandwidth: None,
        }
    }
}

impl Clone for ResourceInfo {
    /// A second record that says the same.
    fn clone(&self) -> (copy: Self)
        ensures
            copy@ == self@,
    {
        ResourceInfo {
            cpu_limit: clone_amount(&self.cpu_limit),
            cpu_request: clone_amount(&self.cpu_request),
            memory_limit: self.memory_limit,
            memory_request: self.memory_request,
            pid_limit: self.pid_limit,
            storage_limit: self.storage_limit,
            network_bandwidth: self.network_bandwidth,
        }
    }
}

impl ResourceInfo {
    /// Lays what the resource section of `spec` declares over `self`: each
    /// field that the section declares is overwritten, the others stay. A
    /// memory or process limit that is no count fitting its field is not
    /// declared.
    fn apply_linux(self, spec: &Option<JsonSpec>) -> (info: Self)
        ensures
            info@.cpu_limit == section_first(
                section_cpu_limit(spec_view(*spec)),
                self@.cpu_limit,
            ),
            info@.cpu_request == section_first(
                section_cpu_request(spec_view(*spec)),
                self@.cpu_request,
            ),
            info@.memory_limit == section_first(
                section_memory_limit(spec_view(*spec)),
                self@.memory_limit,
            ),
            info@.pid_limit == section_first(
                section_pid_limit(spec_view(*spec)),
                self@.pid_limit,
            ),
            info@.memory_request == self@.memory_request,
            info@.storage_limit == self@.storage_limit,
            info@.network_bandwidth == self@.network_bandwidth,
    {
        let mut info = self;
        if let Some(spec) = spec {
            if let Some(linux) = &spec.linux {
                if let Some(resources) = &linux.resources {
                    if let Some(cpu) = &resources.cpu {
                        if let Some(shares) = cpu.shares {
                            info.cpu_request = Some(CpuAmount::Shares(shares));
                        }
                        if let Some(quota) = cpu.quota {
                            if let Some(period) = cpu.period {
                                info.cpu_limit = Some(CpuAmount::Quota { quota, period });
                            }
                        }
                    }
                    if let Some(memory) = &resources.memory {
                        if let Some(limit) = memory.limit {
                            if limit >= 0 {
                                info.memory_limit = Some(limit as u64);
                            }
                        }
                    }
                    if let Some(pids) = &resources.pids {
                        if 0 <= pids.limit && pids.limit <= 0xffff_ffff {
                            info.pid_limit = Some(pids.limit as u32);
                        }
                    }
                }
            }
        }
        info
    }

    /// Reads what the document of a sandbox declares. Annotations are read
    /// first; whatever the resource section declares replaces what an
    /// annotation said of the same field. Text that writes no number, and a
    /// limit in the resource section that is no count fitting its field, is
    /// passed over.
    pub fn from_sandbox_data(data: &SandboxData) -> (info: Self)
        ensures
            info@ == sandbox_resources(data@),
    {
        let mut info = ResourceInfo::default();
        if let Some(spec) = &data.spec {
            info.cpu_limit = read_cpu(spec, "resources.limits.cpu");
            info.cpu_request = read_cpu(spec, "resources.requests.cpu");
            info.memory_limit = read_u64(spec, "resources.limits.memory");
            info.pid_limit = read_u32(spec, "resources.requests.pid");
        }
        info.apply_linux(&data.spec)
    }

    /// Reads what the document of a container declares: its resource section
    /// only.
    pub fn from_container_data(data: &ContainerData) -> (info: Self)
        ensures
            info@ == container_resources(data@),
    {
        ResourceInfo::default().apply_linux(&data.spec)
    }
}

} // verus!
