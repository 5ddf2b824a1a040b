//! The documents that describe a sandbox or a container, reduced to what the
//! tracker reads from them.

use crate::keyed::KeyedMap;
use vstd::prelude::*;

verus! {

/// CPU settings of a Linux resource section.
#[derive(Clone, Copy, Debug, PartialEq, Eq)]
pub struct LinuxCpu {
    /// Relative weight, 1024 to a core.
    pub shares: Option<u64>,
    /// Run time allowed in each period.
    pub quota: Option<i64>,
    /// Length of a period.
    pub period: Option<u64>,
}

/// Memory settings of a Linux resource section.
#[derive(Clone, Copy, Debug, PartialEq, Eq)]
pub struct LinuxMemory {
    /// Limit in bytes.
    pub limit: Option<i64>,
}

/// Process settings of a Linux resource section.
#[derive(Clone, Copy, Debug, PartialEq, Eq)]
pub struct LinuxPids {
    /// Highest number of processes.
    pub limit: i64,
}

/// The resource section of a Linux document.
#[derive(Clone, Copy, Debug, PartialEq, Eq)]
pub struct LinuxResources {
    pub cpu: Option<LinuxCpu>,
    pub memory: Option<LinuxMemory>,
    pub pids: Option<LinuxPids>,
}

/// The Linux part of a document.
#[derive(Clone, Copy, Debug, PartialEq, Eq)]
pub struct Linux {
    pub resources: Option<LinuxResources>,
}

/// A runtime document: free-form annotations and an optional Linux part.
pub struct JsonSpec {
    pub annotations: KeyedMap<String>,
    pub linux: Option<Linux>,
}

/// What a runtime document says.
pub struct JsonSpecView {
    pub annotations: Map<Seq<char>, Seq<char>>,
    pub linux: Option<Linux>,
}

impl View for JsonSpec {
    type V = JsonSpecView;

    open spec fn view(&self) -> JsonSpecView {
        JsonSpecView { annotations: self.annotations.texts(), linux: self.linux }
    }
}

impl JsonSpec {
    /// A document with no annotation and no Linux part.
    pub fn new() -> (spec: Self)
        ensures
            spec@ == (JsonSpecView { annotations: Map::empty(), linux: None }),
    {
        let spec = JsonSpec { annotations: KeyedMap::new(), linux: None };
        assert(spec.annotations.texts() =~= Map::<Seq<char>, Seq<char>>::empty());
        spec
    }

}

impl Clone for JsonSpec {
    /// A second document that says the same.
    fn clone(&self) -> (copy: Self)
        ensures
            copy@ == self@,
    {
        let annotations = self.annotations.clone();
        assert(annotations.texts() =~= self.annotations.texts());
        JsonSpec { annotations, linux: self.linux }
    }
}

/// The description of a sandbox.
pub struct SandboxData {
    pub spec: Option<JsonSpec>,
}

/// The description of a container.
pub struct ContainerData {
    pub spec: Option<JsonSpec>,
}

/// What an optional document says.
pub open spec fn spec_view(spec: Option<JsonSpec>) -> Option<JsonSpecView> {
    match spec {
        Some(s) => Some(s@),
        None => None,
    }
}

/// A second optional document that says the same.
fn clone_spec(spec: &Option<JsonSpec>) -> (copy: Option<JsonSpec>)
    ensures
        spec_view(copy) == spec_view(*spec),
{
    match spec {
        Some(s) => Some(s.clone()),
        None => None,
    }
}

impl View for SandboxData {
    type V = Option<JsonSpecView>;

    open spec fn view(&self) -> Option<JsonSpecView> {
        spec_view(self.spec)
    }
}

impl View for ContainerData {
    type V = Option<JsonSpecView>;

    open spec fn view(&self) -> Option<JsonSpecView> {
        spec_view(self.spec)
    }
}

impl Clone for SandboxData {
    /// A second description that says the same.
    fn clone(&self) -> (copy: Self)
        ensures
            copy@ == self@,
    {
        SandboxData { spec: clone_spec(&self.spec) }
    }
}

impl Clone for ContainerData {
    /// A second description that says the same.
    fn clone(&self) -> (copy: Self)
        ensures
            copy@ == self@,
    {
        ContainerData { spec: clone_spec(&self.spec) }
    }
}

} // verus!
