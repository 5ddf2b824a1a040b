//! One sandbox: its document, its status, and the containers it owns.

use crate::data::{ContainerData, JsonSpecView, SandboxData};
use crate::error::{is_already_exists, is_not_found, Error};
use crate::keyed::KeyedMap;
use crate::resource::{container_resources, sandbox_resources, ResourceInfo};
use time::OffsetDateTime;
use vstd::prelude::*;

verus! {

/// Where a sandbox stands in its life.
#[derive(Clone, Copy, Debug, PartialEq, Eq, Structural)]
pub enum SandboxStatus {
    /// Registered, not started yet.
    Created,
    /// Started; the number stands for a process id and is always 0 here.
    Running(u32),
    /// Stopped, with an exit code and the time of exit; both are always 0
    /// here.
    Stopped(u32, i128),
}

/// What is handed over to create a sandbox.
pub struct SandboxOption {
    /// Directory of the sandbox; kept for callers, not read here.
    pub base_dir: String,
    /// The description of the sandbox.
    pub sandbox: SandboxData,
}

/// What is handed over to add or update a container.
pub struct ContainerOption {
    /// The description of the container.
    pub container: ContainerData,
}

/// A container: its description, and the resources read from it.
pub struct ResourceSlotContainer {
    data: ContainerData,
    resource_info: ResourceInfo,
}

impl View for ResourceSlotContainer {
    type V = Option<JsonSpecView>;

    /// A container is what its description says; its resources follow.
    closed spec fn view(&self) -> Option<JsonSpecView> {
        self.data@
    }
}

impl ResourceSlotContainer {
    #[verifier::type_invariant]
    spec fn well_formed(self) -> bool {
        self.resource_info@ == container_resources(self.data@)
    }

    /// A container with the description `data`.
    pub fn new(data: ContainerData) -> (container: Self)
        ensures
            container@ == data@,
    {
        let resource_info = ResourceInfo::from_container_data(&data);
        ResourceSlotContainer { data, resource_info }
    }

    /// The resources of the container: those its description declares.
    pub fn resource_info(&self) -> (info: &ResourceInfo)
        ensures
            info@ == container_resources(self@),
    {
        proof {
            use_type_invariant(self);
        }
        &self.resource_info
    }

    /// A copy of the description of the container.
    pub fn get_data(&self) -> (data: Result<ContainerData, Error>)
        ensures
            data is Ok,
            data->Ok_0@ == self@,
    {
        Ok(self.data.clone())
    }
}

/// A sandbox document with the resources read from it.
struct Declaration {
    data: SandboxData,
    resource_info: ResourceInfo,
}

impl Declaration {
    #[verifier::type_invariant]
    spec fn well_formed(self) -> bool {
        self.resource_info@ == sandbox_resources(self.data@)
    }

    fn read(data: SandboxData) -> (declaration: Self)
        ensures
            declaration.data@ == data@,
    {
        let resource_info = ResourceInfo::from_sandbox_data(&data);
        Declaration { data, resource_info }
    }
}

/// A sandbox: its description, its status and its containers. It allocates
/// nothing; it only keeps track.
pub struct ResourceSlotSandbox {
    id: String,
    declaration: Declaration,
    status: SandboxStatus,
    containers: KeyedMap<ResourceSlotContainer>,
    started_at: Option<OffsetDateTime>,
    exit_signalled: bool,
}

/// What a sandbox holds.
pub struct SandboxView {
    /// The id it was created under.
    pub id: Seq<char>,
    /// Its description, as last applied.
    pub data: Option<JsonSpecView>,
    /// Where it stands in its life.
    pub status: SandboxStatus,
    /// When it was first started.
    pub started_at: Option<OffsetDateTime>,
    /// Its containers by id, each as its description.
    pub containers: Map<Seq<char>, Option<JsonSpecView>>,
    /// Whether its exit has been signalled. Once it has, it stays so.
    pub exit_signalled: bool,
}

impl SandboxView {
    /// A sandbox right after its creation.
    pub open spec fn created(id: Seq<char>, data: Option<JsonSpecView>) -> SandboxView {
        SandboxView {
            id,
            data,
            status: SandboxStatus::Created,
            started_at: None,
            containers: Map::empty(),
            exit_signalled: false,
        }
    }

    /// The sandbox after a start at `now`: it runs, and the time of its
    /// first start stays. Nothing else changes; an exit that was signalled
    /// stays signalled.
    pub open spec fn started(self, now: OffsetDateTime) -> SandboxView {
        SandboxView {
            status: SandboxStatus::Running(0),
            started_at: if self.started_at is Some {
                self.started_at
            } else {
                Some(now)
            },
            ..self
        }
    }

    /// The sandbox after its description was replaced.
    pub open spec fn updated(self, data: Option<JsonSpecView>) -> SandboxView {
        SandboxView { data, ..self }
    }

    /// The sandbox after a stop: it is stopped, and its exit is signalled.
    pub open spec fn stopped(self) -> SandboxView {
        SandboxView { status: SandboxStatus::Stopped(0, 0), exit_signalled: true, ..self }
    }

    /// The sandbox with the container `id` set to `data`.
    pub open spec fn with_container(self, id: Seq<char>, data: Option<JsonSpecView>) -> SandboxView {
        SandboxView { containers: self.containers.insert(id, data), ..self }
    }

    /// The sandbox without the container `id`.
    pub open spec fn without_container(self, id: Seq<char>) -> SandboxView {
        SandboxView { containers: self.containers.remove(id), ..self }
    }
}

impl View for ResourceSlotSandbox {
    type V = SandboxView;

    closed spec fn view(&self) -> SandboxView {
        SandboxView {
            id: self.id@,
            data: self.declaration.data@,
            status: self.status,
            started_at: self.started_at,
            containers: self.containers@.map_values(|c: ResourceSlotContainer| c@),
            exit_signalled: self.exit_signalled,
        }
    }
}

impl ResourceSlotSandbox {
    /// A sandbox `id` with the description `data`: created, never started,
    /// without containers.
    pub fn new(id: &str, data: SandboxData) -> (sandbox: Self)
        ensures
            sandbox@ == SandboxView::created(id@, data@),
    {
        let sandbox = ResourceSlotSandbox {
            id: id.to_owned(),
            declaration: Declaration::read(data),
            status: SandboxStatus::Created,
            containers: KeyedMap::new(),
            started_at: None,
            exit_signalled: false,
        };
        assert(sandbox@.containers =~= Map::<Seq<char>, Option<JsonSpecView>>::empty());
        sandbox
    }

    /// The id of the sandbox.
    pub fn id(&self) -> (id: &String)
        ensures
            id@ == self@.id,
    {
        &self.id
    }

    /// Starts the sandbox at the instant `now`. The first start records
    /// `now`; a later one leaves the recorded instant as it is.
    pub fn start_at(&mut self, now: OffsetDateTime)
        ensures
            final(self)@ == old(self)@.started(now),
    {
        if self.started_at.is_none() {
            self.started_at = Some(now);
        }
        self.status = SandboxStatus::Running(0);
    }

    /// Starts the sandbox now, by the system clock.
    pub fn start(&mut self)
        ensures
            exists|now: OffsetDateTime| final(self)@ == old(self)@.started(now),
    {
        let now = OffsetDateTime::now_utc();
        self.start_at(now);
    }

    /// Replaces the description of the sandbox; its resources are read anew
    /// from `data`, and nothing of the old ones stays.
    pub fn update(&mut self, data: SandboxData)
        ensures
            final(self)@ == old(self)@.updated(data@),
    {
        self.declaration = Declaration::read(data);
    }

    /// Stops the sandbox. Says whether its exit is to be signalled now: it
    /// is by the first stop, and by no later one, whatever happened to the
    /// sandbox in between. `force` changes nothing.
    pub fn stop(&mut self, force: bool) -> (signal: bool)
        ensures
            final(self)@ == old(self)@.stopped(),
            final(self)@.exit_signalled,
            signal == !old(self)@.exit_signalled,
    {
        let signal = !self.exit_signalled;
        self.status = SandboxStatus::Stopped(0, 0);
        self.exit_signalled = true;
        signal
    }

    /// The status of the sandbox.
    pub fn status(&self) -> (status: Result<SandboxStatus, Error>)
        ensures
            status == Ok::<SandboxStatus, Error>(self@.status),
    {
        Ok(self.status)
    }

    /// Checks that the sandbox answers. Nothing backs it, so it always does.
    pub fn ping(&self) -> (answer: Result<(), Error>)
        ensures
            answer is Ok,
    {
        Ok(())
    }

    /// When the sandbox was first started.
    pub fn started_at(&self) -> (at: Option<OffsetDateTime>)
        ensures
            at == self@.started_at,
    {
        self.started_at
    }

    /// The resources of the sandbox: those its description declares.
    pub fn resource_info(&self) -> (info: &ResourceInfo)
        ensures
            info@ == sandbox_resources(self@.data),
    {
        proof {
            use_type_invariant(&self.declaration);
        }
        &self.declaration.resource_info
    }

    /// A copy of the description of the sandbox, as last applied.
    pub fn get_data(&self) -> (data: Result<SandboxData, Error>)
        ensures
            data is Ok,
            data->Ok_0@ == self@.data,
    {
        Ok(self.declaration.data.clone())
    }

    /// Whether the exit of the sandbox has been signalled: it has from the
    /// first stop on, also while the sandbox runs again.
    pub fn exit_signal(&self) -> (signalled: Result<bool, Error>)
        ensures
            signalled == Ok::<bool, Error>(self@.exit_signalled),
    {
        Ok(self.exit_signalled)
    }

    /// How many containers the sandbox has.
    pub fn container_count(&self) -> (n: usize)
        ensures
            self@.containers.dom().finite(),
            n == self@.containers.dom().len(),
    {
        let n = self.containers.len();
        assert(self@.containers.dom() =~= self.containers@.dom());
        n
    }

    /// The ids of the containers, each once, in no order that callers may
    /// rely on.
    pub fn container_ids(&self) -> (ids: Vec<String>)
        ensures
            forall|i: int| 0 <= i < ids.len() ==> self@.containers.contains_key(#[trigger] ids[i]@),
            forall|id: Seq<char>|
                self@.containers.contains_key(id) ==> exists|i: int|
                    0 <= i < ids.len() && #[trigger] ids[i]@ == id,
            forall|i: int, j: int| 0 <= i < j < ids.len() ==> ids[i]@ != ids[j]@,
    {
        let ids = self.containers.keys();
        assert(self@.containers.dom() =~= self.containers@.dom());
        ids
    }

    /// The container `id`, or the failure that it is absent.
    pub fn container(&self, id: &str) -> (found: Result<&ResourceSlotContainer, Error>)
        ensures
            self@.containers.contains_key(id@) ==> found is Ok && found->Ok_0@
                == self@.containers[id@],
            !self@.containers.contains_key(id@) ==> is_not_found(found, id@),
    {
        match self.containers.get(id) {
            Some(container) => Ok(container),
            None => Err(Error::not_found(id)),
        }
    }

    /// Adds the container `id` with the given description. Fails, and changes
    /// nothing, where a container `id` is present already.
    pub fn append_container(&mut self, id: &str, options: ContainerOption) -> (done: Result<(), Error>)
        ensures
            !old(self)@.containers.contains_key(id@) ==> done is Ok && final(self)@ == old(self)@.with_container(id@, options.container@),
            old(self)@.containers.contains_key(id@) ==> is_already_exists(done, id@) && final(self)@ == old(self)@,
    {
        if self.containers.contains_key(id) {
            return Err(Error::already_exists(id));
        }
        let container = ResourceSlotContainer::new(options.container);
        self.containers.insert(id.to_owned(), container);
        assert(final(self)@.containers =~= old(self)@.containers.insert(id@, options.container@));
        Ok(())
    }

    /// Replaces the description of the container `id`; its resources are
    /// read anew. Fails, and changes nothing, where no container `id` is
    /// present.
    pub fn update_container(&mut self, id: &str, options: ContainerOption) -> (done: Result<(), Error>)
        ensures
            old(self)@.containers.contains_key(id@) ==> done is Ok && final(self)@ == old(self)@.with_container(id@, options.container@),
            !old(self)@.containers.contains_key(id@) ==> is_not_found(done, id@) && final(self)@
                == old(self)@,
    {
        if !self.containers.contains_key(id) {
            return Err(Error::not_found(id));
        }
        let container = ResourceSlotContainer::new(options.container);
        self.containers.insert(id.to_owned(), container);
        assert(final(self)@.containers =~= old(self)@.containers.insert(id@, options.container@));
        Ok(())
    }

    /// Takes the container `id` out. Fails, and changes nothing, where no
    /// container `id` is present.
    pub fn remove_container(&mut self, id: &str) -> (done: Result<(), Error>)
        ensures
            old(self)@.containers.contains_key(id@) ==> done is Ok && final(self)@ == old(self)@.without_container(id@),
            !old(self)@.containers.contains_key(id@) ==> is_not_found(done, id@) && final(self)@
                == old(self)@,
    {
        match self.containers.remove(id) {
            Some(_) => {
                assert(final(self)@.containers =~= old(self)@.containers.remove(id@));
                Ok(())
            },
            None => {
                assert(final(self)@.containers =~= old(self)@.containers);
                Err(Error::not_found(id))
            },
        }
    }
}

} // verus!
