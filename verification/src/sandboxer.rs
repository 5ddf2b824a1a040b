//! The registry of sandboxes, by id.

use crate::data::{JsonSpecView, SandboxData};
use crate::error::{is_already_exists, is_not_found, Error};
use crate::registry::Registry;
use crate::sandbox::{
    ContainerOption, ResourceSlotContainer, ResourceSlotSandbox, SandboxOption, SandboxView,
};
use time::OffsetDateTime;
use vstd::prelude::*;

verus! {

/// The registry after `create`: a fresh sandbox under `id`, unless `id` is
/// taken.
pub open spec fn created_in(
    registry: Map<Seq<char>, SandboxView>,
    id: Seq<char>,
    data: Option<JsonSpecView>,
) -> Map<Seq<char>, SandboxView> {
    if registry.contains_key(id) {
        registry
    } else {
        registry.insert(id, SandboxView::created(id, data))
    }
}

/// The registry after `change` was applied to the sandbox `id`, where there
/// is one.
pub open spec fn changed_in(
    registry: Map<Seq<char>, SandboxView>,
    id: Seq<char>,
    change: spec_fn(SandboxView) -> SandboxView,
) -> Map<Seq<char>, SandboxView> {
    if registry.contains_key(id) {
        registry.insert(id, change(registry[id]))
    } else {
        registry
    }
}

/// The registry after a start of `id` at `now`.
pub open spec fn started_in(
    registry: Map<Seq<char>, SandboxView>,
    id: Seq<char>,
    now: OffsetDateTime,
) -> Map<Seq<char>, SandboxView> {
    changed_in(registry, id, |s: SandboxView| s.started(now))
}

/// The registry after the description of `id` was replaced.
pub open spec fn updated_in(
    registry: Map<Seq<char>, SandboxView>,
    id: Seq<char>,
    data: Option<JsonSpecView>,
) -> Map<Seq<char>, SandboxView> {
    changed_in(registry, id, |s: SandboxView| s.updated(data))
}

/// The registry after a stop of `id`.
pub open spec fn stopped_in(registry: Map<Seq<char>, SandboxView>, id: Seq<char>) -> Map<
    Seq<char>,
    SandboxView,
> {
    changed_in(registry, id, |s: SandboxView| s.stopped())
}

/// The registry after `id` was deleted.
pub open spec fn deleted_in(registry: Map<Seq<char>, SandboxView>, id: Seq<char>) -> Map<
    Seq<char>,
    SandboxView,
> {
    registry.remove(id)
}

/// The registry of sandboxes. It only records what is declared for each
/// sandbox; it allocates nothing.
pub struct ResourceSlotSandboxer {
    sandboxes: Registry<ResourceSlotSandbox>,
}

impl View for ResourceSlotSandboxer {
    type V = Map<Seq<char>, SandboxView>;

    closed spec fn view(&self) -> Map<Seq<char>, SandboxView> {
        self.sandboxes@.map_values(|s: ResourceSlotSandbox| s@)
    }
}

impl Default for ResourceSlotSandboxer {
    /// The registry without any sandbox.
    fn default() -> (registry: Self)
        ensures
            registry@ == Map::<Seq<char>, SandboxView>::empty(),
    {
        ResourceSlotSandboxer::new()
    }
}

impl ResourceSlotSandboxer {
    /// The registry without any sandbox.
    pub fn new() -> (registry: Self)
        ensures
            registry@ == Map::<Seq<char>, SandboxView>::empty(),
    {
        let registry = ResourceSlotSandboxer { sandboxes: Registry::new() };
        assert(registry@ =~= Map::<Seq<char>, SandboxView>::empty());
        registry
    }

    /// How many sandboxes are registered.
    pub fn len(&self) -> (n: usize)
        ensures
            self@.dom().finite(),
            n == self@.dom().len(),
    {
        let n = self.sandboxes.len();
        assert(self@.dom() =~= self.sandboxes@.dom());
        n
    }

    /// Whether a sandbox `id` is registered.
    pub fn contains(&self, id: &str) -> (present: bool)
        ensures
            present == self@.contains_key(id@),
    {
        self.sandboxes.contains(id)
    }

    /// Registers a sandbox `id`: created, never started, without containers,
    /// its resources read from its description. Fails, and changes nothing,
    /// where `id` is registered already.
    pub fn create(&mut self, id: &str, s: SandboxOption) -> (done: Result<(), Error>)
        ensures
            final(self)@ == created_in(old(self)@, id@, s.sandbox@),
            done is Ok <==> !old(self)@.contains_key(id@),
            done is Err ==> is_already_exists(done, id@),
    {
        let done = self.sandboxes.register(id, ResourceSlotSandbox::new(id, s.sandbox));
        assert(final(self)@ =~= created_in(old(self)@, id@, s.sandbox@));
        done
    }

    /// Takes the sandbox `id` out of the registry, to be changed and put
    /// back.
    fn take(&mut self, id: &str) -> (taken: Option<ResourceSlotSandbox>)
        ensures
            final(self).sandboxes@ == old(self).sandboxes@.remove(id@),
            match taken {
                Some(sandbox) => old(self)@.contains_key(id@) && sandbox@ == old(self)@[id@]
                    && sandbox == old(self).sandboxes@[id@],
                None => !old(self)@.contains_key(id@),
            },
    {
        self.sandboxes.remove(id)
    }

    /// Puts a sandbox that was taken out back under `id`.
    fn put(
        &mut self,
        id: &str,
        sandbox: ResourceSlotSandbox,
        Ghost(before): Ghost<Map<Seq<char>, SandboxView>>,
    )
        requires
            before.contains_key(id@),
            old(self)@ == before.remove(id@),
        ensures
            final(self)@ == before.insert(id@, sandbox@),
    {
        let _ = self.sandboxes.register(id, sandbox);
        proof {
            let after = final(self)@;
            assert forall|k: Seq<char>| after.contains_key(k) <==> before.insert(
                id@,
                sandbox@,
            ).contains_key(k) by {
                assert(old(self)@.contains_key(k) <==> old(self).sandboxes@.contains_key(k));
                assert(before.remove(id@).contains_key(k) <==> (before.contains_key(k) && k
                    != id@));
            }
            assert forall|k: Seq<char>| after.contains_key(k) implies after[k] == before.insert(
                id@,
                sandbox@,
            )[k] by {
                if k != id@ {
                    assert(old(self)@[k] == old(self).sandboxes@[k]@);
                    assert(before.remove(id@)[k] == before[k]);
                }
            }
            assert(after =~= before.insert(id@, sandbox@));
        }
    }

    /// Starts the sandbox `id` at the instant `now`: it runs from then on.
    /// Its first start records `now`; a later one leaves the recorded
    /// instant as it is. Fails, and changes nothing, where `id` is absent.
    pub fn start_at(&mut self, id: &str, now: OffsetDateTime) -> (done: Result<(), Error>)
        ensures
            final(self)@ == started_in(old(self)@, id@, now),
            done is Ok <==> old(self)@.contains_key(id@),
            done is Err ==> is_not_found(done, id@),
    {
        let ghost before = self@;
        match self.take(id) {
            Some(mut sandbox) => {
                assert(self@ =~= before.remove(id@));
                sandbox.start_at(now);
                self.put(id, sandbox, Ghost(before));
                Ok(())
            },
            None => {
                assert(self@ =~= before);
                Err(Error::not_found(id))
            },
        }
    }

    /// Starts the sandbox `id` now, by the system clock.
    pub fn start(&mut self, id: &str) -> (done: Result<(), Error>)
        ensures
            exists|now: OffsetDateTime| final(self)@ == started_in(old(self)@, id@, now),
            done is Ok <==> old(self)@.contains_key(id@),
            done is Err ==> is_not_found(done, id@),
    {
        let now = OffsetDateTime::now_utc();
        self.start_at(id, now)
    }

    /// Replaces the description of the sandbox `id`; its resources are read
    /// anew from `data`. Fails, and changes nothing, where `id` is absent.
    pub fn update(&mut self, id: &str, data: SandboxData) -> (done: Result<(), Error>)
        ensures
            final(self)@ == updated_in(old(self)@, id@, data@),
            done is Ok <==> old(self)@.contains_key(id@),
            done is Err ==> is_not_found(done, id@),
    {
        let ghost before = self@;
        match self.take(id) {
            Some(mut sandbox) => {
                assert(self@ =~= before.remove(id@));
                sandbox.update(data);
                self.put(id, sandbox, Ghost(before));
                Ok(())
            },
            None => {
                assert(self@ =~= before);
                Err(Error::not_found(id))
            },
        }
    }

    /// The sandbox `id`, or the failure that it is absent.
    pub fn sandbox(&self, id: &str) -> (found: Result<&ResourceSlotSandbox, Error>)
        ensures
            self@.contains_key(id@) ==> found is Ok && found->Ok_0@ == self@[id@],
            !self@.contains_key(id@) ==> is_not_found(found, id@),
    {
        self.sandboxes.lookup(id)
    }

    /// Stops the sandbox `id`, and says whether its exit is to be signalled
    /// now: it is by the first stop of a sandbox, and by no later one,
    /// whatever happened to the sandbox in between.
    /// `force` changes nothing. Fails, and changes nothing, where `id` is
    /// absent.
    pub fn stop(&mut self, id: &str, force: bool) -> (done: Result<bool, Error>)
        ensures
            final(self)@ == stopped_in(old(self)@, id@),
            done is Ok <==> old(self)@.contains_key(id@),
            done is Ok ==> done->Ok_0 == !old(self)@[id@].exit_signalled,
            done is Err ==> is_not_found(done, id@),
    {
        let ghost before = self@;
        match self.take(id) {
            Some(mut sandbox) => {
                assert(self@ =~= before.remove(id@));
                let signal = sandbox.stop(force);
                self.put(id, sandbox, Ghost(before));
                Ok(signal)
            },
            None => {
                assert(self@ =~= before);
                Err(Error::not_found(id))
            },
        }
    }

    /// Takes the sandbox `id` out of the registry for good. Where `id` is
    /// absent nothing changes, and that is no failure.
    pub fn delete(&mut self, id: &str) -> (done: Result<(), Error>)
        ensures
            done is Ok,
            final(self)@ == deleted_in(old(self)@, id@),
    {
        self.sandboxes.remove(id);
        assert(final(self)@ =~= old(self)@.remove(id@));
        Ok(())
    }
    /// The ids of the registered sandboxes, each once, in no order that
    /// callers may rely on.
    pub fn ids(&self) -> (ids: Vec<String>)
        ensures
            forall|i: int| 0 <= i < ids.len() ==> self@.contains_key(#[trigger] ids[i]@),
            forall|id: Seq<char>|
                self@.contains_key(id) ==> exists|i: int|
                    0 <= i < ids.len() && #[trigger] ids[i]@ == id,
            forall|i: int, j: int| 0 <= i < j < ids.len() ==> ids[i]@ != ids[j]@,
    {
        let ids = self.sandboxes.ids();
        assert(self@.dom() =~= self.sandboxes@.dom());
        ids
    }

    /// The container `id` of the sandbox `sandbox_id`, or the failure that
    /// says which of the two is absent.
    pub fn container(&self, sandbox_id: &str, id: &str) -> (found: Result<
        &ResourceSlotContainer,
        Error,
    >)
        ensures
            !self@.contains_key(sandbox_id@) ==> is_not_found(found, sandbox_id@),
            self@.contains_key(sandbox_id@) && !self@[sandbox_id@].containers.contains_key(id@)
                ==> is_not_found(found, id@),
            self@.contains_key(sandbox_id@) && self@[sandbox_id@].containers.contains_key(id@)
                ==> found is Ok && found->Ok_0@ == self@[sandbox_id@].containers[id@],
    {
        match self.sandboxes.lookup(sandbox_id) {
            Ok(sandbox) => sandbox.container(id),
            Err(absent) => Err(absent),
        }
    }

    /// Adds the container `id` to the sandbox `sandbox_id`. Fails, and
    /// changes nothing, where the sandbox is absent or has a container `id`
    /// already.
    pub fn append_container(
        &mut self,
        sandbox_id: &str,
        id: &str,
        options: ContainerOption,
    ) -> (done: Result<(), Error>)
        ensures
            !old(self)@.contains_key(sandbox_id@) ==> is_not_found(done, sandbox_id@) && final(self)@
                == old(self)@,
            old(self)@.contains_key(sandbox_id@) && old(self)@[sandbox_id@].containers.contains_key(
                id@,
            ) ==> is_already_exists(done, id@) && final(self)@ == old(self)@,
            old(self)@.contains_key(sandbox_id@) && !old(self)@[sandbox_id@].containers.contains_key(
                id@,
            ) ==> done is Ok && final(self)@ == old(self)@.insert(
                sandbox_id@,
                old(self)@[sandbox_id@].with_container(id@, options.container@),
            ),
    {
        let ghost before = self@;
        match self.take(sandbox_id) {
            Some(mut sandbox) => {
                assert(self@ =~= before.remove(sandbox_id@));
                let done = sandbox.append_container(id, options);
                self.put(sandbox_id, sandbox, Ghost(before));
                assert(before.insert(sandbox_id@, before[sandbox_id@]) =~= before);
                done
            },
            None => {
                assert(self@ =~= before);
                Err(Error::not_found(sandbox_id))
            },
        }
    }

    /// Replaces the description of the container `id` of the sandbox
    /// `sandbox_id`. Fails, and changes nothing, where either is absent.
    pub fn update_container(
        &mut self,
        sandbox_id: &str,
        id: &str,
        options: ContainerOption,
    ) -> (done: Result<(), Error>)
        ensures
            !old(self)@.contains_key(sandbox_id@) ==> is_not_found(done, sandbox_id@) && final(self)@
                == old(self)@,
            old(self)@.contains_key(sandbox_id@) && !old(self)@[sandbox_id@].containers.contains_key(
                id@,
            ) ==> is_not_found(done, id@) && final(self)@ == old(self)@,
            old(self)@.contains_key(sandbox_id@) && old(self)@[sandbox_id@].containers.contains_key(
                id@,
            ) ==> done is Ok && final(self)@ == old(self)@.insert(
                sandbox_id@,
                old(self)@[sandbox_id@].with_container(id@, options.container@),
            ),
    {
        let ghost before = self@;
        match self.take(sandbox_id) {
            Some(mut sandbox) => {
                assert(self@ =~= before.remove(sandbox_id@));
                let done = sandbox.update_container(id, options);
                self.put(sandbox_id, sandbox, Ghost(before));
                assert(before.insert(sandbox_id@, before[sandbox_id@]) =~= before);
                done
            },
            None => {
                assert(self@ =~= before);
                Err(Error::not_found(sandbox_id))
            },
        }
    }

    /// Takes the container `id` out of the sandbox `sandbox_id`. Fails, and
    /// changes nothing, where either is absent.
    pub fn remove_container(&mut self, sandbox_id: &str, id: &str) -> (done: Result<(), Error>)
        ensures
            !old(self)@.contains_key(sandbox_id@) ==> is_not_found(done, sandbox_id@) && final(self)@
                == old(self)@,
            old(self)@.contains_key(sandbox_id@) && !old(self)@[sandbox_id@].containers.contains_key(
                id@,
            ) ==> is_not_found(done, id@) && final(self)@ == old(self)@,
            old(self)@.contains_key(sandbox_id@) && old(self)@[sandbox_id@].containers.contains_key(
                id@,
            ) ==> done is Ok && final(self)@ == old(self)@.insert(
                sandbox_id@,
                old(self)@[sandbox_id@].without_container(id@),
            ),
    {
        let ghost before = self@;
        match self.take(sandbox_id) {
            Some(mut sandbox) => {
                assert(self@ =~= before.remove(sandbox_id@));
                let done = sandbox.remove_container(id);
                self.put(sandbox_id, sandbox, Ghost(before));
                assert(before.insert(sandbox_id@, before[sandbox_id@]) =~= before);
                done
            },
            None => {
                assert(self@ =~= before);
                Err(Error::not_found(sandbox_id))
            },
        }
    }
}

} // verus!
