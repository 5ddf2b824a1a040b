//! What holds of the tracker whatever the calls and their order.

use crate::data::{JsonSpecView, LinuxMemory, LinuxResources};
use crate::numeral::is_number_text;
use crate::resource::{
    annotated_memory_limit, annotated_pid_limit, container_resources, cpu_limit_key, declared,
    linux_cpu, linux_resources, sandbox_resources, CpuAmountView,
};
use crate::sandbox::{SandboxStatus, SandboxView};
use crate::sandboxer::{created_in, deleted_in, started_in, stopped_in, updated_in};
use time::OffsetDateTime;
use vstd::prelude::*;

verus! {

/// Starting, updating, stopping or deleting a sandbox that is not registered
/// leaves the registry as it is.
pub proof fn law_absent_id_changes_nothing(
    registry: Map<Seq<char>, SandboxView>,
    id: Seq<char>,
    now: OffsetDateTime,
    data: Option<JsonSpecView>,
)
    requires
        !registry.contains_key(id),
    ensures
        started_in(registry, id, now) == registry,
        updated_in(registry, id, data) == registry,
        stopped_in(registry, id) == registry,
        deleted_in(registry, id) == registry,
{
    assert(registry.remove(id) =~= registry);
}

/// A sandbox that was just created is in the status `Created`, has no
/// container and no start time, and holds the description it was given. No
/// other sandbox is touched.
pub proof fn law_created_sandbox_is_fresh(
    registry: Map<Seq<char>, SandboxView>,
    id: Seq<char>,
    data: Option<JsonSpecView>,
)
    requires
        !registry.contains_key(id),
    ensures
        created_in(registry, id, data).contains_key(id),
        created_in(registry, id, data)[id].id == id,
        created_in(registry, id, data)[id].data == data,
        created_in(registry, id, data)[id].status == SandboxStatus::Created,
        created_in(registry, id, data)[id].started_at is None,
        !created_in(registry, id, data)[id].exit_signalled,
        created_in(registry, id, data)[id].containers == Map::<
            Seq<char>,
            Option<JsonSpecView>,
        >::empty(),
        forall|other: Seq<char>|
            other != id ==> (created_in(registry, id, data).contains_key(other)
                <==> registry.contains_key(other)),
        forall|other: Seq<char>|
            other != id && registry.contains_key(other) ==> created_in(registry, id, data)[other]
                == registry[other],
{
}

/// Creating under an id that is taken changes nothing: what was registered
/// stays, whole.
pub proof fn law_create_never_overwrites(
    registry: Map<Seq<char>, SandboxView>,
    id: Seq<char>,
    data: Option<JsonSpecView>,
)
    requires
        registry.contains_key(id),
    ensures
        created_in(registry, id, data) == registry,
{
}

/// A second start leaves the start time that the first one recorded, whenever
/// it comes.
pub proof fn law_second_start_keeps_time(
    registry: Map<Seq<char>, SandboxView>,
    id: Seq<char>,
    first: OffsetDateTime,
    second: OffsetDateTime,
)
    requires
        registry.contains_key(id),
    ensures
        started_in(registry, id, first)[id].started_at is Some,
        started_in(started_in(registry, id, first), id, second)[id].started_at == started_in(
            registry,
            id,
            first,
        )[id].started_at,
        started_in(started_in(registry, id, first), id, second) == started_in(registry, id, first),
{
    let once = started_in(registry, id, first);
    let twice = started_in(once, id, second);
    assert(once[id] == registry[id].started(first));
    assert(twice[id] == once[id].started(second));
    assert(twice =~= once);
}

/// A sandbox that was never started gets the time of its first start.
pub proof fn law_first_start_records_time(sandbox: SandboxView, now: OffsetDateTime)
    requires
        sandbox.started_at is None,
    ensures
        sandbox.started(now).started_at == Some(now),
        sandbox.started(now).status == SandboxStatus::Running(0),
{
}

/// Deleting an id that is not registered changes nothing, and deleting twice
/// is the same as deleting once.
pub proof fn law_delete_is_idempotent(registry: Map<Seq<char>, SandboxView>, id: Seq<char>)
    ensures
        !deleted_in(registry, id).contains_key(id),
        !registry.contains_key(id) ==> deleted_in(registry, id) == registry,
        deleted_in(deleted_in(registry, id), id) == deleted_in(registry, id),
{
    assert(deleted_in(deleted_in(registry, id), id) =~= deleted_in(registry, id));
    if !registry.contains_key(id) {
        assert(deleted_in(registry, id) =~= registry);
    }
}

/// A sandbox that was stopped is stopped and its exit signalled; a second
/// stop changes nothing, so the exit is signalled once.
pub proof fn law_stop_signals_once(sandbox: SandboxView)
    ensures
        sandbox.stopped().status == SandboxStatus::Stopped(0, 0),
        sandbox.stopped().exit_signalled,
        sandbox.stopped().stopped() == sandbox.stopped(),
{
}

/// The exit of a new sandbox is not signalled. Only a stop signals it, and
/// nothing takes the signal back: not a start, not an update, not a change
/// to the containers. So a sandbox that is stopped, started and stopped
/// again has its exit signalled by the first stop alone.
pub proof fn law_exit_signal_stays(
    sandbox: SandboxView,
    id: Seq<char>,
    data: Option<JsonSpecView>,
    now: OffsetDateTime,
)
    ensures
        !SandboxView::created(id, data).exit_signalled,
        sandbox.started(now).exit_signalled == sandbox.exit_signalled,
        sandbox.updated(data).exit_signalled == sandbox.exit_signalled,
        sandbox.with_container(id, data).exit_signalled == sandbox.exit_signalled,
        sandbox.without_container(id).exit_signalled == sandbox.exit_signalled,
        sandbox.stopped().started(now).exit_signalled,
        sandbox.stopped().started(now).stopped().exit_signalled,
{
}

/// A start changes the status and, the first time, the start time; the id,
/// the description, the containers and the exit signal stay.
pub proof fn law_start_changes_status_and_time_only(sandbox: SandboxView, now: OffsetDateTime)
    ensures
        sandbox.started(now).status == SandboxStatus::Running(0),
        sandbox.started(now).id == sandbox.id,
        sandbox.started(now).data == sandbox.data,
        sandbox.started(now).containers == sandbox.containers,
        sandbox.started(now).exit_signalled == sandbox.exit_signalled,
        sandbox.started_at is Some ==> sandbox.started(now).started_at == sandbox.started_at,
{
}

/// An update replaces the description whole and leaves the status, the start
/// time and the containers.
pub proof fn law_update_replaces_description(sandbox: SandboxView, data: Option<JsonSpecView>)
    ensures
        sandbox.updated(data).data == data,
        sandbox_resources(sandbox.updated(data).data) == sandbox_resources(data),
        sandbox.updated(data).status == sandbox.status,
        sandbox.updated(data).started_at == sandbox.started_at,
        sandbox.updated(data).containers == sandbox.containers,
{
}

/// A container that was added or updated is found under its id, with the
/// description it was given, so that its resources are those read from that
/// description. The other containers stay.
pub proof fn law_container_is_found(
    sandbox: SandboxView,
    id: Seq<char>,
    data: Option<JsonSpecView>,
)
    ensures
        sandbox.with_container(id, data).containers.contains_key(id),
        sandbox.with_container(id, data).containers[id] == data,
        container_resources(sandbox.with_container(id, data).containers[id])
            == container_resources(data),
        forall|other: Seq<char>|
            other != id && sandbox.containers.contains_key(other) ==> sandbox.with_container(
                id,
                data,
            ).containers.contains_key(other) && sandbox.with_container(id, data).containers[other]
                == sandbox.containers[other],
{
}

/// A container that was removed is no longer found. The other containers
/// stay.
pub proof fn law_removed_container_is_absent(sandbox: SandboxView, id: Seq<char>)
    ensures
        !sandbox.without_container(id).containers.contains_key(id),
        forall|other: Seq<char>|
            other != id && sandbox.containers.contains_key(other) ==> sandbox.without_container(
                id,
            ).containers.contains_key(other) && sandbox.without_container(id).containers[other]
                == sandbox.containers[other],
{
}

/// The sandbox after the containers `ids` were added one after the other,
/// each with its description.
pub open spec fn with_containers(
    sandbox: SandboxView,
    ids: Seq<Seq<char>>,
    data: Seq<Option<JsonSpecView>>,
) -> SandboxView
    decreases ids.len(),
{
    if ids.len() == 0 || data.len() != ids.len() {
        sandbox
    } else {
        with_containers(sandbox, ids.drop_last(), data.drop_last()).with_container(
            ids.last(),
            data.last(),
        )
    }
}

/// Containers added under ids that differ from each other, in whatever
/// order, are all there in the end, each with its own description: none is
/// lost to another. Each id was free when its turn came, so each addition
/// succeeded. What the sandbox held before stays.
pub proof fn law_no_container_is_lost(
    sandbox: SandboxView,
    ids: Seq<Seq<char>>,
    data: Seq<Option<JsonSpecView>>,
)
    requires
        ids.len() == data.len(),
        forall|i: int, j: int| 0 <= i < j < ids.len() ==> ids[i] != ids[j],
        forall|i: int| 0 <= i < ids.len() ==> !sandbox.containers.contains_key(#[trigger] ids[i]),
    ensures
        forall|i: int|
            0 <= i < ids.len() ==> with_containers(sandbox, ids, data).containers.contains_key(
                #[trigger] ids[i],
            ) && with_containers(sandbox, ids, data).containers[ids[i]] == data[i],
        forall|i: int|
            0 <= i < ids.len() ==> !with_containers(
                sandbox,
                ids.subrange(0, i),
                data.subrange(0, i),
            ).containers.contains_key(#[trigger] ids[i]),
        forall|id: Seq<char>| #[trigger]
            sandbox.containers.contains_key(id) ==> with_containers(
                sandbox,
                ids,
                data,
            ).containers.contains_key(id) && with_containers(sandbox, ids, data).containers[id]
                == sandbox.containers[id],
        forall|id: Seq<char>| #[trigger]
            with_containers(sandbox, ids, data).containers.contains_key(id) ==> (
            sandbox.containers.contains_key(id) || ids.contains(id)),
    decreases ids.len(),
{
    if ids.len() > 0 {
        let n = ids.len() - 1;
        let front_ids = ids.drop_last();
        let front_data = data.drop_last();
        law_no_container_is_lost(sandbox, front_ids, front_data);
        let front = with_containers(sandbox, front_ids, front_data);
        let all = with_containers(sandbox, ids, data);
        assert(all == front.with_container(ids[n], data[n]));
        assert forall|i: int| 0 <= i < ids.len() implies all.containers.contains_key(
            #[trigger] ids[i],
        ) && all.containers[ids[i]] == data[i] by {
            if i < n {
                assert(front_ids[i] == ids[i]);
                assert(front_data[i] == data[i]);
                assert(ids[i] != ids[n]);
            }
        }
        assert forall|i: int| 0 <= i < ids.len() implies !with_containers(
            sandbox,
            ids.subrange(0, i),
            data.subrange(0, i),
        ).containers.contains_key(#[trigger] ids[i]) by {
            if i < n {
                assert(front_ids.subrange(0, i) =~= ids.subrange(0, i));
                assert(front_data.subrange(0, i) =~= data.subrange(0, i));
                assert(front_ids[i] == ids[i]);
            } else {
                assert(ids.subrange(0, i) =~= front_ids);
                assert(data.subrange(0, i) =~= front_data);
                if front.containers.contains_key(ids[n]) {
                    assert(front_ids.contains(ids[n]));
                    let j = choose|j: int| 0 <= j < front_ids.len() && front_ids[j] == ids[n];
                    assert(ids[j] != ids[n]);
                }
            }
        }
        assert forall|id: Seq<char>| sandbox.containers.contains_key(id) implies (
        all.containers.contains_key(id) && all.containers[id] == sandbox.containers[id]) by {
            assert(front.containers.contains_key(id));
            assert(!sandbox.containers.contains_key(ids[n]));
            assert(id != ids[n]);
        }
        assert forall|id: Seq<char>| all.containers.contains_key(id) implies (
        sandbox.containers.contains_key(id) || ids.contains(id)) by {
            if id == ids[n] {
                assert(ids[n] == id);
            } else if !sandbox.containers.contains_key(id) {
                assert(front_ids.contains(id));
                let j = choose|j: int| 0 <= j < front_ids.len() && front_ids[j] == id;
                assert(ids[j] == id);
            }
        }
    }
}

/// The two fields kept for later use are never declared, whatever the
/// document says.
pub proof fn law_reserved_fields_stay_unset(doc: Option<JsonSpecView>, annotations: bool)
    ensures
        declared(doc, annotations).storage_limit is None,
        declared(doc, annotations).network_bandwidth is None,
{
}

/// Where the resource section gives a quota and a period, they are the CPU
/// limit, whatever an annotation says.
pub proof fn law_quota_overrides_annotation(doc: JsonSpecView, quota: i64, period: u64)
    requires
        linux_cpu(Some(doc)) matches Some(cpu) && cpu.quota == Some(quota) && cpu.period == Some(
            period,
        ),
    ensures
        sandbox_resources(Some(doc)).cpu_limit == Some(CpuAmountView::Quota { quota, period }),
        container_resources(Some(doc)).cpu_limit == Some(CpuAmountView::Quota { quota, period }),
{
}

/// Where the resource section lacks the quota or the period, the annotation
/// is the CPU limit of a sandbox if its text writes a number, and else
/// there is none. A container has none either way.
pub proof fn law_annotation_fills_in(doc: JsonSpecView)
    requires
        !(linux_cpu(Some(doc)) matches Some(cpu) && cpu.quota is Some && cpu.period is Some),
    ensures
        doc.annotations.contains_key(cpu_limit_key()) && is_number_text(
            doc.annotations[cpu_limit_key()],
        ) ==> sandbox_resources(Some(doc)).cpu_limit == Some(
            CpuAmountView::Text(doc.annotations[cpu_limit_key()]),
        ),
        !(doc.annotations.contains_key(cpu_limit_key()) && is_number_text(
            doc.annotations[cpu_limit_key()],
        )) ==> sandbox_resources(Some(doc)).cpu_limit is None,
        container_resources(Some(doc)).cpu_limit is None,
{
}

/// Where the resource section gives shares, they are the CPU request,
/// whatever an annotation says.
pub proof fn law_shares_decide_request(doc: JsonSpecView, shares: u64)
    requires
        linux_cpu(Some(doc)) matches Some(cpu) && cpu.shares == Some(shares),
    ensures
        sandbox_resources(Some(doc)).cpu_request == Some(CpuAmountView::Shares(shares)),
        container_resources(Some(doc)).cpu_request == Some(CpuAmountView::Shares(shares)),
{
}

/// A memory limit of the resource section that is negative, and a limit on
/// processes there that is negative or does not fit 32 bits, count as not
/// given: the annotation decides for a sandbox, and a container has none.
/// Limits within their range are taken as they stand.
pub proof fn law_limit_outside_its_field_is_absent(doc: JsonSpecView, annotations: bool)
    ensures
        linux_resources(Some(doc)) matches Some(LinuxResources {
            memory: Some(LinuxMemory { limit: Some(limit) }),
            ..
        }) ==> declared(Some(doc), annotations).memory_limit == (if limit >= 0 {
            Some(limit as u64)
        } else {
            annotated_memory_limit(Some(doc), annotations)
        }),
        linux_resources(Some(doc)) matches Some(LinuxResources { pids: Some(pids), .. })
            ==> declared(Some(doc), annotations).pid_limit == (if 0 <= pids.limit <= u32::MAX {
            Some(pids.limit as u32)
        } else {
            annotated_pid_limit(Some(doc), annotations)
        }),
        annotated_memory_limit(Some(doc), false) is None,
        annotated_pid_limit(Some(doc), false) is None,
{
}

/// The resources of a container depend on the resource section alone: two
/// documents that differ only in their annotations declare the same.
pub proof fn law_container_ignores_annotations(a: JsonSpecView, b: JsonSpecView)
    requires
        a.linux == b.linux,
    ensures
        container_resources(Some(a)) == container_resources(Some(b)),
{
}

/// A document that is missing declares nothing.
pub proof fn law_missing_document_declares_nothing()
    ensures
        sandbox_resources(None) == crate::resource::nothing_declared(),
        container_resources(None) == crate::resource::nothing_declared(),
{
}

} // verus!
