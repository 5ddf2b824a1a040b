use resource_slot::data::{ContainerData, JsonSpec, Linux, LinuxCpu, LinuxPids, LinuxResources, SandboxData};
use resource_slot::error::Error;
use resource_slot::resource::{CpuAmount, ResourceInfo};
use resource_slot::sandbox::{
    ContainerOption, ResourceSlotContainer, ResourceSlotSandbox, SandboxOption, SandboxStatus,
};
use resource_slot::sandboxer::ResourceSlotSandboxer;

fn container(shares: u64, pids: i64) -> ContainerData {
    let mut spec = JsonSpec::new();
    spec.annotations.insert("resources.limits.cpu".to_string(), "9".to_string());
    spec.linux = Some(Linux {
        resources: Some(LinuxResources {
            cpu: Some(LinuxCpu { shares: Some(shares), quota: None, period: None }),
            memory: None,
            pids: Some(LinuxPids { limit: pids }),
        }),
    });
    ContainerData { spec: Some(spec) }
}

fn sandbox() -> ResourceSlotSandbox {
    ResourceSlotSandbox::new("sb", SandboxData { spec: None })
}

#[test]
fn appended_container_has_the_resources_of_its_document() {
    let mut sb = sandbox();
    assert_eq!(sb.append_container("c1", ContainerOption { container: container(512, 10) }), Ok(()));
    let found = sb.container("c1").unwrap();
    assert_eq!(*found.resource_info(), ResourceInfo::from_container_data(&container(512, 10)));
    assert_eq!(found.resource_info().cpu_request, Some(CpuAmount::Shares(512)));
    assert_eq!(found.resource_info().pid_limit, Some(10));
    assert_eq!(found.resource_info().cpu_limit, None);
    let data = found.get_data().unwrap();
    assert_eq!(ResourceInfo::from_container_data(&data), *found.resource_info());
    assert_eq!(sb.container_count(), 1);
}

#[test]
fn container_made_alone_reads_its_document() {
    let made = ResourceSlotContainer::new(container(2048, 3));
    assert_eq!(made.resource_info().cpu_request, Some(CpuAmount::Shares(2048)));
    assert_eq!(made.resource_info().pid_limit, Some(3));
}

#[test]
fn removed_container_is_not_found() {
    let mut sb = sandbox();
    sb.append_container("c1", ContainerOption { container: container(1, 1) }).unwrap();
    sb.append_container("c2", ContainerOption { container: container(2, 2) }).unwrap();
    assert_eq!(sb.remove_container("c1"), Ok(()));
    assert_eq!(sb.container("c1").err(), Some(Error::NotFound("c1".to_string())));
    assert_eq!(sb.container("c2").unwrap().resource_info().pid_limit, Some(2));
    assert_eq!(sb.container_count(), 1);
    assert_eq!(sb.remove_container("c1"), Err(Error::NotFound("c1".to_string())));
}

#[test]
fn absent_container_fails_with_not_found() {
    let mut sb = sandbox();
    assert_eq!(sb.container("c").err(), Some(Error::NotFound("c".to_string())));
    assert_eq!(
        sb.update_container("c", ContainerOption { container: container(1, 1) }),
        Err(Error::NotFound("c".to_string()))
    );
    assert_eq!(sb.remove_container("c"), Err(Error::NotFound("c".to_string())));
    assert_eq!(sb.container_count(), 0);
}

#[test]
fn append_under_a_taken_id_fails_and_keeps_the_first() {
    let mut sb = sandbox();
    sb.append_container("c", ContainerOption { container: container(100, 1) }).unwrap();
    assert_eq!(
        sb.append_container("c", ContainerOption { container: container(200, 2) }),
        Err(Error::AlreadyExists("c".to_string()))
    );
    assert_eq!(sb.container("c").unwrap().resource_info().cpu_request, Some(CpuAmount::Shares(100)));
    assert_eq!(sb.container("c").unwrap().resource_info().pid_limit, Some(1));
    assert_eq!(sb.container_count(), 1);
}

#[test]
fn update_container_replaces_whole() {
    let mut sb = sandbox();
    sb.append_container("c", ContainerOption { container: container(100, 1) }).unwrap();
    assert_eq!(sb.update_container("c", ContainerOption { container: ContainerData { spec: None } }), Ok(()));
    assert_eq!(*sb.container("c").unwrap().resource_info(), ResourceInfo::default());
    assert_eq!(sb.update_container("c", ContainerOption { container: container(7, 8) }), Ok(()));
    assert_eq!(sb.container("c").unwrap().resource_info().cpu_request, Some(CpuAmount::Shares(7)));
    assert_eq!(sb.container("c").unwrap().resource_info().pid_limit, Some(8));
    assert_eq!(sb.container_count(), 1);
}

#[test]
fn many_appends_with_distinct_ids_all_appear() {
    let mut sb = sandbox();
    let mut expected: Vec<String> = Vec::new();
    for i in 0..50u64 {
        let id = format!("c{}", i);
        assert_eq!(sb.append_container(&id, ContainerOption { container: container(i, i as i64) }), Ok(()));
        expected.push(id);
    }
    assert_eq!(sb.container_count(), 50);
    let mut ids = sb.container_ids();
    ids.sort();
    expected.sort();
    assert_eq!(ids, expected);
    for i in 0..50u64 {
        let found = sb.container(&format!("c{}", i)).unwrap();
        assert_eq!(found.resource_info().cpu_request, Some(CpuAmount::Shares(i)));
        assert_eq!(found.resource_info().pid_limit, Some(i as u32));
    }
}

#[test]
fn container_operations_leave_the_sandbox_itself() {
    let mut sb = sandbox();
    sb.start_at(time::OffsetDateTime::UNIX_EPOCH);
    sb.append_container("c", ContainerOption { container: container(1, 1) }).unwrap();
    sb.update_container("c", ContainerOption { container: container(2, 2) }).unwrap();
    sb.remove_container("c").unwrap();
    assert_eq!(sb.status(), Ok(SandboxStatus::Running(0)));
    assert_eq!(sb.started_at(), Some(time::OffsetDateTime::UNIX_EPOCH));
    assert_eq!(*sb.resource_info(), ResourceInfo::default());
    assert_eq!(sb.id(), "sb");
}

#[test]
fn container_ids_belong_to_their_sandbox_only() {
    let mut registry = ResourceSlotSandboxer::new();
    let plain = || SandboxOption { base_dir: String::new(), sandbox: SandboxData { spec: None } };
    registry.create("a", plain()).unwrap();
    registry.create("b", plain()).unwrap();
    assert_eq!(registry.append_container("a", "c", ContainerOption { container: container(1, 1) }), Ok(()));
    assert_eq!(registry.append_container("b", "c", ContainerOption { container: container(2, 2) }), Ok(()));
    assert_eq!(registry.container("a", "c").unwrap().resource_info().pid_limit, Some(1));
    assert_eq!(registry.container("b", "c").unwrap().resource_info().pid_limit, Some(2));
    assert_eq!(registry.remove_container("a", "c"), Ok(()));
    assert_eq!(registry.container("a", "c").err(), Some(Error::NotFound("c".to_string())));
    assert_eq!(registry.container("b", "c").unwrap().resource_info().pid_limit, Some(2));
    assert_eq!(registry.sandbox("a").unwrap().container_count(), 0);
    assert_eq!(registry.sandbox("b").unwrap().container_count(), 1);
}

#[test]
fn registry_container_operations_report_what_is_absent() {
    let mut registry = ResourceSlotSandboxer::new();
    registry
        .create("a", SandboxOption { base_dir: String::new(), sandbox: SandboxData { spec: None } })
        .unwrap();
    let option = || ContainerOption { container: container(1, 1) };
    assert_eq!(registry.append_container("ghost", "c", option()), Err(Error::NotFound("ghost".to_string())));
    assert_eq!(registry.update_container("ghost", "c", option()), Err(Error::NotFound("ghost".to_string())));
    assert_eq!(registry.remove_container("ghost", "c"), Err(Error::NotFound("ghost".to_string())));
    assert_eq!(registry.container("ghost", "c").err(), Some(Error::NotFound("ghost".to_string())));
    assert_eq!(registry.update_container("a", "c", option()), Err(Error::NotFound("c".to_string())));
    assert_eq!(registry.remove_container("a", "c"), Err(Error::NotFound("c".to_string())));
    assert_eq!(registry.append_container("a", "c", option()), Ok(()));
    assert_eq!(registry.append_container("a", "c", option()), Err(Error::AlreadyExists("c".to_string())));
    assert_eq!(
        registry.update_container("a", "c", ContainerOption { container: container(5, 6) }),
        Ok(())
    );
    assert_eq!(registry.container("a", "c").unwrap().resource_info().pid_limit, Some(6));
    assert_eq!(registry.len(), 1);
}
