use resource_slot::data::{JsonSpec, Linux, LinuxCpu, LinuxMemory, LinuxResources, SandboxData};
use resource_slot::error::Error;
use resource_slot::resource::{CpuAmount, ResourceInfo};
use resource_slot::sandbox::{ResourceSlotSandbox, SandboxOption, SandboxStatus};
use resource_slot::sandboxer::ResourceSlotSandboxer;
use time::OffsetDateTime;

fn plain() -> SandboxOption {
    SandboxOption { base_dir: String::new(), sandbox: SandboxData { spec: None } }
}

fn with_memory(limit: i64) -> SandboxData {
    let mut spec = JsonSpec::new();
    spec.linux = Some(Linux {
        resources: Some(LinuxResources {
            cpu: None,
            memory: Some(LinuxMemory { limit: Some(limit) }),
            pids: None,
        }),
    });
    SandboxData { spec: Some(spec) }
}

fn instant(seconds: i64) -> OffsetDateTime {
    OffsetDateTime::from_unix_timestamp(seconds).unwrap()
}

#[test]
fn absent_ids_fail_with_not_found() {
    let mut registry = ResourceSlotSandboxer::default();
    registry.create("present", plain()).unwrap();
    assert_eq!(registry.sandbox("ghost").err(), Some(Error::NotFound("ghost".to_string())));
    assert_eq!(registry.start("ghost"), Err(Error::NotFound("ghost".to_string())));
    assert_eq!(registry.start_at("ghost", instant(1)), Err(Error::NotFound("ghost".to_string())));
    assert_eq!(
        registry.update("ghost", SandboxData { spec: None }),
        Err(Error::NotFound("ghost".to_string()))
    );
    assert_eq!(registry.stop("ghost", false), Err(Error::NotFound("ghost".to_string())));
    assert_eq!(registry.stop("ghost", true), Err(Error::NotFound("ghost".to_string())));
    assert_eq!(registry.len(), 1);
    assert_eq!(registry.sandbox("present").unwrap().status(), Ok(SandboxStatus::Created));
}

#[test]
fn empty_registry_knows_no_id() {
    let mut registry = ResourceSlotSandboxer::new();
    assert_eq!(registry.len(), 0);
    assert!(registry.ids().is_empty());
    assert!(!registry.contains(""));
    assert!(registry.sandbox("").is_err());
    assert!(registry.start("a").unwrap_err().is_not_found());
}

#[test]
fn created_sandbox_is_fresh() {
    let mut registry = ResourceSlotSandboxer::new();
    assert_eq!(registry.create("sb", plain()), Ok(()));
    let sandbox = registry.sandbox("sb").unwrap();
    assert_eq!(sandbox.id(), "sb");
    assert_eq!(sandbox.status(), Ok(SandboxStatus::Created));
    assert_eq!(sandbox.container_count(), 0);
    assert!(sandbox.container_ids().is_empty());
    assert_eq!(sandbox.started_at(), None);
    assert_eq!(sandbox.exit_signal(), Ok(false));
    assert_eq!(sandbox.ping(), Ok(()));
    assert_eq!(*sandbox.resource_info(), ResourceInfo::default());
    assert!(registry.contains("sb"));
    assert_eq!(registry.ids(), vec!["sb".to_string()]);
}

#[test]
fn create_reads_the_resources() {
    let mut registry = ResourceSlotSandboxer::new();
    registry
        .create("sb", SandboxOption { base_dir: "/run/sb".to_string(), sandbox: with_memory(4096) })
        .unwrap();
    let sandbox = registry.sandbox("sb").unwrap();
    assert_eq!(sandbox.resource_info().memory_limit, Some(4096));
    let data = sandbox.get_data().unwrap();
    assert_eq!(ResourceInfo::from_sandbox_data(&data), *sandbox.resource_info());
}

#[test]
fn create_under_a_taken_id_fails_and_keeps_the_first() {
    let mut registry = ResourceSlotSandboxer::new();
    registry.create("sb", SandboxOption { base_dir: String::new(), sandbox: with_memory(1) }).unwrap();
    registry.start_at("sb", instant(5)).unwrap();
    let again = registry.create("sb", SandboxOption { base_dir: String::new(), sandbox: with_memory(2) });
    assert_eq!(again, Err(Error::AlreadyExists("sb".to_string())));
    assert!(again.unwrap_err().is_already_exists());
    let sandbox = registry.sandbox("sb").unwrap();
    assert_eq!(sandbox.resource_info().memory_limit, Some(1));
    assert_eq!(sandbox.status(), Ok(SandboxStatus::Running(0)));
    assert_eq!(registry.len(), 1);
}

#[test]
fn second_start_keeps_the_first_time() {
    let mut registry = ResourceSlotSandboxer::new();
    registry.create("sb", plain()).unwrap();
    assert_eq!(registry.start_at("sb", instant(1_700_000_000)), Ok(()));
    let first = registry.sandbox("sb").unwrap().started_at();
    assert_eq!(first, Some(instant(1_700_000_000)));
    assert_eq!(registry.start_at("sb", instant(1_800_000_000)), Ok(()));
    assert_eq!(registry.sandbox("sb").unwrap().started_at(), first);
    assert_eq!(registry.sandbox("sb").unwrap().status(), Ok(SandboxStatus::Running(0)));
}

#[test]
fn start_by_the_clock_records_a_time_once() {
    let mut registry = ResourceSlotSandboxer::new();
    registry.create("sb", plain()).unwrap();
    let before = OffsetDateTime::now_utc();
    assert_eq!(registry.start("sb"), Ok(()));
    let after = OffsetDateTime::now_utc();
    let first = registry.sandbox("sb").unwrap().started_at().unwrap();
    assert!(before <= first && first <= after);
    assert_eq!(registry.start("sb"), Ok(()));
    assert_eq!(registry.sandbox("sb").unwrap().started_at(), Some(first));
}

#[test]
fn start_after_stop_runs_again_with_the_first_time() {
    let mut sandbox = ResourceSlotSandbox::new("sb", SandboxData { spec: None });
    sandbox.start_at(instant(10));
    assert!(sandbox.stop(false));
    sandbox.start_at(instant(20));
    assert_eq!(sandbox.status(), Ok(SandboxStatus::Running(0)));
    assert_eq!(sandbox.started_at(), Some(instant(10)));
}

#[test]
fn update_replaces_description_and_resources_whole() {
    let mut registry = ResourceSlotSandboxer::new();
    let mut spec = JsonSpec::new();
    spec.annotations.insert("resources.limits.cpu".to_string(), "2".to_string());
    spec.linux = Some(Linux {
        resources: Some(LinuxResources {
            cpu: Some(LinuxCpu { shares: Some(1024), quota: None, period: None }),
            memory: Some(LinuxMemory { limit: Some(100) }),
            pids: None,
        }),
    });
    registry
        .create("sb", SandboxOption { base_dir: String::new(), sandbox: SandboxData { spec: Some(spec) } })
        .unwrap();
    registry.start_at("sb", instant(3)).unwrap();
    {
        let info = registry.sandbox("sb").unwrap().resource_info();
        assert_eq!(info.cpu_limit, Some(CpuAmount::Text("2".to_string())));
        assert_eq!(info.cpu_request, Some(CpuAmount::Shares(1024)));
        assert_eq!(info.memory_limit, Some(100));
    }
    assert_eq!(registry.update("sb", with_memory(7)), Ok(()));
    let sandbox = registry.sandbox("sb").unwrap();
    let info = sandbox.resource_info();
    assert_eq!(info.cpu_limit, None);
    assert_eq!(info.cpu_request, None);
    assert_eq!(info.memory_limit, Some(7));
    assert_eq!(sandbox.status(), Ok(SandboxStatus::Running(0)));
    assert_eq!(sandbox.started_at(), Some(instant(3)));
    let data = sandbox.get_data().unwrap();
    assert!(data.spec.unwrap().annotations.is_empty());
}

#[test]
fn stop_signals_once() {
    let mut registry = ResourceSlotSandboxer::new();
    registry.create("sb", plain()).unwrap();
    assert_eq!(registry.stop("sb", false), Ok(true));
    assert_eq!(registry.sandbox("sb").unwrap().status(), Ok(SandboxStatus::Stopped(0, 0)));
    assert_eq!(registry.sandbox("sb").unwrap().exit_signal(), Ok(true));
    assert_eq!(registry.stop("sb", false), Ok(false));
    assert_eq!(registry.stop("sb", true), Ok(false));
    assert_eq!(registry.sandbox("sb").unwrap().status(), Ok(SandboxStatus::Stopped(0, 0)));
}

#[test]
fn stop_after_a_restart_does_not_signal_again() {
    let mut sandbox = ResourceSlotSandbox::new("sb", SandboxData { spec: None });
    assert_eq!(sandbox.exit_signal(), Ok(false));
    sandbox.start_at(instant(1));
    assert_eq!(sandbox.exit_signal(), Ok(false));
    assert!(sandbox.stop(false));
    assert_eq!(sandbox.exit_signal(), Ok(true));
    sandbox.start_at(instant(2));
    assert_eq!(sandbox.status(), Ok(SandboxStatus::Running(0)));
    assert_eq!(sandbox.exit_signal(), Ok(true));
    assert!(!sandbox.stop(false));
    assert_eq!(sandbox.status(), Ok(SandboxStatus::Stopped(0, 0)));
    assert_eq!(sandbox.exit_signal(), Ok(true));
    assert!(!sandbox.stop(true));
}

#[test]
fn registry_stop_after_a_restart_does_not_signal_again() {
    let mut registry = ResourceSlotSandboxer::new();
    registry.create("sb", plain()).unwrap();
    assert_eq!(registry.stop("sb", false), Ok(true));
    assert_eq!(registry.start_at("sb", instant(4)), Ok(()));
    assert_eq!(registry.sandbox("sb").unwrap().exit_signal(), Ok(true));
    assert_eq!(registry.update("sb", with_memory(3)), Ok(()));
    assert_eq!(registry.sandbox("sb").unwrap().exit_signal(), Ok(true));
    assert_eq!(registry.stop("sb", false), Ok(false));
    assert_eq!(registry.sandbox("sb").unwrap().status(), Ok(SandboxStatus::Stopped(0, 0)));
}

#[test]
fn start_changes_status_and_time_only() {
    let mut sandbox = ResourceSlotSandbox::new("sb", with_memory(9));
    sandbox
        .append_container(
            "c",
            resource_slot::sandbox::ContainerOption {
                container: resource_slot::data::ContainerData { spec: None },
            },
        )
        .unwrap();
    sandbox.start_at(instant(1));
    assert_eq!(sandbox.id(), "sb");
    assert_eq!(sandbox.resource_info().memory_limit, Some(9));
    assert_eq!(sandbox.container_count(), 1);
    assert_eq!(sandbox.exit_signal(), Ok(false));
    assert_eq!(sandbox.status(), Ok(SandboxStatus::Running(0)));
    assert_eq!(sandbox.started_at(), Some(instant(1)));
}

#[test]
fn force_makes_no_difference() {
    let mut gentle = ResourceSlotSandbox::new("a", SandboxData { spec: None });
    let mut forced = ResourceSlotSandbox::new("a", SandboxData { spec: None });
    gentle.start_at(instant(1));
    forced.start_at(instant(1));
    assert_eq!(gentle.stop(false), forced.stop(true));
    assert_eq!(gentle.status(), forced.status());
    assert_eq!(gentle.started_at(), forced.started_at());
}

#[test]
fn delete_of_an_absent_id_succeeds_and_changes_nothing() {
    let mut registry = ResourceSlotSandboxer::new();
    registry.create("a", plain()).unwrap();
    registry.create("b", plain()).unwrap();
    registry.start_at("a", instant(9)).unwrap();
    assert_eq!(registry.delete("ghost"), Ok(()));
    assert_eq!(registry.len(), 2);
    let mut ids = registry.ids();
    ids.sort();
    assert_eq!(ids, vec!["a".to_string(), "b".to_string()]);
    assert_eq!(registry.sandbox("a").unwrap().status(), Ok(SandboxStatus::Running(0)));
    assert_eq!(registry.sandbox("a").unwrap().started_at(), Some(instant(9)));
    assert_eq!(registry.sandbox("b").unwrap().status(), Ok(SandboxStatus::Created));
}

#[test]
fn delete_removes_the_entry_and_only_it() {
    let mut registry = ResourceSlotSandboxer::new();
    registry.create("a", plain()).unwrap();
    registry.create("b", plain()).unwrap();
    assert_eq!(registry.delete("a"), Ok(()));
    assert!(registry.sandbox("a").err().unwrap().is_not_found());
    assert!(registry.sandbox("b").is_ok());
    assert_eq!(registry.delete("a"), Ok(()));
    assert_eq!(registry.len(), 1);
    assert_eq!(registry.create("a", plain()), Ok(()));
    assert_eq!(registry.sandbox("a").unwrap().status(), Ok(SandboxStatus::Created));
}

#[test]
fn sandboxes_do_not_touch_each_other() {
    let mut registry = ResourceSlotSandboxer::new();
    registry.create("a", plain()).unwrap();
    registry.create("b", plain()).unwrap();
    registry.create("c", plain()).unwrap();
    registry.start_at("b", instant(2)).unwrap();
    registry.stop("c", false).unwrap();
    assert_eq!(registry.sandbox("a").unwrap().status(), Ok(SandboxStatus::Created));
    assert_eq!(registry.sandbox("b").unwrap().status(), Ok(SandboxStatus::Running(0)));
    assert_eq!(registry.sandbox("c").unwrap().status(), Ok(SandboxStatus::Stopped(0, 0)));
    assert_eq!(registry.sandbox("a").unwrap().started_at(), None);
    assert_eq!(registry.sandbox("c").unwrap().started_at(), None);
}

#[test]
fn failure_names_its_id() {
    let missing = Error::not_found("x");
    assert_eq!(missing, Error::NotFound("x".to_string()));
    assert!(missing.is_not_found() && !missing.is_already_exists());
    assert_eq!(missing.subject(), "x");
    let taken = Error::already_exists("y");
    assert_eq!(taken, Error::AlreadyExists("y".to_string()));
    assert!(taken.is_already_exists() && !taken.is_not_found());
    assert_eq!(taken.subject(), "y");
}
