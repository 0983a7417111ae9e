use radvisor::polling::providers::cgroups as oldest;
use radvisor::polling::providers::{docker, kubernetes};
use radvisor::util::cgroup::{
    build_systemd_cgroup_hierarchy, cgroup_exists, cgroup_v1_subsystems, cgroups_mounted_properly,
    escape_systemd, try_resolve_version, CgroupDriver, CgroupManager, CgroupSlices, CgroupVersion,
    GetCgroupError,
};
use radvisor::util::cgroups;
use radvisor::polling::providers::kubernetes::{QualityOfService, StartCollectionError};
use radvisor::polling::providers::{poll_steps, InitializationError, PollStep};
use radvisor::shared::CollectionMethod;
use std::collections::HashSet;

fn exists_in(paths: &[&str]) -> impl Fn(&str) -> bool {
    let set: HashSet<String> = paths.iter().map(|p| p.to_string()).collect();
    move |p: &str| set.contains(p)
}

#[test]
fn escape_replaces_hyphens() {
    assert_eq!(escape_systemd("pod1234-5678-9"), "pod1234_5678_9");
    assert_eq!(escape_systemd("plain"), "plain");
}

#[test]
fn systemd_hierarchy_accumulates_slices() {
    assert_eq!(
        build_systemd_cgroup_hierarchy(&["kubepods", "burstable", "pod1234-5678"]),
        vec![
            "kubepods.slice".to_string(),
            "kubepods-burstable.slice".to_string(),
            "kubepods-burstable-pod1234_5678.slice".to_string(),
        ]
    );
    assert!(build_systemd_cgroup_hierarchy(&[]).is_empty());
    assert!(build_systemd_cgroup_hierarchy(&[""]).is_empty());
}

#[test]
fn driver_and_version_names() {
    assert_eq!(CgroupDriver::Systemd.name(), "systemd");
    assert_eq!(CgroupDriver::Cgroupfs.name(), "cgroupfs");
    assert_eq!(CgroupVersion::V1.name(), "v1");
    assert_eq!(CgroupVersion::V2.name(), "v2");
    assert_eq!(cgroup_v1_subsystems()[0], "cpuacct");
    assert_eq!(cgroup_v1_subsystems().len(), 13);
}

#[test]
fn slices_pick_and_join() {
    let slices = CgroupSlices { cgroupfs: &["docker", "abc"], systemd: &["system.slice", "docker-abc.scope"] };
    assert_eq!(slices.pick_and_join(CgroupDriver::Cgroupfs), "docker/abc");
    assert_eq!(slices.pick_and_join(CgroupDriver::Systemd), "system.slice/docker-abc.scope");
}

#[test]
fn cgroup_exists_checks_paths() {
    let probe = exists_in(&["/sys/fs/cgroup/memory/docker/abc", "/sys/fs/cgroup/x"]);
    assert!(cgroup_exists(Some("docker/abc"), CgroupVersion::V1, &probe));
    assert!(!cgroup_exists(Some("docker/zzz"), CgroupVersion::V1, &probe));
    assert!(cgroup_exists(Some("x"), CgroupVersion::V2, &probe));
    assert!(!cgroup_exists(None, CgroupVersion::V2, &probe));
    assert!(cgroups_mounted_properly(&exists_in(&["/sys/fs/cgroup"])));
    assert!(!cgroups_mounted_properly(&exists_in(&[])));
}

#[test]
fn version_detection() {
    assert_eq!(try_resolve_version(&exists_in(&["/sys/fs/cgroup/cgroup.controllers"])), Some(CgroupVersion::V2));
    assert_eq!(try_resolve_version(&exists_in(&["/sys/fs/cgroup/pids"])), Some(CgroupVersion::V1));
    assert_eq!(try_resolve_version(&exists_in(&[])), None);
}

#[test]
fn manager_resolves_systemd_first_and_keeps_driver() {
    let probe = exists_in(&[
        "/sys/fs/cgroup/cgroup.controllers",
        "/sys/fs/cgroup/system.slice/docker-abc.scope",
        "/sys/fs/cgroup/docker/def",
    ]);
    let mut manager = CgroupManager::new();
    assert_eq!(manager.driver(), None);
    let found = manager.get_cgroup(
        CgroupSlices { cgroupfs: &["docker", "abc"], systemd: &["system.slice", "docker-abc.scope"] },
        &probe,
    );
    let path = found.ok().unwrap();
    assert_eq!(path.path, "system.slice/docker-abc.scope");
    assert_eq!(path.driver, CgroupDriver::Systemd);
    assert_eq!(path.version, CgroupVersion::V2);
    assert_eq!(manager.driver(), Some(CgroupDriver::Systemd));
    assert_eq!(manager.version(), Some(CgroupVersion::V2));
    let missing = manager.get_cgroup(
        CgroupSlices { cgroupfs: &["docker", "def"], systemd: &["system.slice", "docker-def.scope"] },
        &probe,
    );
    assert_eq!(missing.err(), Some(GetCgroupError::NotFound("system.slice/docker-def.scope".to_string())));
    assert_eq!(manager.driver(), Some(CgroupDriver::Systemd));
}

#[test]
fn manager_falls_back_to_cgroupfs() {
    let probe = exists_in(&["/sys/fs/cgroup/cpuacct", "/sys/fs/cgroup/cpuacct/docker/abc"]);
    let mut manager = CgroupManager::new();
    let found = manager.get_cgroup(
        CgroupSlices { cgroupfs: &["docker", "abc"], systemd: &["system.slice", "docker-abc.scope"] },
        &probe,
    );
    let path = found.ok().unwrap();
    assert_eq!(path.path, "docker/abc");
    assert_eq!(path.driver, CgroupDriver::Cgroupfs);
    assert_eq!(path.version, CgroupVersion::V1);
}

#[test]
fn manager_without_cgroups_fails_detection() {
    let mut manager = CgroupManager::new();
    let r = manager.get_cgroup(CgroupSlices { cgroupfs: &["a"], systemd: &["b"] }, &exists_in(&[]));
    assert_eq!(r.err(), Some(GetCgroupError::VersionDetectionFailed));
    let r = manager.get_cgroup_v1(CgroupSlices { cgroupfs: &["a"], systemd: &["b"] }, &exists_in(&["/sys/fs/cgroup/cgroup.controllers"]));
    assert_eq!(r.err(), Some(GetCgroupError::CgroupV1NotEnabled));
}

#[test]
fn rooted_paths_for_each_driver() {
    assert_eq!(
        cgroups::make(cgroups::CgroupDriver::Systemd, &["kubepods", "burstable", "pod1234-5678"]),
        "/kubepods.slice/kubepods-burstable.slice/kubepods-burstable-pod1234_5678.slice"
    );
    assert_eq!(
        cgroups::make(cgroups::CgroupDriver::Cgroupfs, &["kubepods", "burstable", "pod1234-5678"]),
        "/kubepods/burstable/pod1234_5678"
    );
    assert_eq!(cgroups::make(cgroups::CgroupDriver::Systemd, &[""]), "");
}

#[test]
fn absolute_paths_for_each_driver() {
    assert_eq!(
        oldest::make(oldest::CgroupDriver::Systemd, &["kubepods", "burstable", "pod1234-5678"]),
        "/kubepods.slice/kubepods-burstable.slice/kubepods-burstable-pod1234_5678.slice"
    );
    assert_eq!(
        oldest::make(oldest::CgroupDriver::Cgroupfs, &["kubepods", "burstable", "pod1234-5678"]),
        "/kubepods/burstable/pod1234_5678"
    );
    assert_eq!(oldest::make(oldest::CgroupDriver::Systemd, &[]), "/");
}

#[test]
fn absolute_manager_resolves_driver() {
    let probe = exists_in(&["/sys/fs/cgroup/cpuacct/docker/abc"]);
    let mut manager = oldest::CgroupManager::new();
    assert_eq!(
        manager.make_cgroup_divided(&["system.slice", "docker-abc.scope"], &["docker", "abc"], &probe),
        Some("/docker/abc".to_string())
    );
    assert_eq!(manager.driver(), Some(oldest::CgroupDriver::Cgroupfs));
    assert_eq!(manager.make_cgroup(&["docker", "zzz"], &probe), None);
    assert!(oldest::cgroups_mounted_properly(&exists_in(&["/sys/fs/cgroup/cpuacct"])));
}

#[test]
fn docker_container_cgroup() {
    let probe = exists_in(&["/sys/fs/cgroup/cgroup.controllers", "/sys/fs/cgroup/system.slice/docker-abc.scope"]);
    let mut manager = CgroupManager::new();
    let found = docker::get_cgroup(&mut manager, "abc", &probe).unwrap();
    assert_eq!(found.path, "system.slice/docker-abc.scope");
    assert_eq!(found.driver, CgroupDriver::Systemd);
    assert_eq!(found.version, CgroupVersion::V2);
    assert_eq!(manager.driver(), Some(CgroupDriver::Systemd));
    assert!(docker::get_cgroup(&mut manager, "zzz", &probe).is_none());
}

#[test]
fn docker_display_name() {
    let names = vec!["/web".to_string(), "/other".to_string()];
    assert_eq!(docker::display(&names, "abc"), "/web");
    assert_eq!(docker::display(&[], "abc"), "abc");
}

#[test]
fn kubernetes_pod_cgroup() {
    let probe = exists_in(&[
        "/sys/fs/cgroup/cpuacct",
        "/sys/fs/cgroup/cpuacct/kubepods.slice/kubepods-burstable.slice/kubepods-burstable-pod12_34.slice",
        "/sys/fs/cgroup/cpuacct/kubepods/besteffort/pod99",
    ]);
    let mut manager = CgroupManager::new();
    let found = kubernetes::get_cgroup(&mut manager, "12-34", QualityOfService::Burstable, &probe).unwrap();
    assert_eq!(
        found.path,
        "kubepods.slice/kubepods-burstable.slice/kubepods-burstable-pod12_34.slice"
    );
    assert_eq!(found.driver, CgroupDriver::Systemd);
    assert_eq!(found.version, CgroupVersion::V1);
    let mut fresh = CgroupManager::new();
    let fs = kubernetes::get_cgroup(&mut fresh, "99", QualityOfService::BestEffort, &probe).unwrap();
    assert_eq!(fs.path, "kubepods/besteffort/pod99");
    assert_eq!(fs.driver, CgroupDriver::Cgroupfs);
}

#[test]
fn kubernetes_quality_of_service() {
    assert_eq!(QualityOfService::from_class(Some("Burstable")), Some(QualityOfService::Burstable));
    assert_eq!(QualityOfService::from_class(Some("BestEffort")), Some(QualityOfService::BestEffort));
    assert_eq!(QualityOfService::from_class(Some("guaranteed")), Some(QualityOfService::Guaranteed));
    assert_eq!(QualityOfService::from_class(Some("Best-Effort")), None);
    assert_eq!(QualityOfService::from_class(None), None);
    assert_eq!(QualityOfService::BestEffort.name(), "besteffort");
}

#[test]
fn kubernetes_messages() {
    assert_eq!(kubernetes::name(Some("pod-a")), "pod-a");
    assert_eq!(kubernetes::name(None), "~");
    assert_eq!(
        StartCollectionError::CgroupNotFound.display(None, Some("uid-1"), None),
        "Could not create pod metadata for pod uid-1: cgroup path could not be constructed or does not exist"
    );
    assert_eq!(
        StartCollectionError::FailedQosParse.display(Some("web"), Some("uid-1"), Some("Odd")),
        "Could not parse quality of service class for pod web: invalid value 'Odd'"
    );
    assert_eq!(
        StartCollectionError::MissingPodUid.display(None, None, None),
        "Could not get uid for node ~! This shouldn't happen"
    );
    assert_eq!(
        StartCollectionError::MetadataSerializationError("bad".to_string()).display(Some("web"), None, None),
        "Could not serialize metadata for pod web: bad"
    );
    let e = kubernetes::KubernetesInitError::InvalidHostnameError("\"h\\xff\"".to_string());
    assert_eq!(
        e.suggestion(),
        "Could not retrieve hostname to use for node detection: Invalid string '\"h\\xff\"' returned"
    );
    assert!(e.original().is_none());
    let f = kubernetes::KubernetesInitError::NodeFetchError("timeout".to_string());
    assert_eq!(f.original(), Some(&"timeout".to_string()));
}

#[test]
fn kubernetes_collection_method() {
    let probe = exists_in(&[
        "/sys/fs/cgroup/cpuacct",
        "/sys/fs/cgroup/cpuacct/kubepods/guaranteed/pod77",
    ]);
    let mut manager = CgroupManager::new();
    match kubernetes::get_collection_method(&mut manager, "77", Some("Guaranteed"), &probe) {
        Ok(CollectionMethod::LinuxCgroups(cp)) => {
            assert_eq!(cp.path, "kubepods/guaranteed/pod77");
            assert_eq!(cp.driver, CgroupDriver::Cgroupfs);
        },
        Err(_) => panic!("pod cgroup should be found"),
    }
    assert!(matches!(
        kubernetes::get_collection_method(&mut manager, "77", Some("Unknown"), &probe),
        Err(StartCollectionError::FailedQosParse)
    ));
    assert!(matches!(
        kubernetes::get_collection_method(&mut manager, "77", None, &probe),
        Err(StartCollectionError::FailedQosParse)
    ));
    assert!(matches!(
        kubernetes::get_collection_method(&mut manager, "78", Some("guaranteed"), &probe),
        Err(StartCollectionError::CgroupNotFound)
    ));
}

#[test]
fn docker_collection_method() {
    let probe = exists_in(&["/sys/fs/cgroup/cgroup.controllers", "/sys/fs/cgroup/docker/abc"]);
    let mut manager = CgroupManager::new();
    match docker::get_collection_method(&mut manager, "abc", &probe) {
        Ok(CollectionMethod::LinuxCgroups(cp)) => {
            assert_eq!(cp.path, "docker/abc");
            assert_eq!(cp.driver, CgroupDriver::Cgroupfs);
            assert_eq!(cp.version, CgroupVersion::V2);
        },
        Err(_) => panic!("container cgroup should be found"),
    }
    assert!(matches!(
        docker::get_collection_method(&mut manager, "zzz", &probe),
        Err(docker::StartCollectionError::CgroupNotFound)
    ));
}

#[test]
fn poll_steps_stop_then_start() {
    let added = vec!["b".to_string(), "c".to_string()];
    let removed = vec!["a".to_string()];
    let steps = poll_steps(&added, &removed);
    assert_eq!(steps.len(), 3);
    assert!(matches!(&steps[0], PollStep::Stop(id) if id == "a"));
    assert!(matches!(&steps[1], PollStep::Start(id) if id == "b"));
    assert!(matches!(&steps[2], PollStep::Start(id) if id == "c"));
}

#[test]
fn initialization_errors_from_providers() {
    let d = InitializationError::from_docker(docker::DockerInitError::ConnectionFailed("refused".to_string()));
    assert!(d.suggestion.starts_with("Could not connect to the docker socket."));
    assert_eq!(d.original, Some("refused".to_string()));
    let k = InitializationError::from_kubernetes(kubernetes::KubernetesInitError::NodeDetectionError);
    assert!(k.suggestion.starts_with("Could not get the current node"));
    assert_eq!(k.original, None);
}
