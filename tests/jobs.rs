use device_state_sync::job::{
    create_job_outcome, create_new_job_from_spec, remove_job_outcome, ContainerResources, OwnershipInfo,
    OwnershipType, PodTemplate,
};
use device_state_sync::properties::Properties;
use device_state_sync::store::StoreError;

fn resources(entries: &[(&str, &str)]) -> Properties {
    let mut p = Properties::new();
    for (k, v) in entries {
        p.insert(k.to_string(), v.to_string());
    }
    p
}

fn api_error(code: u16) -> StoreError {
    StoreError::Api { code, message: "answer".to_string() }
}

fn template() -> PodTemplate {
    PodTemplate {
        containers: vec![
            ContainerResources { limits: resources(&[("memory", "64Mi")]), requests: resources(&[]) },
            ContainerResources { limits: resources(&[]), requests: resources(&[("cpu", "10m")]) },
        ],
        init_containers: vec![],
    }
}

#[test]
fn job_name_and_labels() {
    let ownership = OwnershipInfo::new(OwnershipType::Instance, "capability_instance".to_string(), "instance_uid".to_string());
    let job = create_new_job_from_spec(
        "job_namespace",
        "udev.dev-1",
        "capability_config",
        ownership,
        "akri.sh/capability_name",
        true,
        &template(),
    );
    assert_eq!(job.name, "udev-dev-1-job");
    assert_eq!(job.namespace, "job_namespace");
    assert_eq!(job.labels.len(), 4);
    assert_eq!(job.labels.get(&"app".to_string()).unwrap(), "udev-dev-1-job");
    assert_eq!(job.labels.get(&"controller".to_string()).unwrap(), "akri.sh");
    assert_eq!(job.labels.get(&"akri.sh/configuration".to_string()).unwrap(), "capability_config");
    assert_eq!(job.labels.get(&"akri.sh/instance".to_string()).unwrap(), "udev.dev-1");
}

#[test]
fn job_name_ignores_shared_flag() {
    let a = create_new_job_from_spec(
        "ns",
        "dev",
        "cfg",
        OwnershipInfo::new(OwnershipType::Configuration, "cfg".to_string(), "u".to_string()),
        "r",
        true,
        &template(),
    );
    let b = create_new_job_from_spec(
        "ns",
        "dev",
        "cfg",
        OwnershipInfo::new(OwnershipType::Configuration, "cfg".to_string(), "u".to_string()),
        "r",
        false,
        &template(),
    );
    assert_eq!(a.name, "dev-job");
    assert_eq!(a.name, b.name);
}

#[test]
fn job_owner_reference() {
    let job = create_new_job_from_spec(
        "ns",
        "dev",
        "cfg",
        OwnershipInfo::new(OwnershipType::Instance, "dev".to_string(), "uid-1".to_string()),
        "r",
        false,
        &template(),
    );
    assert_eq!(job.owner_references.len(), 1);
    let o = &job.owner_references[0];
    assert_eq!(o.api_version, "akri.sh/v0");
    assert_eq!(o.kind, "Instance");
    assert!(o.controller);
    assert!(o.block_owner_deletion);
    assert_eq!(o.name, "dev");
    assert_eq!(o.uid, "uid-1");
    let pod_owner = OwnershipInfo::new(OwnershipType::Pod, "p".to_string(), "u".to_string());
    assert_eq!(pod_owner.get_api_version(), "core/v1");
    assert_eq!(pod_owner.get_kind(), "Pod");
    let cfg_owner = OwnershipInfo::new(OwnershipType::Configuration, "c".to_string(), "u".to_string());
    assert_eq!(cfg_owner.get_kind(), "Configuration");
    let svc_owner = OwnershipInfo::new(OwnershipType::Service, "s".to_string(), "u".to_string());
    assert_eq!(svc_owner.get_kind(), "Service");
}

#[test]
fn job_resource_injected_into_copy() {
    let original = template();
    let job = create_new_job_from_spec(
        "ns",
        "dev",
        "cfg",
        OwnershipInfo::new(OwnershipType::Instance, "dev".to_string(), "u".to_string()),
        "akri.sh/udev-8120fe",
        false,
        &original,
    );
    assert_eq!(job.pod.containers.len(), 2);
    let first = &job.pod.containers[0];
    assert_eq!(first.limits.get(&"akri.sh/udev-8120fe".to_string()).unwrap(), "1");
    assert_eq!(first.limits.get(&"memory".to_string()).unwrap(), "64Mi");
    assert_eq!(first.requests.get(&"akri.sh/udev-8120fe".to_string()).unwrap(), "1");
    let second = &job.pod.containers[1];
    assert_eq!(second.requests.get(&"cpu".to_string()).unwrap(), "10m");
    assert_eq!(second.limits.len(), 1);
    assert!(job.pod.init_containers.is_empty());
    assert_eq!(original.containers[0].limits.len(), 1);
    assert!(original.containers[0].requests.is_empty());
}

#[test]
fn submit_twice_is_not_an_error() {
    assert!(create_job_outcome(Ok(())).is_ok());
    assert!(create_job_outcome(Err(api_error(409))).is_ok());
}

#[test]
fn submit_failure_is_reported() {
    assert!(matches!(create_job_outcome(Err(api_error(500))), Err(StoreError::Api { code: 500, .. })));
    assert!(matches!(create_job_outcome(Err(api_error(404))), Err(StoreError::Api { code: 404, .. })));
    let transport = StoreError::Transport { message: "refused".to_string() };
    assert!(matches!(create_job_outcome(Err(transport)), Err(StoreError::Transport { .. })));
}

#[test]
fn remove_missing_is_not_an_error() {
    assert!(remove_job_outcome(Ok(())).is_ok());
    assert!(remove_job_outcome(Err(api_error(404))).is_ok());
    assert!(matches!(remove_job_outcome(Err(api_error(409))), Err(StoreError::Api { code: 409, .. })));
    let transport = StoreError::Transport { message: "refused".to_string() };
    assert!(remove_job_outcome(Err(transport)).is_err());
}
