//! Broker jobs: their construction from a device, and the outcome of
//! submitting and removing them.
use vstd::prelude::*;
use crate::properties::Properties;
use crate::store::{StoreError, ERROR_CONFLICT, ERROR_NOT_FOUND};

verus! {

/// The API group of the agent's own resources.
pub const API_NAMESPACE: &'static str = "akri.sh";

/// The `apiVersion` of the agent's own resources.
pub const API_GROUP_VERSION: &'static str = "akri.sh/v0";

/// The `apiVersion` of core resources.
pub const CORE_API_VERSION: &'static str = "core/v1";

/// Label naming the application a broker belongs to.
pub const APP_LABEL_ID: &'static str = "app";

/// Label naming the controller of a broker.
pub const CONTROLLER_LABEL_ID: &'static str = "controller";

/// Label naming the configuration a broker serves.
pub const AKRI_CONFIGURATION_LABEL_NAME: &'static str = "akri.sh/configuration";

/// Label naming the device record a broker serves.
pub const AKRI_INSTANCE_LABEL_NAME: &'static str = "akri.sh/instance";

/// The quantity of the device resource that a broker's container asks for.
pub const RESOURCE_QUANTITY: &'static str = "1";

/// The suffix of a broker job's name.
pub const JOB_NAME_SUFFIX: &'static str = "-job";

/// The kind of object that owns a broker job.
#[derive(Clone, Copy, PartialEq, Eq, Structural)]
pub enum OwnershipType {
    Configuration,
    Instance,
    Pod,
    Service,
}

/// The object that owns a broker job.
pub struct OwnershipInfo {
    pub object_type: OwnershipType,
    pub name: String,
    pub uid: String,
}

/// The `apiVersion` of an owner of type `t`.
pub open spec fn api_version_of(t: OwnershipType) -> Seq<char> {
    match t {
        OwnershipType::Configuration | OwnershipType::Instance => API_GROUP_VERSION@,
        OwnershipType::Pod | OwnershipType::Service => CORE_API_VERSION@,
    }
}

/// The `kind` of an owner of type `t`.
pub open spec fn kind_of(t: OwnershipType) -> Seq<char> {
    match t {
        OwnershipType::Configuration => "Configuration"@,
        OwnershipType::Instance => "Instance"@,
        OwnershipType::Pod => "Pod"@,
        OwnershipType::Service => "Service"@,
    }
}

impl OwnershipInfo {
    pub fn new(object_type: OwnershipType, name: String, uid: String) -> (r: OwnershipInfo)
        ensures
            r.object_type == object_type,
            r.name == name,
            r.uid == uid,
    {
        OwnershipInfo { object_type, name, uid }
    }

    /// The `apiVersion` of the owner.
    pub fn get_api_version(&self) -> (r: String)
        ensures
            r@ == api_version_of(self.object_type),
    {
        match self.object_type {
            OwnershipType::Configuration | OwnershipType::Instance => API_GROUP_VERSION.to_owned(),
            OwnershipType::Pod | OwnershipType::Service => CORE_API_VERSION.to_owned(),
        }
    }

    /// The `kind` of the owner.
    pub fn get_kind(&self) -> (r: String)
        ensures
            r@ == kind_of(self.object_type),
    {
        proof {
            reveal_strlit("Configuration");
            reveal_strlit("Instance");
            reveal_strlit("Pod");
            reveal_strlit("Service");
        }
        match self.object_type {
            OwnershipType::Configuration => "Configuration".to_owned(),
            OwnershipType::Instance => "Instance".to_owned(),
            OwnershipType::Pod => "Pod".to_owned(),
            OwnershipType::Service => "Service".to_owned(),
        }
    }
}

/// A reference from a broker job to the object that owns it.
pub struct OwnerReference {
    pub api_version: String,
    pub kind: String,
    pub controller: bool,
    pub block_owner_deletion: bool,
    pub name: String,
    pub uid: String,
}

/// The resources that one container of a broker's pod asks for.
pub struct ContainerResources {
    pub limits: Properties,
    pub requests: Properties,
}

impl ContainerResources {
    pub open spec fn wf(&self) -> bool {
        self.limits.wf() && self.requests.wf()
    }
}

/// The resources of the containers of a broker's pod template.
pub struct PodTemplate {
    pub containers: Vec<ContainerResources>,
    pub init_containers: Vec<ContainerResources>,
}

/// Every container in `v` is well formed.
pub open spec fn all_wf(v: Seq<ContainerResources>) -> bool {
    forall|i: int| 0 <= i < v.len() ==> (#[trigger] v[i]).wf()
}

impl PodTemplate {
    pub open spec fn wf(&self) -> bool {
        all_wf(self.containers@) && all_wf(self.init_containers@)
    }
}

/// `after` is `before` with the device resource `resource` asked for by every
/// container, in its limits and in its requests.
pub open spec fn injected(before: Seq<ContainerResources>, after: Seq<ContainerResources>, resource: Seq<char>) -> bool {
    &&& after.len() == before.len()
    &&& all_wf(after)
    &&& forall|i: int| 0 <= i < before.len() ==> {
        &&& (#[trigger] after[i]).limits@ == before[i].limits@.insert(resource, RESOURCE_QUANTITY@)
        &&& after[i].requests@ == before[i].requests@.insert(resource, RESOURCE_QUANTITY@)
    }
}

/// A broker job, as it is handed to the store.
pub struct BrokerJob {
    pub name: String,
    pub namespace: String,
    pub labels: Properties,
    pub owner_references: Vec<OwnerReference>,
    pub pod: PodTemplate,
}

/// A device identifier with each `.` made a `-`.
pub open spec fn dashed(s: Seq<char>) -> Seq<char> {
    s.map_values(|c: char| if c == '.' { '-' } else { c })
}

/// The name of the broker job of device `instance`. The job builder never
/// places a broker on a given node, so shared and unshared devices are named
/// alike.
pub open spec fn job_name(instance: Seq<char>) -> Seq<char> {
    dashed(instance) + JOB_NAME_SUFFIX@
}

/// The labels of the broker job of device `instance` under configuration
/// `configuration`.
pub open spec fn job_labels(instance: Seq<char>, configuration: Seq<char>) -> Map<Seq<char>, Seq<char>> {
    Map::empty()
        .insert(APP_LABEL_ID@, job_name(instance))
        .insert(CONTROLLER_LABEL_ID@, API_NAMESPACE@)
        .insert(AKRI_CONFIGURATION_LABEL_NAME@, configuration)
        .insert(AKRI_INSTANCE_LABEL_NAME@, instance)
}

/// Relies on `str::replace`: each `.` of `s` becomes `-`, every other
/// character stays where it is.
#[verifier::external_body]
fn replace_dots(s: &str) -> (r: String)
    ensures
        r@ == dashed(s@),
{
    s.replace('.', "-")
}

/// Asks for `resource` in every container of `containers`, in copies.
fn inject_resource(containers: &Vec<ContainerResources>, resource: &str) -> (r: Vec<ContainerResources>)
    requires
        all_wf(containers@),
    ensures
        injected(containers@, r@, resource@),
{
    let mut out: Vec<ContainerResources> = Vec::new();
    let mut i: usize = 0;
    while i < containers.len()
        invariant
            i <= containers@.len(),
            all_wf(containers@),
            out@.len() == i,
            all_wf(out@),
            forall|j: int| 0 <= j < i ==> {
                &&& (#[trigger] out@[j]).limits@ == containers@[j].limits@.insert(resource@, RESOURCE_QUANTITY@)
                &&& out@[j].requests@ == containers@[j].requests@.insert(resource@, RESOURCE_QUANTITY@)
            },
        decreases containers@.len() - i,
    {
        let c = &containers[i];
        assert(c.wf());
        let mut limits = c.limits.copy();
        limits.insert(resource.to_owned(), RESOURCE_QUANTITY.to_owned());
        let mut requests = c.requests.copy();
        requests.insert(resource.to_owned(), RESOURCE_QUANTITY.to_owned());
        out.push(ContainerResources { limits, requests });
        i = i + 1;
    }
    out
}

/// Builds the broker job of device `instance_name`: its name is derived from
/// the device, it carries the four broker labels and one owner reference to
/// `ownership`, and every container of a copy of `job_spec` asks for
/// `resource_limit_name`.
pub fn create_new_job_from_spec(
    job_namespace: &str,
    instance_name: &str,
    configuration_name: &str,
    ownership: OwnershipInfo,
    resource_limit_name: &str,
    capability_is_shared: bool,
    job_spec: &PodTemplate,
) -> (r: BrokerJob)
    requires
        job_spec.wf(),
    ensures
        r.name@ == job_name(instance_name@),
        r.namespace@ == job_namespace@,
        r.labels.wf(),
        r.labels@ == job_labels(instance_name@, configuration_name@),
        r.owner_references@.len() == 1,
        r.owner_references@[0].api_version@ == api_version_of(ownership.object_type),
        r.owner_references@[0].kind@ == kind_of(ownership.object_type),
        r.owner_references@[0].controller,
        r.owner_references@[0].block_owner_deletion,
        r.owner_references@[0].name == ownership.name,
        r.owner_references@[0].uid == ownership.uid,
        r.pod.wf(),
        injected(job_spec.containers@, r.pod.containers@, resource_limit_name@),
        injected(job_spec.init_containers@, r.pod.init_containers@, resource_limit_name@),
{
    let app_name = replace_dots(instance_name).concat(JOB_NAME_SUFFIX);
    let mut labels = Properties::new();
    labels.insert(APP_LABEL_ID.to_owned(), app_name.clone());
    labels.insert(CONTROLLER_LABEL_ID.to_owned(), API_NAMESPACE.to_owned());
    labels.insert(AKRI_CONFIGURATION_LABEL_NAME.to_owned(), configuration_name.to_owned());
    labels.insert(AKRI_INSTANCE_LABEL_NAME.to_owned(), instance_name.to_owned());
    let owner = OwnerReference {
        api_version: ownership.get_api_version(),
        kind: ownership.get_kind(),
        controller: true,
        block_owner_deletion: true,
        name: ownership.name,
        uid: ownership.uid,
    };
    let mut owner_references: Vec<OwnerReference> = Vec::new();
    owner_references.push(owner);
    let pod = PodTemplate {
        containers: inject_resource(&job_spec.containers, resource_limit_name),
        init_containers: inject_resource(&job_spec.init_containers, resource_limit_name),
    };
    BrokerJob { name: app_name, namespace: job_namespace.to_owned(), labels, owner_references, pod }
}

/// The store's answer to a create means that the job now exists.
pub open spec fn create_succeeds(answer: Result<(), StoreError>) -> bool {
    answer is Ok || answer->Err_0.status() == Some(ERROR_CONFLICT)
}

/// The store's answer to a delete means that the job no longer exists.
pub open spec fn remove_succeeds(answer: Result<(), StoreError>) -> bool {
    answer is Ok || answer->Err_0.status() == Some(ERROR_NOT_FOUND)
}

/// The outcome of submitting a broker job, from the store's answer to the
/// create: a conflict means that the job exists already, which is success.
pub fn create_job_outcome(answer: Result<(), StoreError>) -> (r: Result<(), StoreError>)
    ensures
        r is Ok <==> create_succeeds(answer),
        r is Err ==> r == answer,
{
    match answer {
        Ok(()) => Ok(()),
        Err(e) => {
            if e.has_status(ERROR_CONFLICT) {
                Ok(())
            } else {
                Err(e)
            }
        },
    }
}

/// The outcome of removing a broker job, from the store's answer to the
/// delete: a job that is not found is removed already, which is success.
pub fn remove_job_outcome(answer: Result<(), StoreError>) -> (r: Result<(), StoreError>)
    ensures
        r is Ok <==> remove_succeeds(answer),
        r is Err ==> r == answer,
{
    match answer {
        Ok(()) => Ok(()),
        Err(e) => {
            if e.has_status(ERROR_NOT_FOUND) {
                Ok(())
            } else {
                Err(e)
            }
        },
    }
}

/// Submitting a job that the store holds already succeeds: the store answers
/// the second create with a conflict, and a conflict is no error.
pub proof fn lemma_resubmit_succeeds(message: String)
    ensures
        create_succeeds(Err(StoreError::Api { code: ERROR_CONFLICT, message })),
{
}

/// Removing a job that does not exist succeeds: the store answers the delete
/// with "not found", and that is no error.
pub proof fn lemma_remove_missing_succeeds(message: String)
    ensures
        remove_succeeds(Err(StoreError::Api { code: ERROR_NOT_FOUND, message })),
{
}

} // verus!
