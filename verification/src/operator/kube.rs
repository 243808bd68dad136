//! Kubernetes objects, as far as the controllers read them.
use crate::string_map::{self, StringMap};
use crate::text;
use vstd::prelude::*;
use vstd::string::*;

verus! {

/// An owner of an object.
#[derive(Debug)]
pub struct OwnerRef {
    pub uid: String,
    pub controller: bool,
}

/// A container of a pod.
#[derive(Debug)]
pub struct Container {
    pub name: String,
    pub image: Option<String>,
    pub image_pull_policy: Option<String>,
    pub command: Vec<String>,
    pub args: Vec<String>,
    pub env: Vec<EnvVar>,
}

/// An environment variable of a container.
#[derive(Debug)]
pub struct EnvVar {
    pub name: String,
    pub value: Option<String>,
}

/// A condition that a pod reports.
#[derive(Debug)]
pub struct PodCondition {
    pub type_: String,
    pub status: String,
    pub reason: Option<String>,
    pub message: Option<String>,
}

/// Why a container waits.
#[derive(Debug)]
pub struct Waiting {
    pub reason: Option<String>,
    pub message: Option<String>,
}

/// What a pod reports of a container.
#[derive(Debug)]
pub struct ContainerStatus {
    pub image_id: String,
    pub waiting: Option<Waiting>,
    pub terminated_message: Option<String>,
}

/// A pod. Its name is the one it was given, or else the one that its names are generated from.
#[derive(Debug)]
pub struct Pod {
    pub name: String,
    /// The name it was given.
    pub given_name: Option<String>,
    pub labels: StringMap,
    pub annotations: StringMap,
    pub owners: Vec<OwnerRef>,
    pub deleting: bool,
    pub node_name: Option<String>,
    pub containers: Vec<Container>,
    pub phase: Option<String>,
    pub pod_ip: Option<String>,
    pub conditions: Vec<PodCondition>,
    pub container_statuses: Vec<ContainerStatus>,
}

/// A volume claim.
#[derive(Debug)]
pub struct Claim {
    pub name: String,
    pub storage_class: Option<String>,
    pub request: Option<String>,
    pub capacity: Option<String>,
}

/// A stateful set.
#[derive(Debug)]
pub struct StatefulSet {
    pub generation: Option<i64>,
    pub replicas: Option<i32>,
    pub containers: Vec<Container>,
    pub claim_templates: Vec<Claim>,
    pub observed_generation: Option<i64>,
    pub update_revision: Option<String>,
}

/// A deployment.
#[derive(Debug)]
pub struct Deployment {
    pub generation: Option<i64>,
    pub replicas: Option<i32>,
    pub template_labels: StringMap,
    pub template_annotations: StringMap,
    pub containers: Vec<Container>,
    pub observed_generation: Option<i64>,
    pub ready_replicas: Option<i32>,
    pub updated_replicas: Option<i32>,
    pub available_replicas: Option<i32>,
}

/// A service.
#[derive(Debug)]
pub struct Service {
    pub selector: StringMap,
}

/// Whether a pod reports the condition `Ready` with the status `True`.
pub open spec fn reports_ready(conditions: Seq<PodCondition>) -> bool {
    exists|i: int|
        0 <= i < conditions.len() && (#[trigger] conditions[i]).type_@ == "Ready"@
            && conditions[i].status@ == "True"@
}

/// The position of the first container with a name.
pub open spec fn first_container(containers: Seq<Container>, name: Seq<char>, k: int) -> Option<int>
    decreases containers.len() - k,
{
    if k < 0 || k >= containers.len() {
        None
    } else if containers[k].name@ == name {
        Some(k)
    } else {
        first_container(containers, name, k + 1)
    }
}

/// The image of the first container with a name.
pub open spec fn image_of(containers: Seq<Container>, name: Seq<char>) -> Option<Seq<char>> {
    match first_container(containers, name, 0) {
        Some(i) => text::opt_text(containers[i].image),
        None => None,
    }
}

/// Whether the conditions hold a true `Ready`.
pub fn conditions_ready(conditions: &Vec<PodCondition>) -> (r: bool)
    ensures
        r == reports_ready(conditions@),
{
    let mut i: usize = 0;
    while i < conditions.len()
        invariant
            i <= conditions@.len(),
            forall|j: int|
                0 <= j < i ==> !((#[trigger] conditions@[j]).type_@ == "Ready"@
                    && conditions@[j].status@ == "True"@),
        decreases conditions@.len() - i,
    {
        if text::str_eq(conditions[i].type_.as_str(), "Ready") && text::str_eq(
            conditions[i].status.as_str(),
            "True",
        ) {
            return true;
        }
        i += 1;
    }
    false
}

/// The position of the first container with a name.
pub fn find_container(containers: &Vec<Container>, name: &str) -> (r: Option<usize>)
    ensures
        match r {
            Some(i) => i < containers@.len() && first_container(containers@, name@, 0) == Some(
                i as int,
            ),
            None => first_container(containers@, name@, 0) is None,
        },
{
    let mut i: usize = 0;
    while i < containers.len()
        invariant
            i <= containers@.len(),
            first_container(containers@, name@, 0) == first_container(containers@, name@, i as int),
        decreases containers@.len() - i,
    {
        if text::str_eq(containers[i].name.as_str(), name) {
            return Some(i);
        }
        i += 1;
    }
    None
}

/// The image of the first container with a name.
pub fn container_image(containers: &Vec<Container>, name: &str) -> (r: Option<String>)
    ensures
        text::opt_text(r) == image_of(containers@, name@),
{
    match find_container(containers, name) {
        Some(i) => text::clone_opt(&containers[i].image),
        None => None,
    }
}

/// Whether a controller owner with the UID is among the owners.
pub open spec fn owned_by(owners: Seq<OwnerRef>, uid: Seq<char>) -> bool {
    exists|i: int|
        0 <= i < owners.len() && (#[trigger] owners[i]).controller && owners[i].uid@ == uid
}

fn has_owner(owners: &Vec<OwnerRef>, uid: &str) -> (r: bool)
    ensures
        r == owned_by(owners@, uid@),
{
    let mut i: usize = 0;
    while i < owners.len()
        invariant
            i <= owners@.len(),
            forall|j: int|
                0 <= j < i ==> !((#[trigger] owners@[j]).controller && owners@[j].uid@ == uid@),
        decreases owners@.len() - i,
    {
        if owners[i].controller && text::str_eq(owners[i].uid.as_str(), uid) {
            return true;
        }
        i += 1;
    }
    false
}

/// Whether the object is controlled by the owner with the UID.
pub fn controlled_by(owners: &Vec<OwnerRef>, owner_uid: &Option<String>) -> (r: bool)
    ensures
        r == (owner_uid matches Some(uid) && owned_by(owners@, uid@)),
{
    match owner_uid {
        None => false,
        Some(uid) => has_owner(owners, uid.as_str()),
    }
}

/// The number under a key.
pub open spec fn number_under(m: Seq<(Seq<char>, Seq<char>)>, key: Seq<char>) -> Option<u64> {
    match string_map::lookup(m, key) {
        Some(v) => match text::parsed_unsigned(v, 10, u64::MAX as nat) {
            Some(n) => Some(n as u64),
            None => None,
        },
        None => None,
    }
}

/// The number under a key.
pub fn number_at(m: &StringMap, key: &str) -> (r: Option<u64>)
    ensures
        r == number_under(m@, key@),
{
    match m.get(key) {
        Some(v) => text::parse_decimal(v.as_str(), u64::MAX),
        None => None,
    }
}

/// Pods report ready exactly where one of their conditions is `Ready` and true.
pub proof fn law_pods_report_ready(conditions: Seq<PodCondition>, i: int)
    ensures
        0 <= i < conditions.len() && conditions[i].type_@ == "Ready"@ && conditions[i].status@
            == "True"@ ==> reports_ready(conditions),
        reports_ready(conditions) ==> exists|j: int|
            0 <= j < conditions.len() && (#[trigger] conditions[j]).type_@ == "Ready"@
                && conditions[j].status@ == "True"@,
{
}

/// A thing is owned exactly by the controllers among its owners.
pub proof fn law_owners_control(owners: Seq<OwnerRef>, uid: Seq<char>, i: int)
    ensures
        0 <= i < owners.len() && owners[i].controller && owners[i].uid@ == uid ==> owned_by(
            owners,
            uid,
        ),
        owned_by(owners, uid) ==> exists|j: int|
            0 <= j < owners.len() && (#[trigger] owners[j]).controller && owners[j].uid@ == uid,
{
}

proof fn lemma_first_container(containers: Seq<Container>, name: Seq<char>, k: int)
    requires
        k >= 0,
    ensures
        first_container(containers, name, k) matches Some(i) ==> k <= i < containers.len()
            && containers[i].name@ == name && forall|j: int|
            k <= j < i ==> (#[trigger] containers[j]).name@ != name,
        first_container(containers, name, k) is None ==> forall|j: int|
            k <= j < containers.len() ==> (#[trigger] containers[j]).name@ != name,
    decreases containers.len() - k,
{
    if k < containers.len() && containers[k].name@ != name {
        lemma_first_container(containers, name, k + 1);
    }
}

/// The image under a name is that of the first container of the name.
pub proof fn law_images_are_those_of_the_named_container(
    containers: Seq<Container>,
    name: Seq<char>,
    i: int,
)
    requires
        0 <= i < containers.len(),
        containers[i].name@ == name,
        forall|j: int| 0 <= j < i ==> (#[trigger] containers[j]).name@ != name,
    ensures
        first_container(containers, name, 0) == Some(i),
        image_of(containers, name) == text::opt_text(containers[i].image),
{
    lemma_first_container(containers, name, 0);
}

/// A number under a key is read back as it was written.
pub proof fn law_numbers_are_read_as_written(
    m: Seq<(Seq<char>, Seq<char>)>,
    key: Seq<char>,
    n: u64,
)
    requires
        string_map::lookup(m, key) == Some(text::dec(n as nat)),
    ensures
        number_under(m, key) == Some(n),
{
    text::lemma_dec_round_trip(n as nat, u64::MAX as nat);
}

} // verus!
