//! The RustQueue resource: its specification, its status and their defaults.
use crate::string_map::StringMap;
use crate::text;
use vstd::prelude::*;
use vstd::string::*;

verus! {

/// What identifies a resource.
#[derive(Debug)]
pub struct ObjectMeta {
    pub name: String,
    pub namespace: Option<String>,
    pub uid: Option<String>,
    pub generation: Option<i64>,
}

/// A RustQueue resource.
#[derive(Debug)]
pub struct RustQueue {
    pub metadata: ObjectMeta,
    pub spec: RustQueueSpec,
    pub status: Option<RustQueueStatus>,
}

/// The desired state of a RustQueue.
#[derive(Debug)]
pub struct RustQueueSpec {
    pub image: String,
    pub image_pull_policy: String,
    pub min_brokers: i32,
    pub max_brokers: i32,
    pub eligible_node_selector: String,
    pub storage_class_name: String,
    pub storage_size: String,
    pub storage_feature_level: u32,
    pub message_index_cache_bytes: usize,
    pub maintenance_startup_delay_seconds: u64,
    pub node_delivery_inflight_bytes: usize,
    pub connection_delivery_inflight_bytes: usize,
    pub min_free_bytes: u64,
    pub disk_high_watermark_percent: u8,
    pub disk_low_watermark_percent: u8,
    pub protective_eviction_enabled: bool,
    pub disk_pressure_grace_seconds: u64,
    pub bootstrap_retention_seconds: u64,
    pub max_message_bytes: usize,
    pub max_topics: usize,
    pub max_publish_workers: usize,
    pub publish_worker_idle_seconds: u64,
    pub detailed_queue_metrics: bool,
    pub max_detailed_metric_series: usize,
    pub registry_secret_name: Option<String>,
    pub console_management_enabled: bool,
    pub client_tls_secret_name: Option<String>,
    pub proxy_node_selector: StringMap,
    pub proxy_tcp_max_connection_age_seconds: u64,
    pub discovery_replicas: i32,
    pub kodo_compatibility: KodoCompatibility,
    pub maintenance: Option<BrokerMaintenance>,
    pub rollout: RolloutPolicy,
    pub broker_scheduling: BrokerScheduling,
    pub broker_resources: WorkloadResources,
}

/// How Kodo workloads are served.
#[derive(Debug)]
pub struct KodoCompatibility {
    pub enabled: bool,
    pub decommission_confirmed: bool,
    pub producer_restart_nonce: String,
    pub cleanup_enabled: bool,
    pub cutover_grace_seconds: u64,
    pub allowed_pod_selector: StringMap,
    pub allowed_namespace_selector: StringMap,
}

/// The pods that may reach the gateways where none are named.
pub open spec fn default_pod_selector() -> Seq<(Seq<char>, Seq<char>)> {
    seq![("app.kubernetes.io/name"@, "kodo"@)]
}

impl Default for KodoCompatibility {
    fn default() -> (r: Self)
        ensures
            !r.enabled,
            !r.decommission_confirmed,
            r.producer_restart_nonce@ == ""@,
            !r.cleanup_enabled,
            r.cutover_grace_seconds == 630,
            r.allowed_pod_selector@ == default_pod_selector(),
            r.allowed_namespace_selector@ == Seq::<(Seq<char>, Seq<char>)>::empty(),
    {
        KodoCompatibility {
            enabled: false,
            decommission_confirmed: false,
            producer_restart_nonce: "".to_owned(),
            cleanup_enabled: false,
            cutover_grace_seconds: default_kodo_cutover_grace(),
            allowed_pod_selector: default_kodo_allowed_pod_selector(),
            allowed_namespace_selector: StringMap::new(),
        }
    }
}

impl KodoCompatibility {
    /// Whether consumers are removed automatically: never, whatever is asked for.
    pub fn effective_cleanup_enabled(&self) -> (r: bool)
        ensures
            !r,
    {
        false
    }

    /// The pods that may reach the gateways: those named, or the default where
    /// none are.
    pub open spec fn effective_pods(self) -> Seq<(Seq<char>, Seq<char>)> {
        if self.allowed_pod_selector@.len() == 0 {
            default_pod_selector()
        } else {
            self.allowed_pod_selector@
        }
    }

    /// The pods that may reach the gateways.
    pub fn effective_allowed_pod_selector(&self) -> (r: StringMap)
        ensures
            r@ == self.effective_pods(),
    {
        if self.allowed_pod_selector.is_empty() {
            default_kodo_allowed_pod_selector()
        } else {
            self.allowed_pod_selector.duplicate()
        }
    }
}

/// The pods that may reach the gateways where none are named.
pub fn default_kodo_allowed_pod_selector() -> (r: StringMap)
    ensures
        r@ == default_pod_selector(),
{
    StringMap::of("app.kubernetes.io/name", "kodo")
}

/// A broker to be held in maintenance.
#[derive(Debug)]
pub struct BrokerMaintenance {
    pub broker: String,
    pub enabled: bool,
}

/// How new revisions roll out.
#[derive(Debug)]
pub struct RolloutPolicy {
    pub paused: bool,
    pub require_canary_approval: bool,
    pub approved_revision: Option<String>,
    pub timeout_seconds: u64,
    pub rollback_to_image: Option<String>,
    pub retry_nonce: String,
}

impl Default for RolloutPolicy {
    fn default() -> (r: Self)
        ensures
            !r.paused,
            !r.require_canary_approval,
            r.approved_revision is None,
            r.timeout_seconds == 600,
            r.rollback_to_image is None,
            r.retry_nonce@ == ""@,
    {
        RolloutPolicy {
            paused: false,
            require_canary_approval: false,
            approved_revision: None,
            timeout_seconds: default_rollout_timeout(),
            rollback_to_image: None,
            retry_nonce: "".to_owned(),
        }
    }
}

/// Where broker pods may run.
#[derive(Debug)]
pub struct BrokerScheduling {
    pub topology_key: String,
    pub priority_class_name: Option<String>,
    pub tolerations: Vec<BrokerToleration>,
}

impl Default for BrokerScheduling {
    fn default() -> (r: Self)
        ensures
            r.topology_key@ == "kubernetes.io/hostname"@,
            r.priority_class_name is None,
            r.tolerations@ == Seq::<BrokerToleration>::empty(),
    {
        BrokerScheduling {
            topology_key: default_topology_key(),
            priority_class_name: None,
            tolerations: Vec::new(),
        }
    }
}

/// A taint that broker pods tolerate.
#[derive(Debug)]
pub struct BrokerToleration {
    pub key: Option<String>,
    pub operator: Option<String>,
    pub value: Option<String>,
    pub effect: Option<String>,
    pub toleration_seconds: Option<i64>,
}

/// What broker pods request and are limited to.
#[derive(Debug)]
pub struct WorkloadResources {
    pub cpu_request: String,
    pub memory_request: String,
    pub cpu_limit: Option<String>,
    pub memory_limit: Option<String>,
}

impl Default for WorkloadResources {
    fn default() -> (r: Self)
        ensures
            r.cpu_request@ == "100m"@,
            r.memory_request@ == "256Mi"@,
            r.cpu_limit is None,
            r.memory_limit is None,
    {
        WorkloadResources {
            cpu_request: default_broker_cpu_request(),
            memory_request: default_broker_memory_request(),
            cpu_limit: None,
            memory_limit: None,
        }
    }
}

/// The observed state of a RustQueue.
#[derive(Debug, PartialEq, Eq)]
pub struct RustQueueStatus {
    pub observed_generation: Option<i64>,
    pub desired_brokers: i32,
    pub ready_brokers: i32,
    pub phase: String,
    pub message: String,
    pub active_storage_feature_level: u32,
    pub conditions: Vec<RustQueueCondition>,
    pub current_operation: Option<OperationStatus>,
    pub operation_history: Vec<OperationStatus>,
    pub orphaned_pvcs: Vec<String>,
    pub desired_storage_size: String,
    pub kodo_producer_restart_baseline_nonce: Option<String>,
}

/// One observed aspect of a RustQueue.
#[derive(Clone, Debug, PartialEq, Eq)]
pub struct RustQueueCondition {
    pub type_: String,
    pub status: String,
    pub reason: String,
    pub message: String,
    pub observed_generation: Option<i64>,
    pub last_transition_time: String,
}

/// An operation on a RustQueue.
#[derive(Clone, Debug, PartialEq, Eq)]
pub struct OperationStatus {
    pub id: String,
    pub kind: String,
    pub phase: String,
    pub target: String,
    pub revision: String,
    pub message: String,
    pub started_at: String,
    pub updated_at: String,
    pub completed_at: Option<String>,
    pub previous_image: Option<String>,
    pub current_broker: Option<String>,
}

/// `RustQueueCondition` as values.
pub struct QueueConditionView {
    pub type_: Seq<char>,
    pub status: Seq<char>,
    pub reason: Seq<char>,
    pub message: Seq<char>,
    pub observed_generation: Option<i64>,
    pub last_transition_time: Seq<char>,
}

/// `OperationStatus` as values.
pub struct OperationView {
    pub id: Seq<char>,
    pub kind: Seq<char>,
    pub phase: Seq<char>,
    pub target: Seq<char>,
    pub revision: Seq<char>,
    pub message: Seq<char>,
    pub started_at: Seq<char>,
    pub updated_at: Seq<char>,
    pub completed_at: Option<Seq<char>>,
    pub previous_image: Option<Seq<char>>,
    pub current_broker: Option<Seq<char>>,
}

/// `RustQueueStatus` as values.
pub struct QueueStatusView {
    pub observed_generation: Option<i64>,
    pub desired_brokers: i32,
    pub ready_brokers: i32,
    pub phase: Seq<char>,
    pub message: Seq<char>,
    pub active_storage_feature_level: u32,
    pub conditions: Seq<QueueConditionView>,
    pub current_operation: Option<OperationView>,
    pub operation_history: Seq<OperationView>,
    pub orphaned_pvcs: Seq<Seq<char>>,
    pub desired_storage_size: Seq<char>,
    pub kodo_producer_restart_baseline_nonce: Option<Seq<char>>,
}

impl View for RustQueueCondition {
    type V = QueueConditionView;

    open spec fn view(&self) -> QueueConditionView {
        QueueConditionView {
            type_: self.type_@,
            status: self.status@,
            reason: self.reason@,
            message: self.message@,
            observed_generation: self.observed_generation,
            last_transition_time: self.last_transition_time@,
        }
    }
}

impl View for OperationStatus {
    type V = OperationView;

    open spec fn view(&self) -> OperationView {
        OperationView {
            id: self.id@,
            kind: self.kind@,
            phase: self.phase@,
            target: self.target@,
            revision: self.revision@,
            message: self.message@,
            started_at: self.started_at@,
            updated_at: self.updated_at@,
            completed_at: text::opt_text(self.completed_at),
            previous_image: text::opt_text(self.previous_image),
            current_broker: text::opt_text(self.current_broker),
        }
    }
}

/// The views of conditions.
pub open spec fn queue_conditions(v: Seq<RustQueueCondition>) -> Seq<QueueConditionView> {
    v.map_values(|c: RustQueueCondition| c@)
}

/// The views of operations.
pub open spec fn operations(v: Seq<OperationStatus>) -> Seq<OperationView> {
    v.map_values(|o: OperationStatus| o@)
}

/// The view of an optional operation.
pub open spec fn opt_operation(o: Option<OperationStatus>) -> Option<OperationView> {
    match o {
        Some(x) => Some(x@),
        None => None,
    }
}

impl View for RustQueueStatus {
    type V = QueueStatusView;

    open spec fn view(&self) -> QueueStatusView {
        QueueStatusView {
            observed_generation: self.observed_generation,
            desired_brokers: self.desired_brokers,
            ready_brokers: self.ready_brokers,
            phase: self.phase@,
            message: self.message@,
            active_storage_feature_level: self.active_storage_feature_level,
            conditions: queue_conditions(self.conditions@),
            current_operation: opt_operation(self.current_operation),
            operation_history: operations(self.operation_history@),
            orphaned_pvcs: text::texts(self.orphaned_pvcs@),
            desired_storage_size: self.desired_storage_size@,
            kodo_producer_restart_baseline_nonce: text::opt_text(
                self.kodo_producer_restart_baseline_nonce,
            ),
        }
    }
}

impl OperationStatus {
    /// A copy of the operation.
    pub fn duplicate(&self) -> (r: Self)
        ensures
            r == *self,
    {
        OperationStatus {
            id: self.id.clone(),
            kind: self.kind.clone(),
            phase: self.phase.clone(),
            target: self.target.clone(),
            revision: self.revision.clone(),
            message: self.message.clone(),
            started_at: self.started_at.clone(),
            updated_at: self.updated_at.clone(),
            completed_at: text::clone_opt(&self.completed_at),
            previous_image: text::clone_opt(&self.previous_image),
            current_broker: text::clone_opt(&self.current_broker),
        }
    }
}

impl RustQueueCondition {
    /// A copy of the condition.
    pub fn duplicate(&self) -> (r: Self)
        ensures
            r == *self,
    {
        RustQueueCondition {
            type_: self.type_.clone(),
            status: self.status.clone(),
            reason: self.reason.clone(),
            message: self.message.clone(),
            observed_generation: self.observed_generation,
            last_transition_time: self.last_transition_time.clone(),
        }
    }
}

/// The default of the min brokers.
pub fn default_min_brokers() -> (r: i32)
    ensures
        r == 1,
{
    1
}

/// The default of the max brokers.
pub fn default_max_brokers() -> (r: i32)
    ensures
        r == 500,
{
    500
}

/// The default of the storage feature level.
pub fn default_storage_feature_level() -> (r: u32)
    ensures
        r == 1,
{
    1
}

/// The default of the min free bytes.
pub fn default_min_free_bytes() -> (r: u64)
    ensures
        r == 10737418240,
{
    10737418240
}

/// The default of the disk high watermark.
pub fn default_disk_high_watermark() -> (r: u8)
    ensures
        r == 85,
{
    85
}

/// The default of the disk low watermark.
pub fn default_disk_low_watermark() -> (r: u8)
    ensures
        r == 75,
{
    75
}

/// The default of the disk pressure grace.
pub fn default_disk_pressure_grace() -> (r: u64)
    ensures
        r == 60,
{
    60
}

/// The default of the bootstrap retention.
pub fn default_bootstrap_retention() -> (r: u64)
    ensures
        r == 90,
{
    90
}

/// The default of the proxy tcp connection age.
pub fn default_proxy_tcp_connection_age() -> (r: u64)
    ensures
        r == 300,
{
    300
}

/// The default of the kodo cutover grace.
pub fn default_kodo_cutover_grace() -> (r: u64)
    ensures
        r == 630,
{
    630
}

/// The default of the max message bytes.
pub fn default_max_message_bytes() -> (r: usize)
    ensures
        r == 20971520,
{
    20971520
}

/// The default of the message index cache bytes.
pub fn default_message_index_cache_bytes() -> (r: usize)
    ensures
        r == 67108864,
{
    67108864
}

/// The default of the maintenance startup delay.
pub fn default_maintenance_startup_delay() -> (r: u64)
    ensures
        r == 30,
{
    30
}

/// The default of the node delivery inflight bytes.
pub fn default_node_delivery_inflight_bytes() -> (r: usize)
    ensures
        r == 536870912,
{
    536870912
}

/// The default of the connection delivery inflight bytes.
pub fn default_connection_delivery_inflight_bytes() -> (r: usize)
    ensures
        r == 33554432,
{
    33554432
}

/// The default of the max topics.
pub fn default_max_topics() -> (r: usize)
    ensures
        r == 10000,
{
    10000
}

/// The default of the max publish workers.
pub fn default_max_publish_workers() -> (r: usize)
    ensures
        r == 1024,
{
    1024
}

/// The default of the publish worker idle seconds.
pub fn default_publish_worker_idle_seconds() -> (r: u64)
    ensures
        r == 60,
{
    60
}

/// The default of the max detailed metric series.
pub fn default_max_detailed_metric_series() -> (r: usize)
    ensures
        r == 1000,
{
    1000
}

/// The default of the discovery replicas.
pub fn default_discovery_replicas() -> (r: i32)
    ensures
        r == 2,
{
    2
}

/// The default of the rollout timeout.
pub fn default_rollout_timeout() -> (r: u64)
    ensures
        r == 600,
{
    600
}

/// The default of the image pull policy.
pub fn default_image_pull_policy() -> (r: String)
    ensures
        r@ == "IfNotPresent"@,
{
    "IfNotPresent".to_owned()
}

/// The default of the eligible selector.
pub fn default_eligible_selector() -> (r: String)
    ensures
        r@ == "rustqueue.io/eligible=true"@,
{
    "rustqueue.io/eligible=true".to_owned()
}

/// The default of the storage class.
pub fn default_storage_class() -> (r: String)
    ensures
        r@ == "local-path"@,
{
    "local-path".to_owned()
}

/// The default of the storage size.
pub fn default_storage_size() -> (r: String)
    ensures
        r@ == "100Gi"@,
{
    "100Gi".to_owned()
}

/// The default of the topology key.
pub fn default_topology_key() -> (r: String)
    ensures
        r@ == "kubernetes.io/hostname"@,
{
    "kubernetes.io/hostname".to_owned()
}

/// The default of the broker cpu request.
pub fn default_broker_cpu_request() -> (r: String)
    ensures
        r@ == "100m"@,
{
    "100m".to_owned()
}

/// The default of the broker memory request.
pub fn default_broker_memory_request() -> (r: String)
    ensures
        r@ == "256Mi"@,
{
    "256Mi".to_owned()
}

/// The default of the maintenance switch.
pub fn enabled() -> (r: bool)
    ensures
        r,
{
    true
}

} // verus!
