//! The federated cluster resource: its specification and its status.
use crate::text;
use vstd::prelude::*;

verus! {

/// How brokers are grouped into cells.
#[derive(Clone, Copy, Debug, PartialEq, Eq, Structural)]
pub struct CellPolicy {
    pub min_nodes: u8,
    pub target_nodes: u8,
    pub max_nodes: u8,
    pub routers_per_cell: u8,
    pub max_home_cells_per_topic: u16,
}

impl Default for CellPolicy {
    fn default() -> (r: Self)
        ensures
            r.min_nodes == 3,
            r.target_nodes == 9,
            r.max_nodes == 9,
            r.routers_per_cell == 3,
            r.max_home_cells_per_topic == 1,
    {
        CellPolicy {
            min_nodes: 3,
            target_nodes: 9,
            max_nodes: 9,
            routers_per_cell: 3,
            max_home_cells_per_topic: 1,
        }
    }
}

/// How many copies metadata and partitions have.
#[derive(Clone, Copy, Debug, PartialEq, Eq, Structural)]
pub struct ReplicationPolicy {
    pub metadata: u8,
    pub partitions: u8,
}

/// Where and within which limits brokers store.
#[derive(Debug)]
pub struct StoragePolicy {
    pub class_name: String,
    pub disk_high_watermark_percent: u8,
    pub disk_low_watermark_percent: u8,
    pub min_free_bytes: u64,
    pub protective_eviction_enabled: bool,
}

/// The limits of queues.
#[derive(Clone, Copy, Debug, PartialEq, Eq, Structural)]
pub struct QueuePolicy {
    pub default_partitions: u16,
    pub max_partitions_per_topic: u16,
    pub max_message_bytes: u64,
    pub max_backlog_messages_per_partition: u64,
    pub message_retention_seconds: u64,
    pub max_delivery_attempts: u16,
    pub max_body_bytes: u64,
}

/// How new workload revisions roll out.
#[derive(Clone, Copy, Debug, PartialEq, Eq, Structural)]
pub struct UpgradePolicy {
    pub automatic: bool,
    pub max_unavailable_per_cell: u8,
    pub progress_deadline_seconds: u64,
    pub retry_generation: u64,
}

/// How many nodes the cluster takes.
#[derive(Clone, Copy, Debug, PartialEq, Eq, Structural)]
pub struct NodePolicy {
    pub replicas: Option<u16>,
    pub auto_scale_from_nodes: bool,
}

/// Switches for development clusters.
#[derive(Clone, Copy, Debug, PartialEq, Eq, Structural)]
pub struct DevelopmentPolicy {
    pub allow_single_node: bool,
    pub virtual_replicas: u16,
}

/// Lifetimes of certificates, in days.
#[derive(Clone, Copy, Debug, PartialEq, Eq, Structural)]
pub struct SecurityPolicy {
    pub ca_validity_days: u32,
    pub certificate_validity_days: u32,
    pub renew_before_days: u32,
}

/// The desired state of a cluster.
#[derive(Debug)]
pub struct RustQueueClusterSpec {
    pub image: String,
    pub cells: CellPolicy,
    pub replication: ReplicationPolicy,
    pub storage: StoragePolicy,
    pub queue: QueuePolicy,
    pub upgrade: UpgradePolicy,
    pub nodes: NodePolicy,
    pub development: DevelopmentPolicy,
    pub security: SecurityPolicy,
}

/// The progress of a rollout.
#[derive(Clone, Debug, PartialEq, Eq)]
pub struct UpgradeStatus {
    pub target_image: String,
    pub current_node_id: Option<u64>,
    pub started_at: Option<String>,
    pub paused: bool,
    pub reason: String,
    pub observed_retry_generation: u64,
}

/// `UpgradeStatus` as values.
pub struct UpgradeView {
    pub target_image: Seq<char>,
    pub current_node_id: Option<u64>,
    pub started_at: Option<Seq<char>>,
    pub paused: bool,
    pub reason: Seq<char>,
    pub observed_retry_generation: u64,
}

impl View for UpgradeStatus {
    type V = UpgradeView;

    open spec fn view(&self) -> UpgradeView {
        UpgradeView {
            target_image: self.target_image@,
            current_node_id: self.current_node_id,
            started_at: text::opt_text(self.started_at),
            paused: self.paused,
            reason: self.reason@,
            observed_retry_generation: self.observed_retry_generation,
        }
    }
}

impl UpgradeStatus {
    /// A copy of the status.
    pub fn duplicate(&self) -> (r: Self)
        ensures
            r == *self,
    {
        UpgradeStatus {
            target_image: self.target_image.clone(),
            current_node_id: self.current_node_id,
            started_at: text::clone_opt(&self.started_at),
            paused: self.paused,
            reason: self.reason.clone(),
            observed_retry_generation: self.observed_retry_generation,
        }
    }
}

/// The view of an optional rollout status.
pub open spec fn opt_upgrade(o: Option<UpgradeStatus>) -> Option<UpgradeView> {
    match o {
        Some(u) => Some(u@),
        None => None,
    }
}

/// Copies an optional rollout status.
pub fn clone_upgrade(o: &Option<UpgradeStatus>) -> (r: Option<UpgradeStatus>)
    ensures
        r == *o,
{
    match o {
        Some(u) => Some(u.duplicate()),
        None => None,
    }
}

/// One observed aspect of a cluster.
#[derive(Clone, Debug, PartialEq, Eq)]
pub struct ClusterCondition {
    pub type_: String,
    pub status: String,
    pub reason: String,
    pub message: String,
    pub last_transition_time: String,
    pub observed_generation: Option<i64>,
}

/// `ClusterCondition` as values.
pub struct ConditionView {
    pub type_: Seq<char>,
    pub status: Seq<char>,
    pub reason: Seq<char>,
    pub message: Seq<char>,
    pub last_transition_time: Seq<char>,
    pub observed_generation: Option<i64>,
}

impl View for ClusterCondition {
    type V = ConditionView;

    open spec fn view(&self) -> ConditionView {
        ConditionView {
            type_: self.type_@,
            status: self.status@,
            reason: self.reason@,
            message: self.message@,
            last_transition_time: self.last_transition_time@,
            observed_generation: self.observed_generation,
        }
    }
}

/// The views of a sequence of conditions.
pub open spec fn condition_views(v: Seq<ClusterCondition>) -> Seq<ConditionView> {
    v.map_values(|c: ClusterCondition| c@)
}

/// How many brokers of a cell are wanted and Ready.
#[derive(Clone, Copy, Debug, PartialEq, Eq, Structural)]
pub struct CellStatus {
    pub id: u64,
    pub desired_replicas: u16,
    pub ready_replicas: u16,
}

/// The observed state of a cluster.
#[derive(Debug, PartialEq, Eq)]
pub struct RustQueueClusterStatus {
    pub observed_generation: Option<i64>,
    pub phase: String,
    pub allocated_replicas: u16,
    pub desired_replicas: u16,
    pub ready_replicas: u16,
    pub pending_nodes: u16,
    pub ca_revision: String,
    pub cells: Vec<CellStatus>,
    pub upgrade: Option<UpgradeStatus>,
    pub conditions: Vec<ClusterCondition>,
}

/// `RustQueueClusterStatus` as values.
pub struct ClusterStatusView {
    pub observed_generation: Option<i64>,
    pub phase: Seq<char>,
    pub allocated_replicas: u16,
    pub desired_replicas: u16,
    pub ready_replicas: u16,
    pub pending_nodes: u16,
    pub ca_revision: Seq<char>,
    pub cells: Seq<CellStatus>,
    pub upgrade: Option<UpgradeView>,
    pub conditions: Seq<ConditionView>,
}

impl View for RustQueueClusterStatus {
    type V = ClusterStatusView;

    open spec fn view(&self) -> ClusterStatusView {
        ClusterStatusView {
            observed_generation: self.observed_generation,
            phase: self.phase@,
            allocated_replicas: self.allocated_replicas,
            desired_replicas: self.desired_replicas,
            ready_replicas: self.ready_replicas,
            pending_nodes: self.pending_nodes,
            ca_revision: self.ca_revision@,
            cells: self.cells@,
            upgrade: opt_upgrade(self.upgrade),
            conditions: condition_views(self.conditions@),
        }
    }
}

/// The status before anything was observed.
pub open spec fn no_cluster_status() -> ClusterStatusView {
    ClusterStatusView {
        observed_generation: None,
        phase: Seq::empty(),
        allocated_replicas: 0,
        desired_replicas: 0,
        ready_replicas: 0,
        pending_nodes: 0,
        ca_revision: Seq::empty(),
        cells: Seq::empty(),
        upgrade: None,
        conditions: Seq::empty(),
    }
}

/// A cluster resource.
#[derive(Debug)]
pub struct RustQueueCluster {
    pub spec: RustQueueClusterSpec,
    pub status: Option<RustQueueClusterStatus>,
}

} // verus!
