//! What a federated cluster looks like, and the status that says so.
use crate::operator::cluster::{
    self, CellStatus, ClusterCondition, ClusterStatusView, ConditionView, RustQueueCluster,
    RustQueueClusterStatus, UpgradeStatus, UpgradeView,
};
use crate::operator::kube::{self, Pod};
use crate::operator::layout::{self, CellView, ClusterLayout};
use crate::operator::placement::BrokerPlacement;
use crate::operator::status;
use crate::operator::upgrade::{self, PodRolloutState, RolloutTarget};
use crate::string_map::{self, StringMap};
use crate::text;
use std::collections::BTreeMap;
use vstd::prelude::*;
use vstd::string::*;

verus! {

broadcast use {vstd::std_specs::btree::group_btree_axioms, vstd::laws_cmp::group_laws_cmp};

/// A stateful set of one broker, as far as it tells where that broker runs.
#[derive(Debug)]
pub struct BrokerSet {
    pub labels: StringMap,
    pub template_annotations: StringMap,
}

/// The node ID in the labels of an object.
fn object_node_id(labels: &StringMap) -> (r: Option<u64>)
    ensures
        r == kube::number_under(labels@, "rustqueue.io/node-id"@),
{
    kube::number_at(labels, "rustqueue.io/node-id")
}

/// The number in an annotation, or zero.
pub open spec fn annotated_number(m: Seq<(Seq<char>, Seq<char>)>, key: Seq<char>) -> u64 {
    match kube::number_under(m, key) {
        Some(n) => n,
        None => 0,
    }
}

/// The text in an annotation, or none.
pub open spec fn annotated_text(m: Seq<(Seq<char>, Seq<char>)>, key: Seq<char>) -> Seq<char> {
    match string_map::lookup(m, key) {
        Some(v) => v,
        None => Seq::empty(),
    }
}

fn annotation_number(annotations: &StringMap, key: &str) -> (r: u64)
    ensures
        r == annotated_number(annotations@, key@),
{
    match kube::number_at(annotations, key) {
        Some(n) => n,
        None => 0,
    }
}

fn annotation_value(annotations: &StringMap, key: &str) -> (r: String)
    ensures
        r@ == annotated_text(annotations@, key@),
{
    match annotations.get(key) {
        Some(v) => v,
        None => String::new(),
    }
}

/// A map with the node of one more object, where both are known.
pub open spec fn with_node(
    m: Map<u64, Seq<char>>,
    node_id: Option<u64>,
    node: Option<Seq<char>>,
) -> Map<u64, Seq<char>> {
    match (node_id, node) {
        (Some(id), Some(n)) => m.insert(id, n),
        _ => m,
    }
}

/// Where the stateful sets want their brokers.
pub open spec fn set_nodes(sets: Seq<BrokerSet>) -> Map<u64, Seq<char>>
    decreases sets.len(),
{
    if sets.len() == 0 {
        Map::empty()
    } else {
        let s = sets.last();
        with_node(
            set_nodes(sets.drop_last()),
            kube::number_under(s.labels@, "rustqueue.io/node-id"@),
            string_map::lookup(s.template_annotations@, "rustqueue.io/target-node"@),
        )
    }
}

/// Where the stateful sets want their brokers, overridden by where pods run.
pub open spec fn pod_nodes(sets: Seq<BrokerSet>, pods: Seq<Pod>) -> Map<u64, Seq<char>>
    decreases pods.len(),
{
    if pods.len() == 0 {
        set_nodes(sets)
    } else {
        let p = pods.last();
        with_node(
            pod_nodes(sets, pods.drop_last()),
            kube::number_under(p.labels@, "rustqueue.io/node-id"@),
            text::opt_text(p.node_name),
        )
    }
}

/// The views of the texts in a map.
pub open spec fn map_texts(m: Map<u64, String>) -> Map<u64, Seq<char>> {
    m.map_values(|s: String| s@)
}

fn put_node(m: &mut BTreeMap<u64, String>, node_id: Option<u64>, node: Option<String>)
    ensures
        map_texts(final(m)@) == with_node(map_texts(old(m)@), node_id, text::opt_text(node)),
{
    if let Some(id) = node_id {
        if let Some(n) = node {
            let ghost v = n@;
            m.insert(id, n);
            assert(map_texts(m@) =~= map_texts(old(m)@).insert(id, v));
        }
    }
}

/// Where brokers run: by the pods, else by the stateful sets.
pub fn current_placements(stateful_sets: &[BrokerSet], pods: &[Pod]) -> (r: BTreeMap<u64, String>)
    ensures
        map_texts(r@) == pod_nodes(stateful_sets@, pods@),
{
    let mut result: BTreeMap<u64, String> = BTreeMap::new();
    let mut i: usize = 0;
    assert(stateful_sets@.take(0) =~= Seq::<BrokerSet>::empty());
    assert(map_texts(result@) =~= Map::<u64, Seq<char>>::empty());
    while i < stateful_sets.len()
        invariant
            i <= stateful_sets@.len(),
            map_texts(result@) == set_nodes(stateful_sets@.take(i as int)),
        decreases stateful_sets@.len() - i,
    {
        let s = &stateful_sets[i];
        assert(stateful_sets@.take(i + 1).drop_last() =~= stateful_sets@.take(i as int));
        assert(stateful_sets@.take(i + 1).last() == stateful_sets@[i as int]);
        put_node(
            &mut result,
            object_node_id(&s.labels),
            s.template_annotations.get("rustqueue.io/target-node"),
        );
        i += 1;
    }
    assert(stateful_sets@.take(stateful_sets@.len() as int) =~= stateful_sets@);
    let mut k: usize = 0;
    assert(pods@.take(0) =~= Seq::<Pod>::empty());
    while k < pods.len()
        invariant
            k <= pods@.len(),
            map_texts(result@) == pod_nodes(stateful_sets@, pods@.take(k as int)),
        decreases pods@.len() - k,
    {
        let p = &pods[k];
        assert(pods@.take(k + 1).drop_last() =~= pods@.take(k as int));
        assert(pods@.take(k + 1).last() == pods@[k as int]);
        put_node(&mut result, object_node_id(&p.labels), text::clone_opt(&p.node_name));
        k += 1;
    }
    assert(pods@.take(pods@.len() as int) =~= pods@);
    result
}

/// `PodRolloutState` as values.
pub struct PodStateView {
    pub node_id: u64,
    pub cell_id: u64,
    pub pod_name: Seq<char>,
    pub image: Seq<char>,
    pub tls_revision: u64,
    pub config_revision: u64,
    pub target_node: Seq<char>,
    pub rollout_revision: u64,
    pub ready: bool,
}

/// The state as values.
pub open spec fn state_view(p: PodRolloutState) -> PodStateView {
    PodStateView {
        node_id: p.node_id,
        cell_id: p.cell_id,
        pod_name: p.pod_name@,
        image: p.image@,
        tls_revision: p.tls_revision,
        config_revision: p.config_revision,
        target_node: p.target_node@,
        rollout_revision: p.rollout_revision,
        ready: p.ready,
    }
}

/// The states as values.
pub open spec fn state_views(v: Seq<PodRolloutState>) -> Seq<PodStateView> {
    v.map_values(|p: PodRolloutState| state_view(p))
}

/// What a pod runs, where it is a broker pod with a node ID, a cell and a
/// broker container.
pub open spec fn pod_state(pod: Pod) -> Option<PodStateView> {
    match (
        kube::number_under(pod.labels@, "rustqueue.io/node-id"@),
        kube::first_container(pod.containers@, "rustqueue"@, 0),
        kube::number_under(pod.labels@, "rustqueue.io/cell"@),
    ) {
        (Some(node_id), Some(c), Some(cell_id)) => Some(
            PodStateView {
                node_id,
                cell_id,
                pod_name: pod.name@,
                image: match pod.containers@[c].image {
                    Some(image) => image@,
                    None => Seq::empty(),
                },
                tls_revision: annotated_number(
                    pod.annotations@,
                    "rustqueue.io/tls-revision"@,
                ),
                config_revision: annotated_number(
                    pod.annotations@,
                    "rustqueue.io/config-revision"@,
                ),
                target_node: annotated_text(pod.annotations@, "rustqueue.io/target-node"@),
                rollout_revision: annotated_number(
                    pod.annotations@,
                    "rustqueue.io/rollout-revision"@,
                ),
                ready: kube::reports_ready(pod.conditions@),
            },
        ),
        _ => None,
    }
}

/// `s` with `x` inserted behind every state whose node ID is not larger.
pub open spec fn insert_state(s: Seq<PodStateView>, x: PodStateView) -> Seq<PodStateView>
    decreases s.len(),
{
    if s.len() > 0 && x.node_id < s.last().node_id {
        insert_state(s.drop_last(), x).push(s.last())
    } else {
        s.push(x)
    }
}

/// The states of the broker pods, ordered by node ID, in the given order among
/// equals.
pub open spec fn broker_states(pods: Seq<Pod>) -> Seq<PodStateView>
    decreases pods.len(),
{
    if pods.len() == 0 {
        Seq::empty()
    } else {
        let before = broker_states(pods.drop_last());
        match pod_state(pods.last()) {
            Some(s) => insert_state(before, s),
            None => before,
        }
    }
}

fn read_state(pod: &Pod) -> (r: Option<PodRolloutState>)
    ensures
        match r {
            Some(s) => pod_state(*pod) == Some(state_view(s)),
            None => pod_state(*pod) is None,
        },
{
    let node_id: u64 = match object_node_id(&pod.labels) {
        Some(n) => n,
        None => {
            return None;
        },
    };
    let c: usize = match kube::find_container(&pod.containers, "rustqueue") {
        Some(c) => c,
        None => {
            return None;
        },
    };
    let cell_id: u64 = match kube::number_at(&pod.labels, "rustqueue.io/cell") {
        Some(n) => n,
        None => {
            return None;
        },
    };
    let image = match &pod.containers[c].image {
        Some(image) => image.clone(),
        None => String::new(),
    };
    Some(
        PodRolloutState {
            node_id,
            cell_id,
            pod_name: pod.name.clone(),
            image,
            tls_revision: annotation_number(&pod.annotations, "rustqueue.io/tls-revision"),
            config_revision: annotation_number(&pod.annotations, "rustqueue.io/config-revision"),
            target_node: annotation_value(&pod.annotations, "rustqueue.io/target-node"),
            rollout_revision: annotation_number(&pod.annotations, "rustqueue.io/rollout-revision"),
            ready: kube::conditions_ready(&pod.conditions),
        },
    )
}

proof fn lemma_insert_state(s: Seq<PodStateView>, x: PodStateView, k: int)
    requires
        0 <= k <= s.len(),
        forall|j: int| k <= j < s.len() ==> x.node_id < (#[trigger] s[j]).node_id,
        k > 0 ==> !(x.node_id < s[k - 1].node_id),
    ensures
        insert_state(s, x) == s.insert(k, x),
    decreases s.len(),
{
    if k == s.len() {
        assert(s.insert(k, x) =~= s.push(x));
    } else {
        lemma_insert_state(s.drop_last(), x, k);
        assert(s.drop_last().insert(k, x).push(s.last()) =~= s.insert(k, x));
    }
}

/// What the broker pods run, ordered by node ID.
pub fn pod_states(pods: &[Pod]) -> (r: Vec<PodRolloutState>)
    ensures
        state_views(r@) == broker_states(pods@),
{
    let mut out: Vec<PodRolloutState> = Vec::new();
    let mut i: usize = 0;
    assert(pods@.take(0) =~= Seq::<Pod>::empty());
    assert(state_views(out@) =~= Seq::<PodStateView>::empty());
    while i < pods.len()
        invariant
            i <= pods@.len(),
            state_views(out@) == broker_states(pods@.take(i as int)),
        decreases pods@.len() - i,
    {
        assert(pods@.take(i + 1).drop_last() =~= pods@.take(i as int));
        assert(pods@.take(i + 1).last() == pods@[i as int]);
        if let Some(state) = read_state(&pods[i]) {
            let ghost x = state_view(state);
            let ghost s = state_views(out@);
            let ghost before = out@;
            let mut k: usize = out.len();
            while k > 0 && state.node_id < out[k - 1].node_id
                invariant
                    k <= out@.len(),
                    x == state_view(state),
                    out@ == before,
                    s == state_views(out@),
                    forall|j: int| k <= j < out@.len() ==> x.node_id < (#[trigger] s[j]).node_id,
                decreases k,
            {
                assert(s[k - 1] == state_view(out@[k - 1]));
                k -= 1;
            }
            proof {
                if k > 0 {
                    assert(s[k - 1] == state_view(out@[k - 1]));
                }
                lemma_insert_state(s, x, k as int);
            }
            out.insert(k, state);
            assert(state_views(out@) =~= s.insert(k as int, x));
        }
        i += 1;
    }
    assert(pods@.take(pods@.len() as int) =~= pods@);
    out
}

/// How many brokers the cluster allocates: never fewer than it has allocated.
pub open spec fn allocation(cluster: RustQueueCluster, eligible: u16) -> Option<u16> {
    let discovered = if cluster.spec.development.allow_single_node {
        Some(
            if eligible == 0 {
                0u16
            } else {
                cluster.spec.development.virtual_replicas
            },
        )
    } else if cluster.spec.nodes.replicas is Some {
        cluster.spec.nodes.replicas
    } else if cluster.spec.nodes.auto_scale_from_nodes {
        Some(eligible)
    } else {
        None
    };
    let allocated = match cluster.status {
        Some(s) => s.allocated_replicas,
        None => 0,
    };
    match discovered {
        Some(n) => Some(
            if n >= allocated {
                n
            } else {
                allocated
            },
        ),
        None => None,
    }
}

/// How many brokers the cluster allocates.
pub fn allocated_capacity(cluster: &RustQueueCluster, eligible: u16) -> (r: Result<
    u16,
    &'static str,
>)
    ensures
        match r {
            Ok(n) => allocation(*cluster, eligible) == Some(n),
            Err(m) => allocation(*cluster, eligible) is None && m@
                == "nodes.replicas is required when autoScaleFromNodes is false"@,
        },
{
    let discovered: u16 = if cluster.spec.development.allow_single_node {
        if eligible == 0 {
            0
        } else {
            cluster.spec.development.virtual_replicas
        }
    } else {
        match cluster.spec.nodes.replicas {
            Some(n) => n,
            None => if cluster.spec.nodes.auto_scale_from_nodes {
                eligible
            } else {
                return Err("nodes.replicas is required when autoScaleFromNodes is false");
            },
        }
    };
    let allocated: u16 = match &cluster.status {
        Some(s) => s.allocated_replicas,
        None => 0,
    };
    if discovered >= allocated {
        Ok(discovered)
    } else {
        Ok(allocated)
    }
}

/// The allocation never shrinks.
pub proof fn law_allocation_never_shrinks(cluster: RustQueueCluster, eligible: u16)
    ensures
        allocation(cluster, eligible) is Some && cluster.status is Some ==> allocation(
            cluster,
            eligible,
        )->0 >= cluster.status->0.allocated_replicas,
{
}

/// Whether two conditions say the same.
pub open spec fn says_same(a: ConditionView, b: ConditionView) -> bool {
    a.type_ == b.type_ && a.status == b.status && a.reason == b.reason && a.message == b.message
}

/// The first of the previous conditions from `k` on that says the same.
pub open spec fn previous_same(
    previous: Seq<ConditionView>,
    c: ConditionView,
    k: int,
) -> Option<int>
    decreases previous.len() - k,
{
    if k < 0 || k >= previous.len() {
        None
    } else if says_same(previous[k], c) {
        Some(k)
    } else {
        previous_same(previous, c, k + 1)
    }
}

/// A condition with the transition time of the previous one that says the same.
pub open spec fn preserved(previous: Seq<ConditionView>, c: ConditionView) -> ConditionView {
    match previous_same(previous, c, 0) {
        Some(i) => ConditionView {
            last_transition_time: previous[i].last_transition_time,
            ..c
        },
        None => c,
    }
}

/// Each condition with its preserved transition time.
pub open spec fn all_preserved(
    previous: Seq<ConditionView>,
    conditions: Seq<ConditionView>,
) -> Seq<ConditionView> {
    conditions.map_values(|c: ConditionView| preserved(previous, c))
}

/// The conditions that the cluster records.
pub open spec fn recorded_conditions(cluster: RustQueueCluster) -> Seq<ConditionView> {
    match cluster.status {
        Some(s) => cluster::condition_views(s.conditions@),
        None => Seq::empty(),
    }
}

fn find_same(previous: &Vec<ClusterCondition>, c: &ClusterCondition) -> (r: Option<usize>)
    ensures
        match r {
            Some(i) => i < previous@.len() && previous_same(
                cluster::condition_views(previous@),
                c@,
                0,
            ) == Some(i as int),
            None => previous_same(cluster::condition_views(previous@), c@, 0) is None,
        },
{
    let ghost views = cluster::condition_views(previous@);
    let mut i: usize = 0;
    while i < previous.len()
        invariant
            i <= previous@.len(),
            views == cluster::condition_views(previous@),
            previous_same(views, c@, 0) == previous_same(views, c@, i as int),
        decreases previous@.len() - i,
    {
        let p = &previous[i];
        assert(views[i as int] == p@);
        if text::str_eq(p.type_.as_str(), c.type_.as_str()) && text::str_eq(
            p.status.as_str(),
            c.status.as_str(),
        ) && text::str_eq(p.reason.as_str(), c.reason.as_str()) && text::str_eq(
            p.message.as_str(),
            c.message.as_str(),
        ) {
            return Some(i);
        }
        i += 1;
    }
    None
}

/// Gives each condition the transition time of the recorded one that says the
/// same.
fn preserve_condition_times(cluster: &RustQueueCluster, conditions: Vec<ClusterCondition>) -> (r:
    Vec<ClusterCondition>)
    ensures
        cluster::condition_views(r@) == all_preserved(
            recorded_conditions(*cluster),
            cluster::condition_views(conditions@),
        ),
{
    let ghost previous = recorded_conditions(*cluster);
    let ghost c = cluster::condition_views(conditions@);
    let mut out: Vec<ClusterCondition> = Vec::new();
    let mut i: usize = 0;
    assert(cluster::condition_views(out@) =~= all_preserved(previous, c.take(0)));
    while i < conditions.len()
        invariant
            i <= conditions@.len(),
            previous == recorded_conditions(*cluster),
            c == cluster::condition_views(conditions@),
            cluster::condition_views(out@) == all_preserved(previous, c.take(i as int)),
        decreases conditions@.len() - i,
    {
        let x = &conditions[i];
        assert(c[i as int] == x@);
        let mut time = x.last_transition_time.clone();
        match &cluster.status {
            Some(s) => {
                if let Some(k) = find_same(&s.conditions, x) {
                    time = s.conditions[k].last_transition_time.clone();
                    assert(previous[k as int] == s.conditions@[k as int]@);
                }
            },
            None => {},
        }
        let y = ClusterCondition {
            type_: x.type_.clone(),
            status: x.status.clone(),
            reason: x.reason.clone(),
            message: x.message.clone(),
            last_transition_time: time,
            observed_generation: x.observed_generation,
        };
        assert(y@ == preserved(previous, c[i as int]));
        let ghost before = out@;
        let ghost v = y@;
        out.push(y);
        assert(cluster::condition_views(out@) =~= cluster::condition_views(before).push(v));
        assert(all_preserved(previous, c.take(i + 1)) =~= all_preserved(
            previous,
            c.take(i as int),
        ).push(v));
        i += 1;
    }
    assert(c.take(conditions@.len() as int) =~= c);
    out
}

/// How many pods are Ready, of one cell or of all.
pub open spec fn ready_count(pods: Seq<PodRolloutState>, cell: Option<u64>) -> nat
    decreases pods.len(),
{
    if pods.len() == 0 {
        0
    } else {
        let p = pods.last();
        ready_count(pods.drop_last(), cell) + if p.ready && (cell is None || cell == Some(
            p.cell_id,
        )) {
            1nat
        } else {
            0nat
        }
    }
}

/// The low 16 bits of a count.
pub open spec fn short(count: nat) -> u16 {
    (count % 0x1_0000) as u16
}

fn count_ready(pods: &[PodRolloutState], cell: Option<u64>) -> (r: u16)
    ensures
        r == short(ready_count(pods@, cell)),
{
    let mut count: usize = 0;
    let mut i: usize = 0;
    assert(pods@.take(0) =~= Seq::<PodRolloutState>::empty());
    while i < pods.len()
        invariant
            i <= pods@.len(),
            count <= i,
            count == ready_count(pods@.take(i as int), cell),
        decreases pods@.len() - i,
    {
        assert(pods@.take(i + 1).drop_last() =~= pods@.take(i as int));
        assert(pods@.take(i + 1).last() == pods@[i as int]);
        let in_cell = match cell {
            None => true,
            Some(c) => c == pods[i].cell_id,
        };
        if pods[i].ready && in_cell {
            count += 1;
        }
        i += 1;
    }
    assert(pods@.take(pods@.len() as int) =~= pods@);
    (count % 0x1_0000) as u16
}

/// What the status says of each cell.
pub open spec fn cell_statuses(cells: Seq<CellView>, pods: Seq<PodRolloutState>) -> Seq<CellStatus> {
    cells.map_values(
        |c: CellView|
            CellStatus {
                id: c.id as u64,
                desired_replicas: short(c.brokers.len()),
                ready_replicas: short(ready_count(pods, Some(c.id as u64))),
            },
    )
}

/// What goes into the status of a cluster.
pub struct StatusFacts {
    pub allocated: u16,
    pub desired: u16,
    pub ready: u16,
    pub placed: nat,
    pub configured: u16,
    pub ca_revision: u64,
    pub rollout_ready: bool,
}

/// Whether every broker is placed.
pub open spec fn placement_ready(f: StatusFacts) -> bool {
    f.placed == f.desired
}

/// Whether the cluster is available.
pub open spec fn is_available(f: StatusFacts, min_nodes: u8) -> bool {
    f.desired >= min_nodes && f.ready == f.desired && f.configured == f.desired && f.rollout_ready
}

/// The phase of the cluster.
pub open spec fn cluster_phase(f: StatusFacts, min_nodes: u8) -> Seq<char> {
    if is_available(f, min_nodes) {
        "Ready"@
    } else if f.desired == 0 {
        "PendingNodes"@
    } else if !placement_ready(f) {
        "Degraded"@
    } else {
        "Reconciling"@
    }
}

/// The conditions of a cluster, stamped with a time.
pub open spec fn status_conditions(
    f: StatusFacts,
    generation: Option<i64>,
    class_name: Seq<char>,
    min_nodes: u8,
    time: Seq<char>,
) -> Seq<ConditionView> {
    let available = is_available(f, min_nodes);
    let placed = placement_ready(f);
    seq![
        status::condition_at(
            generation,
            "SpecValid"@,
            true,
            "Validated"@,
            "configuration is valid"@,
            time,
        ),
        status::condition_at(
            generation,
            "StorageReady"@,
            true,
            "StorageClassResolved"@,
            "PVCs use StorageClass "@ + class_name,
            time,
        ),
        status::condition_at(
            generation,
            "CertificatesReady"@,
            true,
            "ManagedPKIReady"@,
            "managed CA revision "@ + text::dec(f.ca_revision as nat) + " is active"@,
            time,
        ),
        status::condition_at(
            generation,
            "UpgradeReady"@,
            f.rollout_ready,
            if f.rollout_ready {
                "RolloutComplete"@
            } else {
                "RolloutProgressing"@
            },
            if f.rollout_ready {
                "every Broker runs the desired workload revision"@
            } else {
                "one-at-a-time rollout is still converging"@
            },
            time,
        ),
        status::condition_at(
            generation,
            "PlacementReady"@,
            placed,
            if placed {
                "Assigned"@
            } else {
                "InsufficientEligibleNodes"@
            },
            text::dec(f.placed) + " of "@ + text::dec(f.desired as nat)
                + " Brokers have node assignments"@,
            time,
        ),
        status::condition_at(
            generation,
            "Available"@,
            available,
            if available {
                "AllBrokersReady"@
            } else {
                "Progressing"@
            },
            text::dec(f.ready as nat) + " of "@ + text::dec(f.desired as nat)
                + " Brokers are Ready"@,
            time,
        ),
    ]
}

/// The facts of a cluster.
pub open spec fn status_facts(
    allocated: u16,
    cells: Seq<CellView>,
    placed: nat,
    configured: u16,
    ca_revision: u64,
    pods: Seq<PodRolloutState>,
    target: RolloutTarget<'_>,
) -> StatusFacts {
    StatusFacts {
        allocated,
        desired: layout::all_brokers(cells).len() as u16,
        ready: short(ready_count(pods, None)),
        placed,
        configured,
        ca_revision,
        rollout_ready: upgrade::is_complete(pods, target),
    }
}

/// The status of a cluster at a time.
pub open spec fn built_status(
    cluster: RustQueueCluster,
    generation: Option<i64>,
    f: StatusFacts,
    layout: layout::LayoutView,
    pods: Seq<PodRolloutState>,
    upgrade: Option<UpgradeView>,
    time: Seq<char>,
) -> ClusterStatusView {
    ClusterStatusView {
        observed_generation: generation,
        phase: cluster_phase(f, cluster.spec.cells.min_nodes),
        allocated_replicas: f.allocated,
        desired_replicas: f.desired,
        ready_replicas: f.ready,
        pending_nodes: layout.pending_nodes as u16,
        ca_revision: text::dec(f.ca_revision as nat),
        cells: cell_statuses(layout.cells, pods),
        upgrade,
        conditions: all_preserved(
            recorded_conditions(cluster),
            status_conditions(
                f,
                generation,
                cluster.spec.storage.class_name@,
                cluster.spec.cells.min_nodes,
                time,
            ),
        ),
    }
}

fn build_cells(layout: &ClusterLayout, pods: &[PodRolloutState]) -> (r: Vec<CellStatus>)
    ensures
        r@ == cell_statuses(layout@.cells, pods@),
{
    let ghost views = layout@.cells;
    let mut out: Vec<CellStatus> = Vec::new();
    let mut i: usize = 0;
    assert(out@ =~= cell_statuses(views.take(0), pods@));
    while i < layout.cells.len()
        invariant
            i <= layout.cells@.len(),
            views == layout@.cells,
            out@ == cell_statuses(views.take(i as int), pods@),
        decreases layout.cells@.len() - i,
    {
        let cell = &layout.cells[i];
        assert(views[i as int] == cell@);
        assert(cell@.brokers.len() == cell.brokers@.len());
        let ghost before = out@;
        let s = CellStatus {
            id: cell.id,
            desired_replicas: (cell.brokers.len() % 0x1_0000) as u16,
            ready_replicas: count_ready(pods, Some(cell.id)),
        };
        out.push(s);
        assert(cell_statuses(views.take(i + 1), pods@) =~= cell_statuses(
            views.take(i as int),
            pods@,
        ).push(s));
        i += 1;
    }
    assert(views.take(layout.cells@.len() as int) =~= views);
    out
}

fn build_conditions(
    cluster: &RustQueueCluster,
    generation: Option<i64>,
    desired: u16,
    ready: u16,
    placed: usize,
    ca_revision: u64,
    rollout_ready: bool,
    available: bool,
    time: &str,
    Ghost(f): Ghost<StatusFacts>,
) -> (r: Vec<ClusterCondition>)
    requires
        f.desired == desired,
        f.ready == ready,
        f.placed == placed,
        f.ca_revision == ca_revision,
        f.rollout_ready == rollout_ready,
        available == is_available(f, cluster.spec.cells.min_nodes),
    ensures
        cluster::condition_views(r@) == status_conditions(
            f,
            generation,
            cluster.spec.storage.class_name@,
            cluster.spec.cells.min_nodes,
            time@,
        ),
{
    let placement_ready: bool = placed == desired as usize;
    let mut storage = "PVCs use StorageClass ".to_owned();
    storage.append(cluster.spec.storage.class_name.as_str());
    let mut pki = "managed CA revision ".to_owned();
    pki.append(text::decimal(ca_revision).as_str());
    pki.append(" is active");
    let mut assigned = text::decimal(placed as u64);
    assigned.append(" of ");
    assigned.append(text::decimal(desired as u64).as_str());
    assigned.append(" Brokers have node assignments");
    let mut readiness = text::decimal(ready as u64);
    readiness.append(" of ");
    readiness.append(text::decimal(desired as u64).as_str());
    readiness.append(" Brokers are Ready");
    let mut out: Vec<ClusterCondition> = Vec::new();
    out.push(
        status::stamped_condition(
            generation,
            "SpecValid",
            true,
            "Validated",
            "configuration is valid",
            time,
        ),
    );
    out.push(
        status::stamped_condition(
            generation,
            "StorageReady",
            true,
            "StorageClassResolved",
            storage.as_str(),
            time,
        ),
    );
    out.push(
        status::stamped_condition(
            generation,
            "CertificatesReady",
            true,
            "ManagedPKIReady",
            pki.as_str(),
            time,
        ),
    );
    out.push(
        status::stamped_condition(
            generation,
            "UpgradeReady",
            rollout_ready,
            if rollout_ready {
                "RolloutComplete"
            } else {
                "RolloutProgressing"
            },
            if rollout_ready {
                "every Broker runs the desired workload revision"
            } else {
                "one-at-a-time rollout is still converging"
            },
            time,
        ),
    );
    out.push(
        status::stamped_condition(
            generation,
            "PlacementReady",
            placement_ready,
            if placement_ready {
                "Assigned"
            } else {
                "InsufficientEligibleNodes"
            },
            assigned.as_str(),
            time,
        ),
    );
    out.push(
        status::stamped_condition(
            generation,
            "Available",
            available,
            if available {
                "AllBrokersReady"
            } else {
                "Progressing"
            },
            readiness.as_str(),
            time,
        ),
    );
    assert(cluster::condition_views(out@) =~= status_conditions(
        f,
        generation,
        cluster.spec.storage.class_name@,
        cluster.spec.cells.min_nodes,
        time@,
    ));
    out
}

/// Builds the status of a cluster, stamped with a time.
pub fn build_status_at(
    cluster: &RustQueueCluster,
    generation: Option<i64>,
    allocated: u16,
    layout: &ClusterLayout,
    placements: &BTreeMap<u64, BrokerPlacement>,
    configured: u16,
    ca_revision: u64,
    pods: &[PodRolloutState],
    upgrade: Option<UpgradeStatus>,
    target: &RolloutTarget<'_>,
    time: &str,
) -> (r: RustQueueClusterStatus)
    requires
        layout::all_brokers(layout@.cells).len() <= u16::MAX,
    ensures
        r@ == built_status(
            *cluster,
            generation,
            status_facts(
                allocated,
                layout@.cells,
                placements@.len(),
                configured,
                ca_revision,
                pods@,
                *target,
            ),
            layout@,
            pods@,
            cluster::opt_upgrade(upgrade),
            time@,
        ),
{
    let ghost f = status_facts(
        allocated,
        layout@.cells,
        placements@.len(),
        configured,
        ca_revision,
        pods@,
        *target,
    );
    let ready: u16 = count_ready(pods, None);
    let desired: u16 = layout.active_replicas();
    let placed: usize = placements.len();
    let rollout_ready = upgrade::complete(pods, target);
    let available = desired >= cluster.spec.cells.min_nodes as u16 && ready == desired
        && configured == desired && rollout_ready;
    let phase = if available {
        "Ready".to_owned()
    } else if desired == 0 {
        "PendingNodes".to_owned()
    } else if placed != desired as usize {
        "Degraded".to_owned()
    } else {
        "Reconciling".to_owned()
    };
    let conditions = build_conditions(
        cluster,
        generation,
        desired,
        ready,
        placed,
        ca_revision,
        rollout_ready,
        available,
        time,
        Ghost(f),
    );
    RustQueueClusterStatus {
        observed_generation: generation,
        phase,
        allocated_replicas: allocated,
        desired_replicas: desired,
        ready_replicas: ready,
        pending_nodes: layout.pending_nodes,
        ca_revision: text::decimal(ca_revision),
        cells: build_cells(layout, pods),
        upgrade,
        conditions: preserve_condition_times(cluster, conditions),
    }
}

/// Builds the status of a cluster now.
pub fn build_status(
    cluster: &RustQueueCluster,
    generation: Option<i64>,
    allocated: u16,
    layout: &ClusterLayout,
    placements: &BTreeMap<u64, BrokerPlacement>,
    configured: u16,
    ca_revision: u64,
    pods: &[PodRolloutState],
    upgrade: Option<UpgradeStatus>,
    target: &RolloutTarget<'_>,
) -> (r: RustQueueClusterStatus)
    requires
        layout::all_brokers(layout@.cells).len() <= u16::MAX,
    ensures
        exists|time: Seq<char>|
            r@ == #[trigger] built_status(
                *cluster,
                generation,
                status_facts(
                    allocated,
                    layout@.cells,
                    placements@.len(),
                    configured,
                    ca_revision,
                    pods@,
                    *target,
                ),
                layout@,
                pods@,
                cluster::opt_upgrade(upgrade),
                time,
            ),
{
    let time = status::now();
    build_status_at(
        cluster,
        generation,
        allocated,
        layout,
        placements,
        configured,
        ca_revision,
        pods,
        upgrade,
        target,
        time.as_str(),
    )
}

/// The recorded status, or none.
pub open spec fn recorded_status(cluster: RustQueueCluster) -> ClusterStatusView {
    match cluster.status {
        Some(s) => s@,
        None => cluster::no_cluster_status(),
    }
}

/// The status of a cluster that cannot be reconciled: the recorded one, with
/// the phase `Invalid` and one condition that says why.
pub open spec fn blocked(
    cluster: RustQueueCluster,
    generation: Option<i64>,
    type_: Seq<char>,
    reason: Seq<char>,
    message: Seq<char>,
    time: Seq<char>,
) -> ClusterStatusView {
    ClusterStatusView {
        observed_generation: generation,
        phase: "Invalid"@,
        conditions: all_preserved(
            recorded_conditions(cluster),
            seq![status::condition_at(generation, type_, false, reason, message, time)],
        ),
        ..recorded_status(cluster)
    }
}

fn clone_cells(v: &Vec<CellStatus>) -> (r: Vec<CellStatus>)
    ensures
        r@ == v@,
{
    let mut out: Vec<CellStatus> = Vec::new();
    let mut i: usize = 0;
    while i < v.len()
        invariant
            i <= v@.len(),
            out@ == v@.take(i as int),
        decreases v@.len() - i,
    {
        out.push(v[i]);
        i += 1;
        assert(v@.take(i as int) =~= v@.take(i - 1).push(v@[i - 1]));
    }
    assert(v@.take(v@.len() as int) =~= v@);
    out
}

/// The status of a cluster that cannot be reconciled, stamped with a time.
pub fn blocked_status_at(
    cluster: &RustQueueCluster,
    generation: Option<i64>,
    type_: &str,
    reason: &str,
    message: &str,
    time: &str,
) -> (r: RustQueueClusterStatus)
    ensures
        r@ == blocked(*cluster, generation, type_@, reason@, message@, time@),
{
    let mut conditions: Vec<ClusterCondition> = Vec::new();
    conditions.push(
        status::stamped_condition(generation, type_, false, reason, message, time),
    );
    assert(cluster::condition_views(conditions@) =~= seq![
        status::condition_at(generation, type_@, false, reason@, message@, time@),
    ]);
    let conditions = preserve_condition_times(cluster, conditions);
    match &cluster.status {
        Some(s) => RustQueueClusterStatus {
            observed_generation: generation,
            phase: "Invalid".to_owned(),
            allocated_replicas: s.allocated_replicas,
            desired_replicas: s.desired_replicas,
            ready_replicas: s.ready_replicas,
            pending_nodes: s.pending_nodes,
            ca_revision: s.ca_revision.clone(),
            cells: clone_cells(&s.cells),
            upgrade: cluster::clone_upgrade(&s.upgrade),
            conditions,
        },
        None => {
            let cells: Vec<CellStatus> = Vec::new();
            assert(cells@ =~= Seq::<CellStatus>::empty());
            RustQueueClusterStatus {
                observed_generation: generation,
                phase: "Invalid".to_owned(),
                allocated_replicas: 0,
                desired_replicas: 0,
                ready_replicas: 0,
                pending_nodes: 0,
                ca_revision: String::new(),
                cells,
                upgrade: None,
                conditions,
            }
        },
    }
}

/// The status of a cluster that cannot be reconciled now.
pub fn blocked_status(
    cluster: &RustQueueCluster,
    generation: Option<i64>,
    type_: &str,
    reason: &str,
    message: &str,
) -> (r: RustQueueClusterStatus)
    ensures
        exists|time: Seq<char>|
            r@ == #[trigger] blocked(*cluster, generation, type_@, reason@, message@, time),
{
    let time = status::now();
    blocked_status_at(cluster, generation, type_, reason, message, time.as_str())
}

/// The rollout status while the rollout waits.
pub fn waiting_upgrade(cluster: &RustQueueCluster, reason: &str) -> (r: UpgradeStatus)
    ensures
        r@ == (UpgradeView {
            target_image: cluster.spec.image@,
            current_node_id: None,
            started_at: None,
            paused: false,
            reason: reason@,
            observed_retry_generation: cluster.spec.upgrade.retry_generation,
        }),
{
    UpgradeStatus {
        target_image: cluster.spec.image.clone(),
        current_node_id: None,
        started_at: None,
        paused: false,
        reason: reason.to_owned(),
        observed_retry_generation: cluster.spec.upgrade.retry_generation,
    }
}

/// A condition that says the same as before keeps its transition time, whatever
/// the clock shows.
pub proof fn law_unchanged_condition_keeps_its_time(
    previous: Seq<ConditionView>,
    c: ConditionView,
    time: Seq<char>,
)
    ensures
        previous_same(previous, c, 0) is Some ==> preserved(previous, c).last_transition_time
            == preserved(
            previous,
            ConditionView { last_transition_time: time, ..c },
        ).last_transition_time,
{
    lemma_previous_same(previous, c, ConditionView { last_transition_time: time, ..c }, 0);
}

proof fn lemma_previous_same(
    previous: Seq<ConditionView>,
    a: ConditionView,
    b: ConditionView,
    k: int,
)
    requires
        0 <= k,
        says_same(a, b),
    ensures
        previous_same(previous, a, k) == previous_same(previous, b, k),
    decreases previous.len() - k,
{
    if k < previous.len() {
        lemma_previous_same(previous, a, b, k + 1);
    }
}

/// Where a broker stands is told by its pod; where it has none, by its set.
pub proof fn law_pods_tell_where_brokers_stand(sets: Seq<BrokerSet>, pods: Seq<Pod>, id: u64)
    ensures
        ({
            let m = pod_nodes(sets, pods);
            &&& (exists|i: int|
                0 <= i < pods.len() && kube::number_under(
                    (#[trigger] pods[i]).labels@,
                    "rustqueue.io/node-id"@,
                ) == Some(id) && pods[i].node_name is Some) ==> m.contains_key(id) && exists|i: int|
                0 <= i < pods.len() && kube::number_under(
                    (#[trigger] pods[i]).labels@,
                    "rustqueue.io/node-id"@,
                ) == Some(id) && pods[i].node_name is Some && pods[i].node_name->0@ == m[id]
            &&& !(exists|i: int|
                0 <= i < pods.len() && kube::number_under(
                    (#[trigger] pods[i]).labels@,
                    "rustqueue.io/node-id"@,
                ) == Some(id) && pods[i].node_name is Some) ==> m.contains_key(id)
                == set_nodes(sets).contains_key(id) && (m.contains_key(id) ==> m[id]
                == set_nodes(sets)[id])
        }),
    decreases pods.len(),
{
    if pods.len() > 0 {
        let d = pods.drop_last();
        let n = pods.len() - 1;
        law_pods_tell_where_brokers_stand(sets, d, id);
        let p = pods.last();
        assert(pods[n] == p);
        if exists|i: int|
            0 <= i < d.len() && kube::number_under(
                (#[trigger] d[i]).labels@,
                "rustqueue.io/node-id"@,
            ) == Some(id) && d[i].node_name is Some {
            let i = choose|i: int|
                0 <= i < d.len() && kube::number_under(
                    (#[trigger] d[i]).labels@,
                    "rustqueue.io/node-id"@,
                ) == Some(id) && d[i].node_name is Some && d[i].node_name->0@ == pod_nodes(
                    sets,
                    d,
                )[id];
            assert(pods[i] == d[i]);
        }
        if exists|i: int|
            0 <= i < pods.len() && kube::number_under(
                (#[trigger] pods[i]).labels@,
                "rustqueue.io/node-id"@,
            ) == Some(id) && pods[i].node_name is Some {
            let i = choose|i: int|
                0 <= i < pods.len() && kube::number_under(
                    (#[trigger] pods[i]).labels@,
                    "rustqueue.io/node-id"@,
                ) == Some(id) && pods[i].node_name is Some;
            if i < n {
                assert(d[i] == pods[i]);
            }
        }
    }
}

/// Where the set of a broker puts it is read from its template.
pub proof fn law_sets_tell_where_brokers_go(sets: Seq<BrokerSet>, id: u64)
    ensures
        set_nodes(sets).contains_key(id) <==> exists|i: int|
            0 <= i < sets.len() && kube::number_under(
                (#[trigger] sets[i]).labels@,
                "rustqueue.io/node-id"@,
            ) == Some(id) && string_map::lookup(
                sets[i].template_annotations@,
                "rustqueue.io/target-node"@,
            ) is Some,
        set_nodes(sets).contains_key(id) ==> exists|i: int|
            0 <= i < sets.len() && kube::number_under(
                (#[trigger] sets[i]).labels@,
                "rustqueue.io/node-id"@,
            ) == Some(id) && string_map::lookup(
                sets[i].template_annotations@,
                "rustqueue.io/target-node"@,
            ) == Some(set_nodes(sets)[id]),
    decreases sets.len(),
{
    if sets.len() > 0 {
        let d = sets.drop_last();
        let n = sets.len() - 1;
        law_sets_tell_where_brokers_go(d, id);
        assert(sets[n] == sets.last());
        if set_nodes(d).contains_key(id) {
            let i = choose|i: int|
                0 <= i < d.len() && kube::number_under(
                    (#[trigger] d[i]).labels@,
                    "rustqueue.io/node-id"@,
                ) == Some(id) && string_map::lookup(
                    d[i].template_annotations@,
                    "rustqueue.io/target-node"@,
                ) == Some(set_nodes(d)[id]);
            assert(sets[i] == d[i]);
        }
        if exists|i: int|
            0 <= i < sets.len() && kube::number_under(
                (#[trigger] sets[i]).labels@,
                "rustqueue.io/node-id"@,
            ) == Some(id) && string_map::lookup(
                sets[i].template_annotations@,
                "rustqueue.io/target-node"@,
            ) is Some {
            let i = choose|i: int|
                0 <= i < sets.len() && kube::number_under(
                    (#[trigger] sets[i]).labels@,
                    "rustqueue.io/node-id"@,
                ) == Some(id) && string_map::lookup(
                    sets[i].template_annotations@,
                    "rustqueue.io/target-node"@,
                ) is Some;
            if i < n {
                assert(d[i] == sets[i]);
            }
        }
    }
}

/// The state of a pod is read from its labels, its annotations and its broker container, and a
/// pod without number, cell or broker has none.
pub proof fn law_states_are_read_from_pods(pod: Pod)
    ensures
        ({
            let s = pod_state(pod);
            let id = kube::number_under(pod.labels@, "rustqueue.io/node-id"@);
            let cell = kube::number_under(pod.labels@, "rustqueue.io/cell"@);
            let a = pod.annotations@;
            &&& s is Some <==> id is Some && cell is Some && kube::first_container(
                pod.containers@,
                "rustqueue"@,
                0,
            ) is Some
            &&& s is Some ==> s->0.node_id == id->0 && s->0.cell_id == cell->0 && s->0.pod_name
                == pod.name@ && s->0.ready == kube::reports_ready(pod.conditions@)
            &&& s is Some && kube::number_under(a, "rustqueue.io/tls-revision"@) is Some
                ==> s->0.tls_revision == kube::number_under(a, "rustqueue.io/tls-revision"@)->0
            &&& s is Some && kube::number_under(a, "rustqueue.io/config-revision"@) is Some
                ==> s->0.config_revision == kube::number_under(
                a,
                "rustqueue.io/config-revision"@,
            )->0
            &&& s is Some && kube::number_under(a, "rustqueue.io/rollout-revision"@) is Some
                ==> s->0.rollout_revision == kube::number_under(
                a,
                "rustqueue.io/rollout-revision"@,
            )->0
            &&& s is Some && string_map::lookup(a, "rustqueue.io/target-node"@) is Some
                ==> s->0.target_node == string_map::lookup(a, "rustqueue.io/target-node"@)->0
            &&& s is Some && kube::number_under(a, "rustqueue.io/tls-revision"@) is None
                ==> s->0.tls_revision == 0
        }),
{
}

proof fn lemma_inserted_state(s: Seq<PodStateView>, x: PodStateView, y: PodStateView)
    ensures
        insert_state(s, x).contains(y) <==> y == x || s.contains(y),
        (forall|i: int, j: int|
            0 <= i <= j < s.len() ==> (#[trigger] s[i]).node_id <= (#[trigger] s[j]).node_id)
            ==> forall|i: int, j: int|
            0 <= i <= j < insert_state(s, x).len() ==> (#[trigger] insert_state(s, x)[i]).node_id
                <= (#[trigger] insert_state(s, x)[j]).node_id,
        insert_state(s, x).len() == s.len() + 1,
        forall|i: int| 0 <= i < insert_state(s, x).len() ==> #[trigger] insert_state(s, x)[i] == x
            || s.contains(insert_state(s, x)[i]),
    decreases s.len(),
{
    let r = insert_state(s, x);
    if s.len() > 0 && x.node_id < s.last().node_id {
        let d = s.drop_last();
        let q = insert_state(d, x);
        lemma_inserted_state(d, x, y);
        assert(s[s.len() - 1] == s.last());
        assert(r[r.len() - 1] == s.last());
        if q.contains(y) {
            let w = q.index_of(y);
            assert(r[w] == y);
        }
        if r.contains(y) {
            let w = r.index_of(y);
            if w < q.len() {
                assert(q[w] == y);
            }
        }
        if d.contains(y) {
            let w = d.index_of(y);
            assert(s[w] == y);
        }
        if s.contains(y) {
            let w = s.index_of(y);
            if w < d.len() {
                assert(d[w] == y);
            }
        }
        assert forall|i: int| 0 <= i < r.len() implies #[trigger] r[i] == x || s.contains(r[i]) by {
            if i < q.len() {
                assert(q[i] == r[i]);
                if q[i] != x {
                    let w = d.index_of(q[i]);
                    assert(s[w] == r[i]);
                }
            }
        }
        if forall|i: int, j: int|
            0 <= i <= j < s.len() ==> (#[trigger] s[i]).node_id <= (#[trigger] s[j]).node_id {
            assert forall|i: int, j: int| 0 <= i <= j < d.len() implies (#[trigger] d[i]).node_id
                <= (#[trigger] d[j]).node_id by {
                assert(s[i].node_id <= s[j].node_id);
            }
            assert forall|i: int, j: int| 0 <= i <= j < r.len() implies (#[trigger] r[i]).node_id
                <= (#[trigger] r[j]).node_id by {
                if j < q.len() {
                    assert(q[i].node_id <= q[j].node_id);
                } else if i < q.len() {
                    assert(q[i] == r[i]);
                    if q[i] != x {
                        let w = d.index_of(q[i]);
                        assert(s[w].node_id <= s[s.len() - 1].node_id);
                    }
                }
            }
        }
    } else {
        assert(r[r.len() - 1] == x);
        if s.contains(y) {
            let w = s.index_of(y);
            assert(r[w] == y);
        }
        if r.contains(y) {
            let w = r.index_of(y);
            if w < s.len() {
                assert(s[w] == y);
            }
        }
        assert forall|i: int| 0 <= i < r.len() implies #[trigger] r[i] == x || s.contains(r[i]) by {
            if i < s.len() {
                assert(s[i] == r[i]);
            }
        }
        if forall|i: int, j: int|
            0 <= i <= j < s.len() ==> (#[trigger] s[i]).node_id <= (#[trigger] s[j]).node_id {
            assert forall|i: int, j: int| 0 <= i <= j < r.len() implies (#[trigger] r[i]).node_id
                <= (#[trigger] r[j]).node_id by {
                if j < s.len() {
                    assert(s[i].node_id <= s[j].node_id);
                } else if i < s.len() {
                    assert(s[i].node_id <= s[s.len() - 1].node_id);
                }
            }
        }
    }
}

/// The states of the brokers are those of the pods that have one, in the order of their numbers.
pub proof fn law_states_are_those_of_the_pods(pods: Seq<Pod>, x: PodStateView)
    ensures
        broker_states(pods).contains(x) <==> exists|i: int|
            0 <= i < pods.len() && pod_state(#[trigger] pods[i]) == Some(x),
        forall|i: int, j: int|
            0 <= i <= j < broker_states(pods).len() ==> (#[trigger] broker_states(pods)[i]).node_id
                <= (#[trigger] broker_states(pods)[j]).node_id,
    decreases pods.len(),
{
    if pods.len() > 0 {
        let d = pods.drop_last();
        law_states_are_those_of_the_pods(d, x);
        assert(pods[pods.len() - 1] == pods.last());
        match pod_state(pods.last()) {
            Some(s) => {
                lemma_inserted_state(broker_states(d), s, x);
            },
            None => {},
        }
        if exists|i: int| 0 <= i < d.len() && pod_state(#[trigger] d[i]) == Some(x) {
            let i = choose|i: int| 0 <= i < d.len() && pod_state(#[trigger] d[i]) == Some(x);
            assert(pods[i] == d[i]);
        }
        if exists|i: int| 0 <= i < pods.len() && pod_state(#[trigger] pods[i]) == Some(x) {
            let i = choose|i: int| 0 <= i < pods.len() && pod_state(#[trigger] pods[i]) == Some(x);
            if i < d.len() {
                assert(d[i] == pods[i]);
            }
        }
    }
}

/// As many brokers are allocated as are asked for, or as there are nodes where that is asked for,
/// and never fewer than before.
pub proof fn law_allocations_are_as_asked(cluster: RustQueueCluster, eligible: u16)
    ensures
        ({
            let r = allocation(cluster, eligible);
            let dev = cluster.spec.development;
            let nodes = cluster.spec.nodes;
            let before: u16 = if cluster.status is Some {
                cluster.status->0.allocated_replicas
            } else {
                0
            };
            &&& r is None <==> !dev.allow_single_node && nodes.replicas is None
                && !nodes.auto_scale_from_nodes
            &&& r is Some ==> r->0 >= before
            &&& r is Some && r->0 > before && dev.allow_single_node ==> eligible > 0 && r->0
                == dev.virtual_replicas
            &&& dev.allow_single_node && eligible > 0 ==> r->0 >= dev.virtual_replicas
            &&& !dev.allow_single_node && nodes.replicas is Some ==> r->0 >= nodes.replicas->0 && (
            r->0 == before || r->0 == nodes.replicas->0)
            &&& !dev.allow_single_node && nodes.replicas is None && nodes.auto_scale_from_nodes
                ==> r->0 >= eligible && (r->0 == before || r->0 == eligible)
        }),
{
}

/// A condition that says what it said before keeps its time; nothing else of it changes.
pub proof fn law_conditions_keep_the_time_of_what_they_say(
    previous: Seq<ConditionView>,
    c: ConditionView,
    i: int,
)
    ensures
        ({
            let r = preserved(previous, c);
            &&& r.type_ == c.type_ && r.status == c.status && r.reason == c.reason && r.message
                == c.message && r.observed_generation == c.observed_generation
            &&& r.last_transition_time == c.last_transition_time || exists|j: int|
                0 <= j < previous.len() && (#[trigger] previous[j]).type_ == c.type_
                    && previous[j].status == c.status && previous[j].reason == c.reason
                    && previous[j].message == c.message && previous[j].last_transition_time
                    == r.last_transition_time
            &&& 0 <= i < previous.len() && previous[i].type_ == c.type_ && previous[i].status
                == c.status && previous[i].reason == c.reason && previous[i].message == c.message
                ==> exists|j: int|
                0 <= j <= i && (#[trigger] previous[j]).type_ == c.type_
                    && previous[j].last_transition_time == r.last_transition_time
        }),
{
    lemma_previous_is_the_first(previous, c, 0, i);
    if previous_same(previous, c, 0) is Some {
        let j = previous_same(previous, c, 0)->0;
        assert(previous[j].type_ == c.type_);
    }
}

proof fn lemma_previous_is_the_first(
    previous: Seq<ConditionView>,
    c: ConditionView,
    k: int,
    i: int,
)
    requires
        k >= 0,
    ensures
        previous_same(previous, c, k) matches Some(j) ==> k <= j < previous.len() && says_same(
            previous[j],
            c,
        ),
        k <= i < previous.len() && says_same(previous[i], c) ==> previous_same(previous, c, k)
            is Some && previous_same(previous, c, k)->0 <= i,
    decreases previous.len() - k,
{
    if k < previous.len() && !says_same(previous[k], c) {
        lemma_previous_is_the_first(previous, c, k + 1, i);
    }
}

proof fn lemma_ready_count(pods: Seq<PodRolloutState>, cell: u64)
    ensures
        ready_count(pods, None) == pods.filter(|p: PodRolloutState| p.ready).len(),
        ready_count(pods, Some(cell)) == pods.filter(
            |p: PodRolloutState| p.ready && p.cell_id == cell,
        ).len(),
    decreases pods.len(),
{
    reveal(Seq::filter);
    if pods.len() > 0 {
        lemma_ready_count(pods.drop_last(), cell);
    }
}

/// Each cell is told with the brokers that it should have and with those of its pods that are
/// ready.
pub proof fn law_cells_are_told_with_their_own_pods(
    cells: Seq<CellView>,
    pods: Seq<PodRolloutState>,
    i: int,
)
    requires
        0 <= i < cells.len(),
        cells[i].id <= u64::MAX,
        cells[i].brokers.len() <= u16::MAX,
        pods.len() <= u16::MAX,
    ensures
        ({
            let s = cell_statuses(cells, pods);
            &&& s.len() == cells.len()
            &&& s[i].id == cells[i].id
            &&& s[i].desired_replicas == cells[i].brokers.len()
            &&& s[i].ready_replicas == pods.filter(
                |p: PodRolloutState| p.ready && p.cell_id == cells[i].id as u64,
            ).len()
        }),
{
    let cell = cells[i].id as u64;
    lemma_ready_count(pods, cell);
    let f = |p: PodRolloutState| p.ready && p.cell_id == cell;
    assert(pods.filter(f).len() <= pods.len()) by {
        pods.lemma_filter_len(f);
    }
    assert(f =~= |p: PodRolloutState| p.ready && p.cell_id == cells[i].id as u64);
}

/// A cluster is ready exactly where it has enough brokers, all of them are ready and configured,
/// and none is outdated; without brokers it waits for nodes, with brokers that have no node it is
/// degraded.
pub proof fn law_phases_of_clusters(f: StatusFacts, min_nodes: u8)
    ensures
        ({
            let p = cluster_phase(f, min_nodes);
            let ready = f.desired >= min_nodes && f.ready == f.desired && f.configured == f.desired
                && f.rollout_ready;
            &&& p == "Ready"@ <==> ready
            &&& p == "PendingNodes"@ <==> !ready && f.desired == 0
            &&& p == "Degraded"@ <==> !ready && f.desired != 0 && f.placed != f.desired
            &&& p == "Reconciling"@ <==> !ready && f.desired != 0 && f.placed == f.desired
        }),
{
    reveal_strlit("Ready");
    reveal_strlit("PendingNodes");
    reveal_strlit("Degraded");
    reveal_strlit("Reconciling");
    assert("Ready"@.len() == 5 && "PendingNodes"@.len() == 12 && "Degraded"@.len() == 8
        && "Reconciling"@.len() == 11);
}

/// The conditions of a cluster say whether its rollout is complete, its brokers have nodes, and
/// it is available.
pub proof fn law_conditions_of_clusters(
    f: StatusFacts,
    generation: Option<i64>,
    class_name: Seq<char>,
    min_nodes: u8,
    time: Seq<char>,
)
    ensures
        ({
            let c = status_conditions(f, generation, class_name, min_nodes, time);
            let ready = f.desired >= min_nodes && f.ready == f.desired && f.configured == f.desired
                && f.rollout_ready;
            &&& c.len() == 6
            &&& c[0].type_ == "SpecValid"@ && c[0].status == "True"@
            &&& c[1].type_ == "StorageReady"@ && c[1].status == "True"@
            &&& c[2].type_ == "CertificatesReady"@ && c[2].status == "True"@
            &&& c[3].type_ == "UpgradeReady"@ && (c[3].status == if f.rollout_ready {
                "True"@
            } else {
                "False"@
            })
            &&& c[4].type_ == "PlacementReady"@ && (c[4].status == if f.placed == f.desired {
                "True"@
            } else {
                "False"@
            })
            &&& c[5].type_ == "Available"@ && (c[5].status == if ready {
                "True"@
            } else {
                "False"@
            })
            &&& forall|i: int|
                0 <= i < 6 ==> (#[trigger] c[i]).last_transition_time == time
                    && c[i].observed_generation == generation
        }),
{
}

/// The status of a cluster tells what was counted.
pub proof fn law_statuses_of_clusters_tell_the_counts(
    cluster: RustQueueCluster,
    generation: Option<i64>,
    allocated: u16,
    layout: layout::LayoutView,
    placed: nat,
    configured: u16,
    ca_revision: u64,
    pods: Seq<PodRolloutState>,
    target: RolloutTarget<'_>,
    upgrade: Option<UpgradeView>,
    time: Seq<char>,
)
    requires
        pods.len() <= u16::MAX,
        layout::all_brokers(layout.cells).len() <= u16::MAX,
        layout.pending_nodes <= u16::MAX,
    ensures
        ({
            let f = status_facts(
                allocated,
                layout.cells,
                placed,
                configured,
                ca_revision,
                pods,
                target,
            );
            let r = built_status(cluster, generation, f, layout, pods, upgrade, time);
            &&& r.observed_generation == generation
            &&& r.allocated_replicas == allocated
            &&& r.desired_replicas == layout::all_brokers(layout.cells).len()
            &&& r.ready_replicas == pods.filter(|p: PodRolloutState| p.ready).len()
            &&& r.pending_nodes == layout.pending_nodes
            &&& r.ca_revision == text::dec(ca_revision as nat)
            &&& r.upgrade == upgrade
            &&& r.cells.len() == layout.cells.len()
            &&& r.conditions.len() == 6
            &&& f.placed == placed && f.configured == configured
            &&& f.rollout_ready == upgrade::is_complete(pods, target)
        }),
{
    lemma_ready_count(pods, 0);
    let g = |p: PodRolloutState| p.ready;
    assert(pods.filter(g).len() <= pods.len()) by {
        pods.lemma_filter_len(g);
    }
}

/// What stops a cluster is its only condition, which is false; the counts of its last status
/// stay.
pub proof fn law_stopped_clusters_tell_why(
    cluster: RustQueueCluster,
    generation: Option<i64>,
    type_: Seq<char>,
    reason: Seq<char>,
    message: Seq<char>,
    time: Seq<char>,
)
    ensures
        ({
            let r = blocked(cluster, generation, type_, reason, message, time);
            &&& r.phase == "Invalid"@ && r.observed_generation == generation
            &&& r.conditions.len() == 1
            &&& r.conditions[0].type_ == type_ && r.conditions[0].status == "False"@
            &&& r.conditions[0].reason == reason && r.conditions[0].message == message
            &&& cluster.status is Some ==> r.allocated_replicas
                == cluster.status->0.allocated_replicas && r.ready_replicas
                == cluster.status->0.ready_replicas && r.desired_replicas
                == cluster.status->0.desired_replicas
        }),
{
}

/// A pod without an annotation counts as of no revision and of no node, and one
/// whose broker container names no image as of none.
pub proof fn law_silent_pods_have_no_revisions(pod: Pod)
    requires
        pod_state(pod) is Some,
    ensures
        ({
            let s = pod_state(pod)->0;
            let a = pod.annotations@;
            let c = kube::first_container(pod.containers@, "rustqueue"@, 0)->0;
            &&& kube::number_under(a, "rustqueue.io/tls-revision"@) is None ==> s.tls_revision == 0
            &&& kube::number_under(a, "rustqueue.io/config-revision"@) is None
                ==> s.config_revision == 0
            &&& kube::number_under(a, "rustqueue.io/rollout-revision"@) is None
                ==> s.rollout_revision == 0
            &&& string_map::lookup(a, "rustqueue.io/target-node"@) is None ==> s.target_node.len()
                == 0
            &&& pod.containers@[c].image is Some ==> s.image == pod.containers@[c].image->0@
            &&& pod.containers@[c].image is None ==> s.image.len() == 0
        }),
{
}

/// The conditions of a cluster give their reasons, and tell what was counted.
pub proof fn law_conditions_of_clusters_have_their_reasons(
    f: StatusFacts,
    generation: Option<i64>,
    class_name: Seq<char>,
    min_nodes: u8,
    time: Seq<char>,
)
    ensures
        ({
            let c = status_conditions(f, generation, class_name, min_nodes, time);
            let ready = f.desired >= min_nodes && f.ready == f.desired && f.configured == f.desired
                && f.rollout_ready;
            &&& c[0].reason == "Validated"@
            &&& c[1].reason == "StorageClassResolved"@ && text::ends(c[1].message, class_name)
            &&& c[2].reason == "ManagedPKIReady"@ && text::has_text(
                c[2].message,
                text::dec(f.ca_revision as nat),
            )
            &&& f.rollout_ready ==> c[3].reason == "RolloutComplete"@
            &&& !f.rollout_ready ==> c[3].reason == "RolloutProgressing"@
            &&& f.placed == f.desired ==> c[4].reason == "Assigned"@
            &&& f.placed != f.desired ==> c[4].reason == "InsufficientEligibleNodes"@
            &&& text::starts(c[4].message, text::dec(f.placed))
            &&& ready ==> c[5].reason == "AllBrokersReady"@
            &&& !ready ==> c[5].reason == "Progressing"@
            &&& text::starts(c[5].message, text::dec(f.ready as nat))
        }),
{
    let c = status_conditions(f, generation, class_name, min_nodes, time);
    let m = c[1].message;
    assert(m.skip(m.len() - class_name.len()) =~= class_name);
    let r = text::dec(f.ca_revision as nat);
    let h = "managed CA revision "@;
    assert(c[2].message.subrange(h.len() as int, (h.len() + r.len()) as int) =~= r);
    assert(text::occurs_at(c[2].message, r, h.len() as int));
    let p = text::dec(f.placed);
    assert(c[4].message.take(p.len() as int) =~= p);
    let q = text::dec(f.ready as nat);
    assert(c[5].message.take(q.len() as int) =~= q);
}

} // verus!
