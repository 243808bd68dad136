//! The steps of reconciling a federated cluster.
use crate::json::{self, JsonView};
use crate::operator::broker_config::{self, ConfigError, ConfigInput};
use crate::operator::cluster::{
    self, CellStatus, ClusterCondition, ClusterStatusView, ConditionView, RustQueueCluster,
    RustQueueClusterStatus, UpgradeStatus, UpgradeView,
};
use crate::operator::controller::reconcile_state;
use crate::operator::controller::rollout::{self, Decision, DecisionView};
use crate::operator::layout::{self, BrokerPlan, BrokerView, ClusterLayout};
use crate::operator::pki;
use crate::operator::placement::{self, BrokerPlacement};
use crate::operator::upgrade::{PodRolloutState, RolloutTarget};
use crate::text;
use serde_json::Value;
use std::collections::BTreeMap;
use vstd::prelude::*;
use vstd::string::*;
use vstd::utf8::*;

verus! {

broadcast use {vstd::std_specs::btree::group_btree_axioms, vstd::laws_cmp::group_laws_cmp};

/// A cluster resource by what its place among others depends on.
#[derive(Debug)]
pub struct ClusterKey {
    pub created: Option<i64>,
    pub namespace: String,
    pub name: String,
    pub uid: Option<String>,
}

/// Whether `a` stands before `b`: by creation time, none first, then by
/// namespace and name.
pub open spec fn key_before(a: ClusterKey, b: ClusterKey) -> bool {
    let earlier = match (a.created, b.created) {
        (None, Some(_)) => true,
        (Some(x), Some(y)) => x < y,
        _ => false,
    };
    ||| earlier
    ||| a.created == b.created && text::text_lt(a.namespace@, b.namespace@)
    ||| a.created == b.created && a.namespace@ == b.namespace@ && text::text_lt(a.name@, b.name@)
}

/// The first of the first `n` keys.
pub open spec fn first_key(keys: Seq<ClusterKey>, n: int) -> Option<int>
    decreases n,
{
    if n <= 0 {
        None
    } else {
        match first_key(keys, n - 1) {
            None => Some(n - 1),
            Some(b) => if key_before(keys[n - 1], keys[b]) {
                Some(n - 1)
            } else {
                Some(b)
            },
        }
    }
}

fn comes_before(a: &ClusterKey, b: &ClusterKey) -> (r: bool)
    ensures
        r == key_before(*a, *b),
{
    let earlier = match (a.created, b.created) {
        (None, Some(_)) => true,
        (Some(x), Some(y)) => x < y,
        _ => false,
    };
    if earlier {
        return true;
    }
    let same = match (a.created, b.created) {
        (None, None) => true,
        (Some(x), Some(y)) => x == y,
        _ => false,
    };
    same && (text::text_before(a.namespace.as_str(), b.namespace.as_str()) || (text::str_eq(
        a.namespace.as_str(),
        b.namespace.as_str(),
    ) && text::text_before(a.name.as_str(), b.name.as_str())))
}

/// The namespace and name of the cluster that owns the installation, where it is
/// another one.
pub fn singleton_owner(clusters: &Vec<ClusterKey>, current_uid: &Option<String>) -> (r: Option<
    String,
>)
    ensures
        text::opt_text(r) == (match first_key(clusters@, clusters@.len() as int) {
            None => None,
            Some(i) => if text::opt_text(clusters@[i].uid) == text::opt_text(*current_uid) {
                None
            } else {
                Some(clusters@[i].namespace@ + "/"@ + clusters@[i].name@)
            },
        }),
{
    let mut best: Option<usize> = None;
    let mut i: usize = 0;
    while i < clusters.len()
        invariant
            i <= clusters@.len(),
            match best {
                Some(b) => b < i && first_key(clusters@, i as int) == Some(b as int),
                None => first_key(clusters@, i as int) is None,
            },
        decreases clusters@.len() - i,
    {
        match best {
            None => {
                best = Some(i);
            },
            Some(b) => {
                if comes_before(&clusters[i], &clusters[b]) {
                    best = Some(i);
                }
            },
        }
        i += 1;
    }
    match best {
        None => None,
        Some(b) => {
            if text::opt_eq(&clusters[b].uid, current_uid) {
                None
            } else {
                let mut owner = clusters[b].namespace.clone();
                owner.append("/");
                owner.append(clusters[b].name.as_str());
                Some(owner)
            }
        },
    }
}

/// What is said of a second cluster.
pub fn second_cluster_message(owner: &str) -> (r: String)
    ensures
        r@
            == "only one RustQueueCluster is allowed per Kubernetes cluster; active owner is "@
            + owner@,
{
    let mut r =
        "only one RustQueueCluster is allowed per Kubernetes cluster; active owner is ".to_owned();
    r.append(owner);
    r
}

/// What keeps a cluster from being reconciled.
#[derive(Debug)]
pub enum Obstacle {
    /// Another cluster came first.
    SecondCluster(String),
    /// Its storage class is not known.
    Storage(String),
    /// Its specification is refused.
    Specification(String),
}

/// The condition that an obstacle is reported under.
pub open spec fn obstacle_type(o: Obstacle) -> Seq<char> {
    match o {
        Obstacle::SecondCluster(_) => "SingletonReady"@,
        Obstacle::Storage(_) => "StorageReady"@,
        Obstacle::Specification(_) => "SpecValid"@,
    }
}

/// The reason that an obstacle is reported with.
pub open spec fn obstacle_reason(o: Obstacle) -> Seq<char> {
    match o {
        Obstacle::SecondCluster(_) => "MultipleClusters"@,
        Obstacle::Storage(_) => "StorageClassUnresolved"@,
        Obstacle::Specification(_) => "ValidationFailed"@,
    }
}

/// What is said of an obstacle.
pub open spec fn obstacle_message(o: Obstacle) -> Seq<char> {
    match o {
        Obstacle::SecondCluster(owner) =>
            "only one RustQueueCluster is allowed per Kubernetes cluster; active owner is "@
            + owner@,
        Obstacle::Storage(message) => message@,
        Obstacle::Specification(message) => message@,
    }
}

/// The status of a cluster that is not reconciled.
pub fn obstacle_status(cluster: &RustQueueCluster, generation: Option<i64>, o: &Obstacle) -> (r:
    RustQueueClusterStatus)
    ensures
        exists|time: Seq<char>|
            r@ == #[trigger] reconcile_state::blocked(
                *cluster,
                generation,
                obstacle_type(*o),
                obstacle_reason(*o),
                obstacle_message(*o),
                time,
            ),
{
    let (type_, reason) = match o {
        Obstacle::SecondCluster(_) => ("SingletonReady", "MultipleClusters"),
        Obstacle::Storage(_) => ("StorageReady", "StorageClassUnresolved"),
        Obstacle::Specification(_) => ("SpecValid", "ValidationFailed"),
    };
    let message = match o {
        Obstacle::SecondCluster(owner) => second_cluster_message(owner.as_str()),
        Obstacle::Storage(message) => message.clone(),
        Obstacle::Specification(message) => message.clone(),
    };
    assert(type_@ == obstacle_type(*o));
    assert(reason@ == obstacle_reason(*o));
    assert(message@ == obstacle_message(*o));
    let r = reconcile_state::blocked_status(cluster, generation, type_, reason, message.as_str());
    proof {
        let time = choose|time: Seq<char>|
            r@ == #[trigger] reconcile_state::blocked(
                *cluster,
                generation,
                type_@,
                reason@,
                message@,
                time,
            );
        assert(r@ == reconcile_state::blocked(
            *cluster,
            generation,
            obstacle_type(*o),
            obstacle_reason(*o),
            obstacle_message(*o),
            time,
        ));
    }
    r
}

/// After how many seconds a cluster is looked at again.
pub fn requeue_seconds(o: Option<&Obstacle>) -> (r: u64)
    ensures
        r == match o {
            None => 5u64,
            Some(Obstacle::SecondCluster(_)) => 60u64,
            Some(_) => 30u64,
        },
{
    match o {
        None => 5,
        Some(Obstacle::SecondCluster(_)) => 60,
        Some(_) => 30,
    }
}

/// What makes a workload of a broker differ from another.
#[derive(Debug)]
pub struct WorkloadTemplate {
    pub tls_revision: Option<String>,
    pub config_revision: Option<String>,
    pub target_node: Option<String>,
    pub rollout_revision: Option<String>,
    pub image: Option<String>,
}

/// Whether an existing workload differs from the desired one.
pub fn workload_changed(existing: &WorkloadTemplate, desired: &WorkloadTemplate) -> (r: bool)
    ensures
        r == !(text::opt_text(existing.tls_revision) == text::opt_text(desired.tls_revision)
            && text::opt_text(existing.config_revision) == text::opt_text(desired.config_revision)
            && text::opt_text(existing.target_node) == text::opt_text(desired.target_node)
            && text::opt_text(existing.rollout_revision) == text::opt_text(
            desired.rollout_revision,
        ) && text::opt_text(existing.image) == text::opt_text(desired.image)),
{
    !(text::opt_eq(&existing.tls_revision, &desired.tls_revision) && text::opt_eq(
        &existing.config_revision,
        &desired.config_revision,
    ) && text::opt_eq(&existing.target_node, &desired.target_node) && text::opt_eq(
        &existing.rollout_revision,
        &desired.rollout_revision,
    ) && text::opt_eq(&existing.image, &desired.image))
}

/// Whether every broker is placed.
pub open spec fn all_placed(brokers: Seq<BrokerView>, placements: Map<u64, BrokerPlacement>) -> bool {
    forall|i: int|
        0 <= i < brokers.len() ==> placements.contains_key((#[trigger] brokers[i]).node_id as u64)
}

/// Whether every broker that a broker has to know of is placed: those of the
/// root group and those of its cell.
pub open spec fn visible_placed(
    cells: Seq<layout::CellView>,
    cell_id: nat,
    placements: Map<u64, BrokerPlacement>,
) -> bool {
    let all = layout::all_brokers(cells);
    &&& all_placed(
        if all.len() < 3 {
            all
        } else {
            all.take(3)
        },
        placements,
    )
    &&& broker_config::first_cell(cells, cell_id, 0) matches Some(c) && all_placed(
        cells[c].brokers,
        placements,
    )
}

/// Whether every broker that a broker has to know of is placed.
pub fn visible_brokers_placed(
    layout: &ClusterLayout,
    broker: &BrokerPlan,
    placements: &BTreeMap<u64, BrokerPlacement>,
) -> (r: bool)
    ensures
        r == visible_placed(layout@.cells, broker.cell_id as nat, placements@),
{
    let all = layout.brokers();
    let ghost views = layout::all_brokers(layout@.cells);
    let ghost roots = if views.len() < 3 {
        views
    } else {
        views.take(3)
    };
    assert(views.len() == all@.len());
    let mut i: usize = 0;
    while i < all.len() && i < 3
        invariant
            i <= all@.len(),
            i <= 3,
            views == layout::broker_views(all@),
            roots == (if views.len() < 3 {
                views
            } else {
                views.take(3)
            }),
            views == layout::all_brokers(layout@.cells),
            forall|j: int|
                0 <= j < i ==> placements@.contains_key((#[trigger] roots[j]).node_id as u64),
        decreases 3 - i,
    {
        assert(roots[i as int] == all@[i as int]@);
        if !placements.contains_key(&all[i].node_id) {
            assert(!all_placed(roots, placements@));
            return false;
        }
        i += 1;
    }
    assert(all_placed(roots, placements@));
    let ghost cells = layout@.cells;
    let mut c: usize = 0;
    while c < layout.cells.len()
        invariant
            c <= layout.cells@.len(),
            cells == layout@.cells,
            all_placed(roots, placements@),
            roots == (if views.len() < 3 {
                views
            } else {
                views.take(3)
            }),
            views == layout::all_brokers(cells),
            broker_config::first_cell(cells, broker.cell_id as nat, 0)
                == broker_config::first_cell(cells, broker.cell_id as nat, c as int),
        decreases layout.cells@.len() - c,
    {
        let cell = &layout.cells[c];
        assert(cells[c as int] == cell@);
        if cell.id == broker.cell_id {
            let mut k: usize = 0;
            while k < cell.brokers.len()
                invariant
                    k <= cell.brokers@.len(),
                    cells == layout@.cells,
                    cells[c as int] == cell@,
                    broker_config::first_cell(cells, broker.cell_id as nat, 0) == Some(c as int),
                    forall|j: int|
                        0 <= j < k ==> placements@.contains_key(
                            (#[trigger] cell@.brokers[j]).node_id as u64,
                        ),
                decreases cell.brokers@.len() - k,
            {
                assert(cell@.brokers[k as int] == cell.brokers@[k as int]@);
                if !placements.contains_key(&cell.brokers[k].node_id) {
                    assert(!all_placed(cell@.brokers, placements@));
                    return false;
                }
                k += 1;
            }
            return true;
        }
        c += 1;
    }
    false
}

/// What is done for one broker.
pub enum BrokerTask {
    /// Nothing but an empty configuration, where it has none.
    Pending(BrokerPlan),
    /// A configuration and a workload on a node.
    Configure { broker: BrokerPlan, node_name: String, contents: String, revision: u64 },
}

/// `BrokerTask` as values.
pub enum TaskView {
    Pending(BrokerView),
    Configure { broker: BrokerView, node_name: Seq<char>, contents: Seq<char>, revision: u64 },
}

impl View for BrokerTask {
    type V = TaskView;

    open spec fn view(&self) -> TaskView {
        match self {
            BrokerTask::Pending(b) => TaskView::Pending(b@),
            BrokerTask::Configure { broker, node_name, contents, revision } =>
                TaskView::Configure {
                broker: broker@,
                node_name: node_name@,
                contents: contents@,
                revision: *revision,
            },
        }
    }
}

/// The input from which the configuration of a broker is rendered.
pub open spec fn input_for<'a>(
    cluster_name: &'a str,
    namespace: &'a str,
    cluster: &'a RustQueueCluster,
    layout: &'a ClusterLayout,
    broker: &'a BrokerPlan,
    failure_domains: &'a BTreeMap<u64, String>,
) -> ConfigInput<'a> {
    ConfigInput {
        cluster_name,
        namespace,
        spec: &cluster.spec,
        layout,
        broker,
        failure_domains,
    }
}

/// Whether this is what is done for one broker: it waits until it and all that it has to know
/// of are placed, and is then configured, unless its configuration is refused.
pub open spec fn task_fits<'a>(
    cluster_name: &'a str,
    namespace: &'a str,
    cluster: &'a RustQueueCluster,
    spec_bytes: Seq<u8>,
    layout: &'a ClusterLayout,
    broker: &'a BrokerPlan,
    placements: Map<u64, BrokerPlacement>,
    failure_domains: &'a BTreeMap<u64, String>,
    task: Result<BrokerTask, ConfigError>,
) -> bool {
    let input = input_for(cluster_name, namespace, cluster, layout, broker, failure_domains);
    let waits = !placements.contains_key(broker.node_id) || !visible_placed(
        layout@.cells,
        broker.cell_id as nat,
        placements,
    );
    match task {
        Ok(BrokerTask::Pending(b)) => waits && b == *broker,
        Ok(BrokerTask::Configure { broker: b, node_name, contents, revision }) => {
            &&& !waits
            &&& b == *broker
            &&& node_name@ == placements[broker.node_id].node_name@
            &&& broker_config::config_text(input) == Ok::<Seq<char>, ConfigError>(contents@)
            &&& broker_config::toml_reads(contents@)
            &&& revision == pki::content_revision(encode_utf8(contents@) + spec_bytes)
        },
        Err(ConfigError::InvalidToml) => !waits && broker_config::config_text(input) is Ok
            && !broker_config::toml_reads(broker_config::config_text(input)->Ok_0),
        Err(e) => !waits && broker_config::config_text(input) == Err::<Seq<char>, ConfigError>(e),
    }
}

/// What is done for one broker: it waits until it and all that it has to know
/// of are placed. The revision covers the rendered configuration and the
/// serialized specification of the cluster.
pub fn broker_task(
    cluster_name: &str,
    namespace: &str,
    cluster: &RustQueueCluster,
    spec_bytes: &[u8],
    layout: &ClusterLayout,
    broker: &BrokerPlan,
    placements: &BTreeMap<u64, BrokerPlacement>,
    failure_domains: &BTreeMap<u64, String>,
) -> (r: Result<BrokerTask, ConfigError>)
    ensures
        task_fits(
            cluster_name,
            namespace,
            cluster,
            spec_bytes@,
            layout,
            broker,
            placements@,
            failure_domains,
            r,
        ),
{
    let placement = match placements.get(&broker.node_id) {
        Some(p) => p,
        None => {
            return Ok(BrokerTask::Pending(broker.duplicate()));
        },
    };
    if !visible_brokers_placed(layout, broker, placements) {
        return Ok(BrokerTask::Pending(broker.duplicate()));
    }
    let input = ConfigInput {
        cluster_name,
        namespace,
        spec: &cluster.spec,
        layout,
        broker,
        failure_domains,
    };
    let contents = match broker_config::render(&input) {
        Ok(c) => c,
        Err(e) => {
            return Err(e);
        },
    };
    let parts: [&[u8]; 2] = [contents.as_str().as_bytes(), spec_bytes];
    let revision = pki::revision(parts.as_slice());
    proof {
        let p = parts@;
        reveal_with_fuel(pki::concatenated, 3);
        assert(p.drop_last().drop_last() =~= Seq::<&[u8]>::empty());
        assert(pki::concatenated(p) =~= encode_utf8(contents@) + spec_bytes@);
    }
    Ok(
        BrokerTask::Configure {
            broker: broker.duplicate(),
            node_name: placement.node_name.clone(),
            contents,
            revision,
        },
    )
}

/// What the brokers of a cluster should run, as far as they are configured.
pub struct DesiredBrokers {
    pub configured: u16,
    pub config_revisions: BTreeMap<u64, u64>,
    pub target_nodes: BTreeMap<u64, String>,
}

impl DesiredBrokers {
    /// Nothing yet.
    pub fn new() -> (r: Self)
        ensures
            r.configured == 0,
            r.config_revisions@ == Map::<u64, u64>::empty(),
            r.target_nodes@ == Map::<u64, String>::empty(),
    {
        DesiredBrokers {
            configured: 0,
            config_revisions: BTreeMap::new(),
            target_nodes: BTreeMap::new(),
        }
    }

    /// Records what was done for a broker.
    pub fn record(&mut self, task: &BrokerTask)
        requires
            old(self).configured < u16::MAX,
        ensures
            match task@ {
                TaskView::Pending(_) => *final(self) == *old(self),
                TaskView::Configure { broker, node_name, revision, .. } => {
                    &&& final(self).configured == old(self).configured + 1
                    &&& final(self).config_revisions@ == old(self).config_revisions@.insert(
                        broker.node_id as u64,
                        revision,
                    )
                    &&& reconcile_state::map_texts(final(self).target_nodes@)
                        == reconcile_state::map_texts(old(self).target_nodes@).insert(
                        broker.node_id as u64,
                        node_name,
                    )
                },
            },
    {
        match task {
            BrokerTask::Pending(_) => {},
            BrokerTask::Configure { broker, node_name, contents: _, revision } => {
                self.configured = self.configured + 1;
                self.config_revisions.insert(broker.node_id, *revision);
                let ghost before = self.target_nodes@;
                self.target_nodes.insert(broker.node_id, node_name.clone());
                assert(reconcile_state::map_texts(self.target_nodes@)
                    =~= reconcile_state::map_texts(before).insert(broker.node_id, node_name@));
            },
        }
    }
}

/// What stands for a list of tasks.
pub open spec fn task_views(tasks: Seq<BrokerTask>) -> Seq<TaskView> {
    tasks.map_values(|t: BrokerTask| t@)
}

/// How many of the tasks configure a broker.
pub open spec fn configuring(tasks: Seq<TaskView>) -> nat
    decreases tasks.len(),
{
    if tasks.len() == 0 {
        0
    } else {
        configuring(tasks.drop_last()) + (if tasks.last() is Configure {
            1nat
        } else {
            0nat
        })
    }
}

/// The revisions of the configurations, by broker.
pub open spec fn task_revisions(tasks: Seq<TaskView>) -> Map<u64, u64>
    decreases tasks.len(),
{
    if tasks.len() == 0 {
        Map::empty()
    } else {
        match tasks.last() {
            TaskView::Pending(_) => task_revisions(tasks.drop_last()),
            TaskView::Configure { broker, revision, .. } => task_revisions(
                tasks.drop_last(),
            ).insert(broker.node_id as u64, revision),
        }
    }
}

/// The nodes that brokers run on, by broker.
pub open spec fn task_nodes(tasks: Seq<TaskView>) -> Map<u64, Seq<char>>
    decreases tasks.len(),
{
    if tasks.len() == 0 {
        Map::empty()
    } else {
        match tasks.last() {
            TaskView::Pending(_) => task_nodes(tasks.drop_last()),
            TaskView::Configure { broker, node_name, .. } => task_nodes(tasks.drop_last()).insert(
                broker.node_id as u64,
                node_name,
            ),
        }
    }
}

/// Whether this is what brokers should run once these tasks are done.
pub open spec fn desired_after(desired: DesiredBrokers, tasks: Seq<TaskView>) -> bool {
    &&& desired.configured == configuring(tasks)
    &&& desired.config_revisions@ == task_revisions(tasks)
    &&& reconcile_state::map_texts(desired.target_nodes@) == task_nodes(tasks)
}

proof fn lemma_configuring_bound(tasks: Seq<TaskView>)
    ensures
        configuring(tasks) <= tasks.len(),
    decreases tasks.len(),
{
    if tasks.len() > 0 {
        lemma_configuring_bound(tasks.drop_last());
    }
}

/// The failure domains of the nodes that brokers are placed on.
pub open spec fn domains_of(placements: Map<u64, BrokerPlacement>) -> Map<u64, Seq<char>> {
    placements.map_values(|p: BrokerPlacement| p.failure_domain@)
}

/// The failure domains of the nodes that brokers are placed on.
pub fn failure_domains(placements: &BTreeMap<u64, BrokerPlacement>) -> (r: BTreeMap<u64, String>)
    ensures
        reconcile_state::map_texts(r@) == domains_of(placements@),
{
    let mut domains: BTreeMap<u64, String> = BTreeMap::new();
    for entry in it: placements.iter()
        invariant
            forall|k: u64| #[trigger]
                domains@.contains_key(k) ==> placements@.contains_key(k) && domains@[k]@
                    == placements@[k].failure_domain@,
            forall|i: int|
                0 <= i < it.index() ==> domains@.contains_key(*(#[trigger] it.seq()[i]).0),
            forall|i: int|
                0 <= i < it.seq().len() ==> placements@.contains_key(*(#[trigger] it.seq()[i]).0)
                    && placements@[*it.seq()[i].0] == *it.seq()[i].1,
            forall|k: u64| #[trigger]
                placements@.contains_key(k) ==> it.seq().contains((&k, &placements@[k])),
    {
        domains.insert(*entry.0, entry.1.failure_domain.clone());
    }
    assert(reconcile_state::map_texts(domains@) =~= domains_of(placements@));
    domains
}

/// Whether these tasks are what is done for the first brokers, one after the other.
pub open spec fn tasks_fit<'a>(
    cluster_name: &'a str,
    namespace: &'a str,
    cluster: &'a RustQueueCluster,
    spec_bytes: Seq<u8>,
    layout: &'a ClusterLayout,
    brokers: Seq<&'a BrokerPlan>,
    placements: Map<u64, BrokerPlacement>,
    failure_domains: &'a BTreeMap<u64, String>,
    tasks: Seq<BrokerTask>,
) -> bool {
    tasks.len() <= brokers.len() && forall|i: int|
        0 <= i < tasks.len() ==> task_fits(
            cluster_name,
            namespace,
            cluster,
            spec_bytes,
            layout,
            brokers[i],
            placements,
            failure_domains,
            Ok(#[trigger] tasks[i]),
        )
}

/// Whether this is what is done for the brokers of a layout, up to the first whose
/// configuration is refused, and what they should then run.
pub open spec fn brokers_ensured<'a>(
    cluster_name: &'a str,
    namespace: &'a str,
    cluster: &'a RustQueueCluster,
    spec_bytes: Seq<u8>,
    layout: &'a ClusterLayout,
    brokers: Seq<&'a BrokerPlan>,
    placements: Map<u64, BrokerPlacement>,
    failure_domains: &'a BTreeMap<u64, String>,
    tasks: Seq<BrokerTask>,
    desired: Result<DesiredBrokers, ConfigError>,
) -> bool {
    &&& layout::broker_views(brokers) == layout::all_brokers(layout@.cells)
    &&& reconcile_state::map_texts(failure_domains@) == domains_of(placements)
    &&& tasks_fit(
        cluster_name,
        namespace,
        cluster,
        spec_bytes,
        layout,
        brokers,
        placements,
        failure_domains,
        tasks,
    )
    &&& match desired {
        Ok(d) => tasks.len() == brokers.len() && desired_after(d, task_views(tasks)),
        Err(e) => tasks.len() < brokers.len() && task_fits(
            cluster_name,
            namespace,
            cluster,
            spec_bytes,
            layout,
            brokers[tasks.len() as int],
            placements,
            failure_domains,
            Err(e),
        ),
    }
}

/// What is done for the brokers of a layout, one after the other up to the first whose
/// configuration is refused, and what they should then run.
pub fn ensure_brokers(
    cluster_name: &str,
    namespace: &str,
    cluster: &RustQueueCluster,
    spec_bytes: &[u8],
    layout: &ClusterLayout,
    placements: &BTreeMap<u64, BrokerPlacement>,
) -> (r: (Vec<BrokerTask>, Result<DesiredBrokers, ConfigError>))
    requires
        layout::all_brokers(layout@.cells).len() <= u16::MAX,
    ensures
        exists|brokers: Seq<&BrokerPlan>, domains: &BTreeMap<u64, String>| #[trigger]
            brokers_ensured(
                cluster_name,
                namespace,
                cluster,
                spec_bytes@,
                layout,
                brokers,
                placements@,
                domains,
                r.0@,
                r.1,
            ),
{
    let domains = failure_domains(placements);
    let brokers = layout.brokers();
    let mut tasks: Vec<BrokerTask> = Vec::new();
    let mut desired = DesiredBrokers::new();
    let mut i: usize = 0;
    assert(layout::broker_views(brokers@).len() == brokers@.len());
    assert(task_views(tasks@) =~= Seq::<TaskView>::empty());
    assert(reconcile_state::map_texts(desired.target_nodes@) =~= Map::<u64, Seq<char>>::empty());
    while i < brokers.len()
        invariant
            i <= brokers@.len() <= u16::MAX,
            tasks@.len() == i,
            layout::broker_views(brokers@) == layout::all_brokers(layout@.cells),
            reconcile_state::map_texts(domains@) == domains_of(placements@),
            tasks_fit(
                cluster_name,
                namespace,
                cluster,
                spec_bytes@,
                layout,
                brokers@,
                placements@,
                &domains,
                tasks@,
            ),
            desired_after(desired, task_views(tasks@)),
        decreases brokers@.len() - i,
    {
        match broker_task(
            cluster_name,
            namespace,
            cluster,
            spec_bytes,
            layout,
            brokers[i],
            placements,
            &domains,
        ) {
            Err(e) => {
                let r: (Vec<BrokerTask>, Result<DesiredBrokers, ConfigError>) = (tasks, Err(e));
                assert(brokers_ensured(
                    cluster_name,
                    namespace,
                    cluster,
                    spec_bytes@,
                    layout,
                    brokers@,
                    placements@,
                    &domains,
                    r.0@,
                    r.1,
                ));
                return r;
            },
            Ok(task) => {
                let ghost before = tasks@;
                proof {
                    lemma_configuring_bound(task_views(before));
                }
                desired.record(&task);
                tasks.push(task);
                proof {
                    assert(task_views(tasks@).drop_last() =~= task_views(before));
                    assert(task_views(tasks@).last() == task@);
                }
            },
        }
        i += 1;
    }
    let r: (Vec<BrokerTask>, Result<DesiredBrokers, ConfigError>) = (tasks, Ok(desired));
    assert(brokers_ensured(
        cluster_name,
        namespace,
        cluster,
        spec_bytes@,
        layout,
        brokers@,
        placements@,
        &domains,
        r.0@,
        r.1,
    ));
    r
}

/// Where as many brokers are configured as there are tasks, every task configures its broker.
pub proof fn law_complete_means_every_broker_is_configured(tasks: Seq<TaskView>, i: int)
    requires
        configuring(tasks) == tasks.len(),
        0 <= i < tasks.len(),
    ensures
        tasks[i] is Configure,
    decreases tasks.len(),
{
    lemma_configuring_bound(tasks.drop_last());
    if i < tasks.len() - 1 {
        law_complete_means_every_broker_is_configured(tasks.drop_last(), i);
    }
}

/// Decides on the rollout, once every broker is placed and configured.
pub fn rollout_step(
    cluster: &RustQueueCluster,
    layout: &ClusterLayout,
    placements: &BTreeMap<u64, BrokerPlacement>,
    configured: u16,
    pods: &[PodRolloutState],
    target: &RolloutTarget<'_>,
    started: Option<i64>,
    time: &str,
    now: i64,
) -> (r: Decision)
    requires
        layout::all_brokers(layout@.cells).len() <= u16::MAX,
    ensures
        ({
            let active = layout::all_brokers(layout@.cells).len();
            if placements@.len() == active && configured == active {
                r@ == rollout::decided(
                    cluster.spec.upgrade,
                    rollout::recorded(*cluster),
                    layout::all_brokers(layout@.cells),
                    pods@,
                    *target,
                    started,
                    time@,
                    now,
                )
            } else {
                r@ == DecisionView::Settled(
                    Some(
                        UpgradeView {
                            target_image: cluster.spec.image@,
                            current_node_id: None,
                            started_at: None,
                            paused: false,
                            reason: "waiting for an eligible node assignment for every Broker"@,
                            observed_retry_generation: cluster.spec.upgrade.retry_generation,
                        },
                    ),
                )
            }
        }),
{
    let active: u16 = layout.active_replicas();
    if placements.len() == active as usize && configured == active {
        rollout::decide_at(cluster, layout, pods, target, started, time, now)
    } else {
        Decision::Settled(
            Some(
                reconcile_state::waiting_upgrade(
                    cluster,
                    "waiting for an eligible node assignment for every Broker",
                ),
            ),
        )
    }
}

/// The rollout status to record before the decision is carried out.
pub fn recorded_upgrade(decision: &Decision) -> (r: Option<UpgradeStatus>)
    ensures
        cluster::opt_upgrade(r) == (match decision@ {
            DecisionView::Settled(s) => s,
            DecisionView::Delete { status, .. } => Some(status),
            DecisionView::Release { status, .. } => Some(status),
        }),
{
    match decision {
        Decision::Settled(s) => cluster::clone_upgrade(s),
        Decision::Delete { status, broker: _, pod_name: _, needs_maintenance: _ } => Some(
            status.duplicate(),
        ),
        Decision::Release { status, broker: _ } => Some(status.duplicate()),
    }
}

fn opt_number_same(a: Option<i64>, b: Option<i64>) -> (r: bool)
    ensures
        r == (a == b),
{
    match (a, b) {
        (Some(x), Some(y)) => x == y,
        (None, None) => true,
        _ => false,
    }
}

fn condition_same(a: &ClusterCondition, b: &ClusterCondition) -> (r: bool)
    ensures
        r == (a@ == b@),
{
    text::str_eq(a.type_.as_str(), b.type_.as_str()) && text::str_eq(
        a.status.as_str(),
        b.status.as_str(),
    ) && text::str_eq(a.reason.as_str(), b.reason.as_str()) && text::str_eq(
        a.message.as_str(),
        b.message.as_str(),
    ) && text::str_eq(a.last_transition_time.as_str(), b.last_transition_time.as_str())
        && opt_number_same(a.observed_generation, b.observed_generation)
}

fn conditions_same(a: &Vec<ClusterCondition>, b: &Vec<ClusterCondition>) -> (r: bool)
    ensures
        r == (cluster::condition_views(a@) == cluster::condition_views(b@)),
{
    let ghost x = cluster::condition_views(a@);
    let ghost y = cluster::condition_views(b@);
    assert(x.len() == a@.len() && y.len() == b@.len());
    if a.len() != b.len() {
        return false;
    }
    let mut i: usize = 0;
    while i < a.len()
        invariant
            i <= a@.len(),
            a@.len() == b@.len(),
            x == cluster::condition_views(a@),
            y == cluster::condition_views(b@),
            forall|j: int| 0 <= j < i ==> x[j] == y[j],
        decreases a@.len() - i,
    {
        assert(x[i as int] == a@[i as int]@);
        assert(y[i as int] == b@[i as int]@);
        if !condition_same(&a[i], &b[i]) {
            return false;
        }
        i += 1;
    }
    assert(x =~= y);
    true
}

fn cells_same(a: &Vec<CellStatus>, b: &Vec<CellStatus>) -> (r: bool)
    ensures
        r == (a@ == b@),
{
    if a.len() != b.len() {
        return false;
    }
    let mut i: usize = 0;
    while i < a.len()
        invariant
            i <= a@.len(),
            a@.len() == b@.len(),
            forall|j: int| 0 <= j < i ==> a@[j] == b@[j],
        decreases a@.len() - i,
    {
        if a[i] != b[i] {
            return false;
        }
        i += 1;
    }
    assert(a@ =~= b@);
    true
}

fn upgrade_same(a: &Option<UpgradeStatus>, b: &Option<UpgradeStatus>) -> (r: bool)
    ensures
        r == (cluster::opt_upgrade(*a) == cluster::opt_upgrade(*b)),
{
    match (a, b) {
        (Some(x), Some(y)) => {
            let node_same = match (x.current_node_id, y.current_node_id) {
                (Some(p), Some(q)) => p == q,
                (None, None) => true,
                _ => false,
            };
            text::str_eq(x.target_image.as_str(), y.target_image.as_str()) && node_same
                && text::opt_eq(&x.started_at, &y.started_at) && x.paused == y.paused
                && text::str_eq(x.reason.as_str(), y.reason.as_str())
                && x.observed_retry_generation == y.observed_retry_generation
        },
        (None, None) => true,
        _ => false,
    }
}

/// Whether a status says the same as another, so that it need not be written.
pub fn status_same(a: &RustQueueClusterStatus, b: &RustQueueClusterStatus) -> (r: bool)
    ensures
        r == (a@ == b@),
{
    opt_number_same(a.observed_generation, b.observed_generation) && text::str_eq(
        a.phase.as_str(),
        b.phase.as_str(),
    ) && a.allocated_replicas == b.allocated_replicas && a.desired_replicas == b.desired_replicas
        && a.ready_replicas == b.ready_replicas && a.pending_nodes == b.pending_nodes
        && text::str_eq(a.ca_revision.as_str(), b.ca_revision.as_str()) && cells_same(
        &a.cells,
        &b.cells,
    ) && upgrade_same(&a.upgrade, &b.upgrade) && conditions_same(&a.conditions, &b.conditions)
}

/// An optional text, null where it is absent.
pub open spec fn json_opt_text(o: Option<Seq<char>>) -> JsonView {
    match o {
        Some(t) => JsonView::Text(t),
        None => JsonView::Null,
    }
}

/// An optional number, null where it is absent.
pub open spec fn json_opt_number(o: Option<int>) -> JsonView {
    match o {
        Some(n) => JsonView::Number(n),
        None => JsonView::Null,
    }
}

/// A rollout status as JSON. Absent members are explicit nulls, so that a merge
/// patch clears them.
pub open spec fn upgrade_json(u: UpgradeView) -> JsonView {
    JsonView::Object(
        Map::<Seq<char>, JsonView>::empty().insert(
            "targetImage"@,
            JsonView::Text(u.target_image),
        ).insert(
            "currentNodeId"@,
            json_opt_number(
                match u.current_node_id {
                    Some(n) => Some(n as int),
                    None => None,
                },
            ),
        ).insert("startedAt"@, json_opt_text(u.started_at)).insert(
            "paused"@,
            JsonView::Bool(u.paused),
        ).insert("reason"@, JsonView::Text(u.reason)).insert(
            "observedRetryGeneration"@,
            JsonView::Number(u.observed_retry_generation as int),
        ),
    )
}

/// A condition as JSON.
pub open spec fn condition_json(c: ConditionView) -> JsonView {
    JsonView::Object(
        Map::<Seq<char>, JsonView>::empty().insert("type"@, JsonView::Text(c.type_)).insert(
            "status"@,
            JsonView::Text(c.status),
        ).insert("reason"@, JsonView::Text(c.reason)).insert(
            "message"@,
            JsonView::Text(c.message),
        ).insert("lastTransitionTime"@, JsonView::Text(c.last_transition_time)).insert(
            "observedGeneration"@,
            json_opt_number(
                match c.observed_generation {
                    Some(n) => Some(n as int),
                    None => None,
                },
            ),
        ),
    )
}

/// The status of a cell as JSON.
pub open spec fn cell_json(c: CellStatus) -> JsonView {
    JsonView::Object(
        Map::<Seq<char>, JsonView>::empty().insert("id"@, JsonView::Number(c.id as int)).insert(
            "desiredReplicas"@,
            JsonView::Number(c.desired_replicas as int),
        ).insert("readyReplicas"@, JsonView::Number(c.ready_replicas as int)),
    )
}

/// The status of a cluster as JSON. Absent members are explicit nulls, so that a
/// merge patch clears them.
pub open spec fn status_json(s: ClusterStatusView) -> JsonView {
    JsonView::Object(
        Map::<Seq<char>, JsonView>::empty().insert(
            "observedGeneration"@,
            json_opt_number(
                match s.observed_generation {
                    Some(n) => Some(n as int),
                    None => None,
                },
            ),
        ).insert("phase"@, JsonView::Text(s.phase)).insert(
            "allocatedReplicas"@,
            JsonView::Number(s.allocated_replicas as int),
        ).insert("desiredReplicas"@, JsonView::Number(s.desired_replicas as int)).insert(
            "readyReplicas"@,
            JsonView::Number(s.ready_replicas as int),
        ).insert("pendingNodes"@, JsonView::Number(s.pending_nodes as int)).insert(
            "caRevision"@,
            JsonView::Text(s.ca_revision),
        ).insert(
            "cells"@,
            JsonView::List(s.cells.map_values(|c: CellStatus| cell_json(c))),
        ).insert(
            "upgrade"@,
            match s.upgrade {
                Some(u) => upgrade_json(u),
                None => JsonView::Null,
            },
        ).insert(
            "conditions"@,
            JsonView::List(s.conditions.map_values(|c: ConditionView| condition_json(c))),
        ),
    )
}

fn opt_text_value(o: &Option<String>) -> (r: Value)
    ensures
        json::json_held(r) == json_opt_text(text::opt_text(*o)),
{
    match o {
        Some(t) => json::json_text(t.as_str()),
        None => json::json_null(),
    }
}

fn opt_int_value(o: Option<i64>) -> (r: Value)
    ensures
        json::json_held(r) == json_opt_number(
            match o {
                Some(n) => Some(n as int),
                None => None,
            },
        ),
{
    match o {
        Some(n) => json::json_int(n),
        None => json::json_null(),
    }
}

fn upgrade_value(u: &UpgradeStatus) -> (r: Value)
    ensures
        json::json_held(r) == upgrade_json(u@),
{
    let node = match u.current_node_id {
        Some(n) => json::json_number(n),
        None => json::json_null(),
    };
    let o = json::json_object();
    let o = json::json_put(o, "targetImage", json::json_text(u.target_image.as_str()));
    let o = json::json_put(o, "currentNodeId", node);
    let o = json::json_put(o, "startedAt", opt_text_value(&u.started_at));
    let o = json::json_put(o, "paused", json::json_bool(u.paused));
    let o = json::json_put(o, "reason", json::json_text(u.reason.as_str()));
    json::json_put(
        o,
        "observedRetryGeneration",
        json::json_number(u.observed_retry_generation),
    )
}

fn condition_value(c: &ClusterCondition) -> (r: Value)
    ensures
        json::json_held(r) == condition_json(c@),
{
    let o = json::json_object();
    let o = json::json_put(o, "type", json::json_text(c.type_.as_str()));
    let o = json::json_put(o, "status", json::json_text(c.status.as_str()));
    let o = json::json_put(o, "reason", json::json_text(c.reason.as_str()));
    let o = json::json_put(o, "message", json::json_text(c.message.as_str()));
    let o = json::json_put(
        o,
        "lastTransitionTime",
        json::json_text(c.last_transition_time.as_str()),
    );
    json::json_put(o, "observedGeneration", opt_int_value(c.observed_generation))
}

fn cell_value(c: &CellStatus) -> (r: Value)
    ensures
        json::json_held(r) == cell_json(*c),
{
    let o = json::json_object();
    let o = json::json_put(o, "id", json::json_number(c.id));
    let o = json::json_put(o, "desiredReplicas", json::json_number(c.desired_replicas as u64));
    json::json_put(o, "readyReplicas", json::json_number(c.ready_replicas as u64))
}

fn conditions_value(v: &Vec<ClusterCondition>) -> (r: Value)
    ensures
        json::json_held(r) == JsonView::List(
            cluster::condition_views(v@).map_values(|c: ConditionView| condition_json(c)),
        ),
{
    let ghost views = cluster::condition_views(v@);
    let ghost f = |c: ConditionView| condition_json(c);
    let mut out: Vec<Value> = Vec::new();
    let mut i: usize = 0;
    assert(json::all_held(out@) =~= views.take(0).map_values(f));
    while i < v.len()
        invariant
            i <= v@.len(),
            views == cluster::condition_views(v@),
            f == (|c: ConditionView| condition_json(c)),
            json::all_held(out@) == views.take(i as int).map_values(f),
        decreases v@.len() - i,
    {
        assert(views[i as int] == v@[i as int]@);
        let ghost before = out@;
        out.push(condition_value(&v[i]));
        assert(json::all_held(out@) =~= json::all_held(before).push(f(views[i as int])));
        assert(views.take(i + 1).map_values(f) =~= views.take(i as int).map_values(f).push(
            f(views[i as int]),
        ));
        i += 1;
    }
    assert(views.take(v@.len() as int) =~= views);
    json::json_list(out)
}

fn cells_value(v: &Vec<CellStatus>) -> (r: Value)
    ensures
        json::json_held(r) == JsonView::List(v@.map_values(|c: CellStatus| cell_json(c))),
{
    let ghost f = |c: CellStatus| cell_json(c);
    let mut out: Vec<Value> = Vec::new();
    let mut i: usize = 0;
    assert(json::all_held(out@) =~= v@.take(0).map_values(f));
    while i < v.len()
        invariant
            i <= v@.len(),
            f == (|c: CellStatus| cell_json(c)),
            json::all_held(out@) == v@.take(i as int).map_values(f),
        decreases v@.len() - i,
    {
        let ghost before = out@;
        out.push(cell_value(&v[i]));
        assert(json::all_held(out@) =~= json::all_held(before).push(f(v@[i as int])));
        assert(v@.take(i + 1).map_values(f) =~= v@.take(i as int).map_values(f).push(
            f(v@[i as int]),
        ));
        i += 1;
    }
    assert(v@.take(v@.len() as int) =~= v@);
    json::json_list(out)
}

/// The merge patch that writes a status.
pub fn status_patch_value(status: &RustQueueClusterStatus) -> (r: Value)
    ensures
        json::json_held(r) == status_json(status@),
{
    let upgrade = match &status.upgrade {
        Some(u) => upgrade_value(u),
        None => json::json_null(),
    };
    let o = json::json_object();
    let o = json::json_put(o, "observedGeneration", opt_int_value(status.observed_generation));
    let o = json::json_put(o, "phase", json::json_text(status.phase.as_str()));
    let o = json::json_put(
        o,
        "allocatedReplicas",
        json::json_number(status.allocated_replicas as u64),
    );
    let o = json::json_put(
        o,
        "desiredReplicas",
        json::json_number(status.desired_replicas as u64),
    );
    let o = json::json_put(o, "readyReplicas", json::json_number(status.ready_replicas as u64));
    let o = json::json_put(o, "pendingNodes", json::json_number(status.pending_nodes as u64));
    let o = json::json_put(o, "caRevision", json::json_text(status.ca_revision.as_str()));
    let o = json::json_put(o, "cells", cells_value(&status.cells));
    let o = json::json_put(o, "upgrade", upgrade);
    json::json_put(o, "conditions", conditions_value(&status.conditions))
}

proof fn lemma_key_order(a: ClusterKey)
    ensures
        !key_before(a, a),
{
    text::lemma_text_lt_irreflexive(a.namespace@);
    text::lemma_text_lt_irreflexive(a.name@);
}

proof fn lemma_first_key(keys: Seq<ClusterKey>, n: int, i: int)
    requires
        0 <= i < n <= keys.len(),
    ensures
        first_key(keys, n) is Some,
        0 <= first_key(keys, n)->0 < n,
        !key_before(keys[i], keys[first_key(keys, n)->0]),
    decreases n,
{
    if n == 1 {
        assert(first_key(keys, 0) is None);
        lemma_key_order(keys[0]);
    } else {
        let j = if i < n - 1 {
            i
        } else {
            0
        };
        lemma_first_key(keys, n - 1, j);
        let b = first_key(keys, n - 1)->0;
        lemma_key_order(keys[i]);
        if key_before(keys[n - 1], keys[b]) {
            if i < n - 1 && key_before(keys[i], keys[n - 1]) {
                lemma_key_before_transitive(keys[i], keys[n - 1], keys[b]);
            }
        }
    }
}

proof fn lemma_key_before_transitive(a: ClusterKey, b: ClusterKey, c: ClusterKey)
    requires
        key_before(a, b),
        key_before(b, c),
    ensures
        key_before(a, c),
{
    if text::text_lt(a.namespace@, b.namespace@) && text::text_lt(b.namespace@, c.namespace@) {
        text::lemma_text_lt_transitive(a.namespace@, b.namespace@, c.namespace@);
    }
    if text::text_lt(a.name@, b.name@) && text::text_lt(b.name@, c.name@) {
        text::lemma_text_lt_transitive(a.name@, b.name@, c.name@);
    }
}

/// Of several clusters the one that was created first is served, and of those created together
/// the first by namespace and name; each other is told of it.
pub proof fn law_the_oldest_cluster_is_served(
    clusters: Vec<ClusterKey>,
    uid: Option<String>,
    r: Option<String>,
    i: int,
)
    requires
        call_ensures(singleton_owner, (&clusters, &uid), r),
        0 <= i < clusters@.len(),
    ensures
        exists|b: int|
            0 <= b < clusters@.len() && {
                let first = #[trigger] clusters@[b];
                &&& clusters@[i].created is Some && first.created is Some ==> first.created->0
                    <= clusters@[i].created->0
                &&& clusters@[i].created is None ==> first.created is None
                &&& clusters@[i].created == first.created ==> !text::text_lt(
                    clusters@[i].namespace@,
                    first.namespace@,
                ) && (clusters@[i].namespace@ == first.namespace@ ==> !text::text_lt(
                    clusters@[i].name@,
                    first.name@,
                ))
                &&& r is None <==> text::opt_text(first.uid) == text::opt_text(uid)
                &&& r is Some ==> r->0@ == first.namespace@ + "/"@ + first.name@
            },
{
    let keys = clusters@;
    lemma_first_key(keys, keys.len() as int, i);
    let b = first_key(keys, keys.len() as int)->0;
    assert(keys[b] == clusters@[b]);
}

/// A workload has changed exactly where one of the five things that make it up has.
pub proof fn law_workloads_change_in_five_respects(
    a: WorkloadTemplate,
    b: WorkloadTemplate,
    r: bool,
)
    requires
        call_ensures(workload_changed, (&a, &b), r),
    ensures
        !r ==> text::opt_text(a.tls_revision) == text::opt_text(b.tls_revision),
        !r ==> text::opt_text(a.config_revision) == text::opt_text(b.config_revision),
        !r ==> text::opt_text(a.target_node) == text::opt_text(b.target_node),
        !r ==> text::opt_text(a.rollout_revision) == text::opt_text(b.rollout_revision),
        !r ==> text::opt_text(a.image) == text::opt_text(b.image),
        a == b ==> !r,
{
}

/// A cluster that is in order is looked at again soon, one that is in the way of another only
/// later.
pub proof fn law_obstacles_are_looked_at_again_later(
    owner: String,
    m: String,
    free: u64,
    second: u64,
    storage: u64,
    invalid: u64,
)
    requires
        call_ensures(requeue_seconds, (None::<&Obstacle>,), free),
        call_ensures(requeue_seconds, (Some(&Obstacle::SecondCluster(owner)),), second),
        call_ensures(requeue_seconds, (Some(&Obstacle::Storage(m)),), storage),
        call_ensures(requeue_seconds, (Some(&Obstacle::Specification(m)),), invalid),
    ensures
        free == 5,
        storage == 30 && invalid == 30,
        second == 60,
{
}

/// Each obstacle is told by a condition of its own.
pub proof fn law_obstacles_have_their_condition(owner: String, m: String)
    ensures
        obstacle_type(Obstacle::SecondCluster(owner)) == "SingletonReady"@,
        obstacle_type(Obstacle::Storage(m)) == "StorageReady"@ && obstacle_message(
            Obstacle::Storage(m),
        ) == m@,
        obstacle_type(Obstacle::Specification(m)) == "SpecValid"@ && obstacle_message(
            Obstacle::Specification(m),
        ) == m@,
        text::ends(obstacle_message(Obstacle::SecondCluster(owner)), owner@),
{
    let t = obstacle_message(Obstacle::SecondCluster(owner));
    assert(t.skip(t.len() - owner@.len()) =~= owner@);
}

/// A broker can see the ones it must know exactly where the first three brokers and all of its
/// cell have a node.
pub proof fn law_brokers_see_their_cell_and_the_first_three(
    cells: Seq<layout::CellView>,
    cell_id: nat,
    placements: Map<u64, BrokerPlacement>,
    i: int,
)
    requires
        visible_placed(cells, cell_id, placements),
    ensures
        0 <= i < 3 && i < layout::all_brokers(cells).len() ==> placements.contains_key(
            layout::all_brokers(cells)[i].node_id as u64,
        ),
        broker_config::first_cell(cells, cell_id, 0) is Some,
        0 <= i < cells[broker_config::first_cell(cells, cell_id, 0)->0].brokers.len()
            ==> placements.contains_key(
            cells[broker_config::first_cell(cells, cell_id, 0)->0].brokers[i].node_id as u64,
        ),
{
    let all = layout::all_brokers(cells);
    let first = if all.len() < 3 {
        all
    } else {
        all.take(3)
    };
    if 0 <= i < 3 && i < all.len() {
        assert(first[i] == all[i]);
    }
}

/// What is wanted of the brokers is what their tasks say: one that waits wants nothing, and of
/// one that is configured the revision and the node are known.
pub proof fn law_tasks_tell_what_is_wanted(tasks: Seq<TaskView>, id: u64)
    ensures
        task_revisions(tasks).contains_key(id) <==> exists|i: int|
            0 <= i < tasks.len() && (#[trigger] tasks[i]) is Configure
                && tasks[i]->Configure_broker.node_id as u64 == id,
        task_revisions(tasks).dom() == task_nodes(tasks).dom(),
        task_revisions(tasks).contains_key(id) ==> exists|i: int|
            0 <= i < tasks.len() && (#[trigger] tasks[i]) is Configure
                && tasks[i]->Configure_broker.node_id as u64 == id && tasks[i]->revision
                == task_revisions(tasks)[id] && tasks[i]->node_name == task_nodes(tasks)[id],
    decreases tasks.len(),
{
    if tasks.len() > 0 {
        let d = tasks.drop_last();
        let n = tasks.len() - 1;
        law_tasks_tell_what_is_wanted(d, id);
        assert(tasks[n] == tasks.last());
        if task_revisions(d).contains_key(id) {
            let i = choose|i: int|
                0 <= i < d.len() && (#[trigger] d[i]) is Configure
                    && d[i]->Configure_broker.node_id as u64 == id && d[i]->revision
                    == task_revisions(d)[id] && d[i]->node_name == task_nodes(d)[id];
            assert(tasks[i] == d[i]);
        }
        if exists|i: int|
            0 <= i < tasks.len() && (#[trigger] tasks[i]) is Configure
                && tasks[i]->Configure_broker.node_id as u64 == id {
            let i = choose|i: int|
                0 <= i < tasks.len() && (#[trigger] tasks[i]) is Configure
                    && tasks[i]->Configure_broker.node_id as u64 == id;
            if i < n {
                assert(d[i] == tasks[i]);
            }
        }
    }
}

/// A status is written out whole: what it tells can be read back.
pub proof fn law_statuses_are_written_out(s: ClusterStatusView)
    ensures
        ({
            let j = status_json(s);
            &&& json::member(j, "phase"@) == Some(JsonView::Text(s.phase))
            &&& json::member(j, "allocatedReplicas"@) == Some(
                JsonView::Number(s.allocated_replicas as int),
            )
            &&& json::member(j, "desiredReplicas"@) == Some(
                JsonView::Number(s.desired_replicas as int),
            )
            &&& json::member(j, "readyReplicas"@) == Some(JsonView::Number(s.ready_replicas as int))
            &&& json::member(j, "pendingNodes"@) == Some(JsonView::Number(s.pending_nodes as int))
            &&& json::member(j, "caRevision"@) == Some(JsonView::Text(s.ca_revision))
            &&& s.observed_generation is Some ==> json::member(j, "observedGeneration"@) == Some(
                JsonView::Number(s.observed_generation->0 as int),
            )
            &&& s.upgrade is None ==> json::member(j, "upgrade"@) == Some(JsonView::Null)
            &&& json::member(j, "conditions"@) matches Some(JsonView::List(l)) && l.len()
                == s.conditions.len()
            &&& json::member(j, "cells"@) matches Some(JsonView::List(l)) && l.len()
                == s.cells.len()
        }),
{
    reveal_strlit("observedGeneration");
    reveal_strlit("phase");
    reveal_strlit("allocatedReplicas");
    reveal_strlit("desiredReplicas");
    reveal_strlit("readyReplicas");
    reveal_strlit("pendingNodes");
    reveal_strlit("caRevision");
    reveal_strlit("cells");
    reveal_strlit("upgrade");
    reveal_strlit("conditions");
    assert("observedGeneration"@.len() == 18 && "phase"@.len() == 5 && "allocatedReplicas"@.len()
        == 17 && "desiredReplicas"@.len() == 15 && "readyReplicas"@.len() == 13
        && "pendingNodes"@.len() == 12 && "caRevision"@.len() == 10 && "cells"@.len() == 5
        && "upgrade"@.len() == 7 && "conditions"@.len() == 10);
    assert("phase"@[0] == 'p' && "cells"@[0] == 'c' && "caRevision"@[1] == 'a' && "conditions"@[1]
        == 'o');
}

/// An upgrade is written out whole.
pub proof fn law_upgrades_are_written_out(u: UpgradeView)
    ensures
        ({
            let j = upgrade_json(u);
            &&& json::member(j, "targetImage"@) == Some(JsonView::Text(u.target_image))
            &&& json::member(j, "paused"@) == Some(JsonView::Bool(u.paused))
            &&& json::member(j, "reason"@) == Some(JsonView::Text(u.reason))
            &&& json::member(j, "observedRetryGeneration"@) == Some(
                JsonView::Number(u.observed_retry_generation as int),
            )
            &&& u.current_node_id is Some ==> json::member(j, "currentNodeId"@) == Some(
                JsonView::Number(u.current_node_id->0 as int),
            )
            &&& u.current_node_id is None ==> json::member(j, "currentNodeId"@) == Some(
                JsonView::Null,
            )
            &&& u.started_at is Some ==> json::member(j, "startedAt"@) == Some(
                JsonView::Text(u.started_at->0),
            )
        }),
{
    reveal_strlit("targetImage");
    reveal_strlit("currentNodeId");
    reveal_strlit("startedAt");
    reveal_strlit("paused");
    reveal_strlit("reason");
    reveal_strlit("observedRetryGeneration");
    assert("targetImage"@.len() == 11 && "currentNodeId"@.len() == 13 && "startedAt"@.len() == 9
        && "paused"@.len() == 6 && "reason"@.len() == 6 && "observedRetryGeneration"@.len() == 23);
    assert("paused"@[0] == 'p' && "reason"@[0] == 'r');
}

/// A condition is written out whole.
pub proof fn law_conditions_are_written_out(c: ConditionView)
    ensures
        ({
            let j = condition_json(c);
            &&& json::member(j, "type"@) == Some(JsonView::Text(c.type_))
            &&& json::member(j, "status"@) == Some(JsonView::Text(c.status))
            &&& json::member(j, "reason"@) == Some(JsonView::Text(c.reason))
            &&& json::member(j, "message"@) == Some(JsonView::Text(c.message))
            &&& json::member(j, "lastTransitionTime"@) == Some(
                JsonView::Text(c.last_transition_time),
            )
        }),
{
    reveal_strlit("type");
    reveal_strlit("status");
    reveal_strlit("reason");
    reveal_strlit("message");
    reveal_strlit("lastTransitionTime");
    reveal_strlit("observedGeneration");
    assert("type"@.len() == 4 && "status"@.len() == 6 && "reason"@.len() == 6 && "message"@.len()
        == 7 && "lastTransitionTime"@.len() == 18 && "observedGeneration"@.len() == 18);
    assert("status"@[0] == 's' && "reason"@[0] == 'r' && "lastTransitionTime"@[0] == 'l'
        && "observedGeneration"@[0] == 'o');
}

/// A cell is written out whole.
pub proof fn law_cells_are_written_out(c: CellStatus)
    ensures
        ({
            let j = cell_json(c);
            &&& json::member(j, "id"@) == Some(JsonView::Number(c.id as int))
            &&& json::member(j, "desiredReplicas"@) == Some(
                JsonView::Number(c.desired_replicas as int),
            )
            &&& json::member(j, "readyReplicas"@) == Some(JsonView::Number(c.ready_replicas as int))
        }),
{
    reveal_strlit("id");
    reveal_strlit("desiredReplicas");
    reveal_strlit("readyReplicas");
    assert("id"@.len() == 2 && "desiredReplicas"@.len() == 15 && "readyReplicas"@.len() == 13);
}

/// What is recorded of a decision is the upgrade that it speaks of.
pub proof fn law_decisions_are_recorded(d: Decision, r: Option<UpgradeStatus>)
    requires
        call_ensures(recorded_upgrade, (&d,), r),
    ensures
        d@ matches DecisionView::Settled(s) ==> cluster::opt_upgrade(r) == s,
        d@ is Delete ==> r is Some && r->0@ == d@->Delete_status,
        d@ is Release ==> r is Some && r->0@ == d@->Release_status,
{
}

/// The condition that tells an obstacle gives its reason.
pub proof fn law_obstacles_have_their_reason(owner: String, m: String)
    ensures
        obstacle_reason(Obstacle::SecondCluster(owner)) == "MultipleClusters"@,
        obstacle_reason(Obstacle::Storage(m)) == "StorageClassUnresolved"@,
        obstacle_reason(Obstacle::Specification(m)) == "ValidationFailed"@,
{
}

/// A broker is configured where it is placed: on its node, with the
/// configuration that is rendered for it and reads, under the revision of that
/// text and of the specification. A broker without a place waits.
pub proof fn law_placed_brokers_are_configured(
    cluster_name: &str,
    namespace: &str,
    cluster: &RustQueueCluster,
    spec_bytes: &[u8],
    layout: &ClusterLayout,
    broker: &BrokerPlan,
    placements: &BTreeMap<u64, BrokerPlacement>,
    domains: &BTreeMap<u64, String>,
    r: Result<BrokerTask, ConfigError>,
)
    requires
        call_ensures(
            broker_task,
            (cluster_name, namespace, cluster, spec_bytes, layout, broker, placements, domains),
            r,
        ),
    ensures
        !placements@.contains_key(broker.node_id) ==> r is Ok && r->Ok_0 is Pending
            && r->Ok_0->Pending_0 == *broker,
        r is Ok && r->Ok_0 is Pending ==> r->Ok_0->Pending_0 == *broker && (
        !placements@.contains_key(broker.node_id) || !visible_placed(
            layout@.cells,
            broker.cell_id as nat,
            placements@,
        )),
        r is Ok && r->Ok_0 is Configure ==> {
            let t = r->Ok_0;
            &&& t->broker == *broker
            &&& placements@.contains_key(broker.node_id)
            &&& t->node_name@ == placements@[broker.node_id].node_name@
            &&& broker_config::toml_reads(t->contents@)
            &&& broker_config::config_text(
                ConfigInput {
                    cluster_name,
                    namespace,
                    spec: &cluster.spec,
                    layout,
                    broker,
                    failure_domains: domains,
                },
            ) == Ok::<Seq<char>, ConfigError>(t->contents@)
            &&& t->revision == pki::content_revision(encode_utf8(t->contents@) + spec_bytes@)
        },
        r is Err ==> placements@.contains_key(broker.node_id) && visible_placed(
            layout@.cells,
            broker.cell_id as nat,
            placements@,
        ),
{
}

/// The brokers of a layout have one task each, in their order, where none is
/// refused.
pub proof fn law_every_broker_has_its_task(
    cluster_name: &str,
    namespace: &str,
    cluster: &RustQueueCluster,
    spec_bytes: &[u8],
    layout: &ClusterLayout,
    placements: &BTreeMap<u64, BrokerPlacement>,
    r: (Vec<BrokerTask>, Result<DesiredBrokers, ConfigError>),
)
    requires
        layout::all_brokers(layout@.cells).len() <= u16::MAX,
        call_ensures(
            ensure_brokers,
            (cluster_name, namespace, cluster, spec_bytes, layout, placements),
            r,
        ),
    ensures
        r.1 is Ok ==> r.0@.len() == layout::all_brokers(layout@.cells).len(),
        r.1 is Err ==> r.0@.len() < layout::all_brokers(layout@.cells).len(),
        forall|i: int|
            0 <= i < r.0@.len() ==> match #[trigger] r.0@[i] {
                BrokerTask::Pending(b) => b@ == layout::all_brokers(layout@.cells)[i],
                BrokerTask::Configure { broker, node_name, .. } => broker@ == layout::all_brokers(
                    layout@.cells,
                )[i] && placements@.contains_key(broker.node_id) && node_name@
                    == placements@[broker.node_id].node_name@,
            },
{
    let (brokers, domains) = choose|brokers: Seq<&BrokerPlan>, domains: &BTreeMap<u64, String>|
     #[trigger]
        brokers_ensured(
            cluster_name,
            namespace,
            cluster,
            spec_bytes@,
            layout,
            brokers,
            placements@,
            domains,
            r.0@,
            r.1,
        );
    assert(layout::broker_views(brokers).len() == brokers.len());
    assert forall|i: int| 0 <= i < r.0@.len() implies match #[trigger] r.0@[i] {
        BrokerTask::Pending(b) => b@ == layout::all_brokers(layout@.cells)[i],
        BrokerTask::Configure { broker, node_name, .. } => broker@ == layout::all_brokers(
            layout@.cells,
        )[i] && placements@.contains_key(broker.node_id) && node_name@
            == placements@[broker.node_id].node_name@,
    } by {
        assert(layout::broker_views(brokers)[i] == brokers[i]@);
    }
}

} // verus!
