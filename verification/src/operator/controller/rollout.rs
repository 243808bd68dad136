//! One broker at a time: the decisions of a rollout in a federated cluster.
use crate::operator::cluster::{self, RustQueueCluster, UpgradePolicy, UpgradeStatus, UpgradeView};
use crate::operator::layout::{self, BrokerPlan, BrokerView, ClusterLayout};
use crate::operator::status;
use crate::operator::upgrade::{self, PodRolloutState, RolloutTarget};
use crate::text;
use vstd::prelude::*;
use vstd::string::*;

verus! {

/// What a rollout does next.
#[derive(Debug, PartialEq, Eq)]
pub enum Decision {
    /// Nothing but recording the status.
    Settled(Option<UpgradeStatus>),
    /// Replace the pod of a broker.
    Delete { status: UpgradeStatus, broker: BrokerPlan, pod_name: String, needs_maintenance: bool },
    /// Let the replaced broker leave maintenance.
    Release { status: UpgradeStatus, broker: BrokerPlan },
}

/// `Decision` as values.
pub enum DecisionView {
    Settled(Option<UpgradeView>),
    Delete {
        status: UpgradeView,
        broker: BrokerView,
        pod_name: Seq<char>,
        needs_maintenance: bool,
    },
    Release { status: UpgradeView, broker: BrokerView },
}

impl View for Decision {
    type V = DecisionView;

    open spec fn view(&self) -> DecisionView {
        match self {
            Decision::Settled(s) => DecisionView::Settled(cluster::opt_upgrade(*s)),
            Decision::Delete { status, broker, pod_name, needs_maintenance } =>
                DecisionView::Delete {
                status: status@,
                broker: broker@,
                pod_name: pod_name@,
                needs_maintenance: *needs_maintenance,
            },
            Decision::Release { status, broker } => DecisionView::Release {
                status: status@,
                broker: broker@,
            },
        }
    }
}

/// The status of a rollout that has not begun.
pub open spec fn new_rollout(image: Seq<char>, retry_generation: u64) -> UpgradeView {
    UpgradeView {
        target_image: image,
        current_node_id: None,
        started_at: None,
        paused: false,
        reason: "rollout pending"@,
        observed_retry_generation: retry_generation,
    }
}

/// The status with the current target: a new image or a new retry generation
/// lifts a pause and forgets its reason.
pub open spec fn retargeted(
    old: Option<UpgradeView>,
    image: Seq<char>,
    retry_generation: u64,
) -> UpgradeView {
    let base = match old {
        Some(s) => s,
        None => new_rollout(image, retry_generation),
    };
    if base.target_image != image || base.observed_retry_generation != retry_generation {
        UpgradeView {
            target_image: image,
            paused: false,
            reason: Seq::empty(),
            observed_retry_generation: retry_generation,
            ..base
        }
    } else {
        base
    }
}

/// A 64-bit number of seconds, read as a signed number.
pub open spec fn signed_seconds(seconds: u64) -> int {
    if seconds < 0x8000_0000_0000_0000 {
        seconds as int
    } else {
        seconds - 0x1_0000_0000_0000_0000
    }
}

/// Whether more than the deadline has passed since the start.
pub open spec fn is_expired(started: Option<i64>, deadline_seconds: u64, now: i64) -> bool {
    started matches Some(s) && now - s > signed_seconds(deadline_seconds)
}

/// The position of the first pod with a node ID.
pub open spec fn first_pod(pods: Seq<PodRolloutState>, node_id: u64, k: int) -> Option<int>
    decreases pods.len() - k,
{
    if k < 0 || k >= pods.len() {
        None
    } else if pods[k].node_id == node_id {
        Some(k)
    } else {
        first_pod(pods, node_id, k + 1)
    }
}

/// What a rollout does while a broker is being replaced.
pub open spec fn decided_current(
    status: UpgradeView,
    node_id: u64,
    policy: UpgradePolicy,
    brokers: Seq<BrokerView>,
    pods: Seq<PodRolloutState>,
    target: RolloutTarget<'_>,
    started: Option<i64>,
    now: i64,
) -> DecisionView {
    match layout::first_broker(brokers, node_id as nat) {
        None => DecisionView::Settled(
            Some(
                UpgradeView {
                    paused: true,
                    reason: "current Broker is absent from the desired layout"@,
                    ..status
                },
            ),
        ),
        Some(b) => {
            let found = first_pod(pods, node_id, 0);
            if found matches Some(p) && upgrade::matches_target(pods[p], target) && pods[p].ready {
                DecisionView::Release { status, broker: brokers[b] }
            } else if found matches Some(p) && !upgrade::matches_target(pods[p], target) {
                DecisionView::Delete {
                    status,
                    broker: brokers[b],
                    pod_name: pods[found->0].pod_name@,
                    needs_maintenance: pods[found->0].ready,
                }
            } else if is_expired(started, policy.progress_deadline_seconds, now) {
                DecisionView::Settled(
                    Some(
                        UpgradeView {
                            paused: true,
                            reason: "Broker "@ + text::dec(node_id as nat)
                                + " did not become Ready before the rollout deadline; bump spec.upgrade.retryGeneration to resume"@,
                            ..status
                        },
                    ),
                )
            } else {
                DecisionView::Settled(Some(status))
            }
        },
    }
}

/// What a rollout does when no broker is being replaced.
pub open spec fn decided_next(
    status: UpgradeView,
    policy: UpgradePolicy,
    brokers: Seq<BrokerView>,
    pods: Seq<PodRolloutState>,
    target: RolloutTarget<'_>,
    time: Seq<char>,
) -> DecisionView {
    if !policy.automatic {
        DecisionView::Settled(
            Some(
                UpgradeView { paused: true, reason: "automatic rollout is disabled"@, ..status },
            ),
        )
    } else if status.paused {
        DecisionView::Settled(Some(status))
    } else {
        match upgrade::candidate(
            pods,
            target,
            policy.max_unavailable_per_cell as nat,
            pods.len() as int,
        ) {
            None => DecisionView::Settled(
                Some(
                    UpgradeView {
                        reason: "waiting for every Cell to regain its disruption budget"@,
                        ..status
                    },
                ),
            ),
            Some(p) => match layout::first_broker(brokers, pods[p].node_id as nat) {
                None => DecisionView::Settled(
                    Some(
                        UpgradeView {
                            paused: true,
                            reason: "rollout candidate is absent from desired layout"@,
                            ..status
                        },
                    ),
                ),
                Some(b) => DecisionView::Delete {
                    status: UpgradeView {
                        current_node_id: Some(pods[p].node_id),
                        started_at: Some(time),
                        reason: "transferring leadership before Pod replacement"@,
                        ..status
                    },
                    broker: brokers[b],
                    pod_name: pods[p].pod_name@,
                    needs_maintenance: pods[p].ready,
                },
            },
        }
    }
}

/// What a rollout does next, at a time.
pub open spec fn decided(
    policy: UpgradePolicy,
    old: Option<UpgradeView>,
    brokers: Seq<BrokerView>,
    pods: Seq<PodRolloutState>,
    target: RolloutTarget<'_>,
    started: Option<i64>,
    time: Seq<char>,
    now: i64,
) -> DecisionView {
    if upgrade::is_complete(pods, target) {
        DecisionView::Settled(None)
    } else {
        let status = retargeted(old, target.image@, policy.retry_generation);
        match status.current_node_id {
            Some(node_id) => decided_current(
                status,
                node_id,
                policy,
                brokers,
                pods,
                target,
                started,
                now,
            ),
            None => decided_next(status, policy, brokers, pods, target, time),
        }
    }
}

/// The rollout status that the cluster records.
pub open spec fn recorded(cluster: RustQueueCluster) -> Option<UpgradeView> {
    match cluster.status {
        Some(s) => cluster::opt_upgrade(s.upgrade),
        None => None,
    }
}

fn new_status(image: &str, retry_generation: u64) -> (r: UpgradeStatus)
    ensures
        r@ == new_rollout(image@, retry_generation),
{
    UpgradeStatus {
        target_image: image.to_owned(),
        current_node_id: None,
        started_at: None,
        paused: false,
        reason: "rollout pending".to_owned(),
        observed_retry_generation: retry_generation,
    }
}

fn retarget(old: Option<UpgradeStatus>, image: &str, retry_generation: u64) -> (r: UpgradeStatus)
    ensures
        r@ == retargeted(cluster::opt_upgrade(old), image@, retry_generation),
{
    let mut status = match old {
        Some(s) => s,
        None => new_status(image, retry_generation),
    };
    if !text::str_eq(status.target_image.as_str(), image) || status.observed_retry_generation
        != retry_generation {
        status.target_image = image.to_owned();
        status.paused = false;
        status.reason = String::new();
        status.observed_retry_generation = retry_generation;
    }
    status
}

/// Whether more than the deadline has passed since the start.
pub fn deadline_expired(started: Option<i64>, deadline_seconds: u64, now: i64) -> (r: bool)
    ensures
        r == is_expired(started, deadline_seconds, now),
{
    let deadline: i128 = if deadline_seconds < 0x8000_0000_0000_0000u64 {
        deadline_seconds as i128
    } else {
        (deadline_seconds as i128) - 0x1_0000_0000_0000_0000i128
    };
    match started {
        Some(s) => (now as i128) - (s as i128) > deadline,
        None => false,
    }
}

fn find_pod(pods: &[PodRolloutState], node_id: u64) -> (r: Option<usize>)
    ensures
        match r {
            Some(i) => i < pods@.len() && first_pod(pods@, node_id, 0) == Some(i as int),
            None => first_pod(pods@, node_id, 0) is None,
        },
{
    let mut i: usize = 0;
    while i < pods.len()
        invariant
            i <= pods@.len(),
            first_pod(pods@, node_id, 0) == first_pod(pods@, node_id, i as int),
        decreases pods@.len() - i,
    {
        if pods[i].node_id == node_id {
            return Some(i);
        }
        i += 1;
    }
    None
}

fn decide_current(
    status: UpgradeStatus,
    node_id: u64,
    policy: &UpgradePolicy,
    layout: &ClusterLayout,
    pods: &[PodRolloutState],
    target: &RolloutTarget<'_>,
    started: Option<i64>,
    now: i64,
) -> (r: Decision)
    ensures
        r@ == decided_current(
            status@,
            node_id,
            *policy,
            layout::all_brokers(layout@.cells),
            pods@,
            *target,
            started,
            now,
        ),
{
    let mut status = status;
    let broker = match layout.broker(node_id) {
        Some(b) => b.duplicate(),
        None => {
            status.paused = true;
            status.reason = "current Broker is absent from the desired layout".to_owned();
            return Decision::Settled(Some(status));
        },
    };
    if let Some(p) = find_pod(pods, node_id) {
        let pod = &pods[p];
        let same = upgrade::pod_matches(pod, target);
        if same && pod.ready {
            return Decision::Release { status, broker };
        }
        if !same {
            return Decision::Delete {
                status,
                broker,
                pod_name: pod.pod_name.clone(),
                needs_maintenance: pod.ready,
            };
        }
    }
    if deadline_expired(started, policy.progress_deadline_seconds, now) {
        status.paused = true;
        let mut reason = "Broker ".to_owned();
        reason.append(text::decimal(node_id).as_str());
        reason.append(
            " did not become Ready before the rollout deadline; bump spec.upgrade.retryGeneration to resume",
        );
        status.reason = reason;
    }
    Decision::Settled(Some(status))
}

fn decide_next(
    status: UpgradeStatus,
    policy: &UpgradePolicy,
    layout: &ClusterLayout,
    pods: &[PodRolloutState],
    target: &RolloutTarget<'_>,
    time: &str,
) -> (r: Decision)
    ensures
        r@ == decided_next(
            status@,
            *policy,
            layout::all_brokers(layout@.cells),
            pods@,
            *target,
            time@,
        ),
{
    let mut status = status;
    if !policy.automatic {
        status.paused = true;
        status.reason = "automatic rollout is disabled".to_owned();
        return Decision::Settled(Some(status));
    }
    if status.paused {
        return Decision::Settled(Some(status));
    }
    let candidate = match upgrade::next_candidate(pods, target, policy.max_unavailable_per_cell) {
        Some(c) => c,
        None => {
            status.reason = "waiting for every Cell to regain its disruption budget".to_owned();
            return Decision::Settled(Some(status));
        },
    };
    let broker = match layout.broker(candidate.node_id) {
        Some(b) => b.duplicate(),
        None => {
            status.paused = true;
            status.reason = "rollout candidate is absent from desired layout".to_owned();
            return Decision::Settled(Some(status));
        },
    };
    status.current_node_id = Some(candidate.node_id);
    status.started_at = Some(time.to_owned());
    status.reason = "transferring leadership before Pod replacement".to_owned();
    Decision::Delete {
        status,
        broker,
        pod_name: candidate.pod_name.clone(),
        needs_maintenance: candidate.ready,
    }
}

/// Decides what a rollout does next, given the start of the current step and
/// the time.
pub fn decide_at(
    cluster: &RustQueueCluster,
    layout: &ClusterLayout,
    pods: &[PodRolloutState],
    target: &RolloutTarget<'_>,
    started: Option<i64>,
    time: &str,
    now: i64,
) -> (r: Decision)
    ensures
        r@ == decided(
            cluster.spec.upgrade,
            recorded(*cluster),
            layout::all_brokers(layout@.cells),
            pods@,
            *target,
            started,
            time@,
            now,
        ),
{
    if upgrade::complete(pods, target) {
        return Decision::Settled(None);
    }
    let old = match &cluster.status {
        Some(s) => cluster::clone_upgrade(&s.upgrade),
        None => None,
    };
    let policy = &cluster.spec.upgrade;
    let status = retarget(old, target.image, policy.retry_generation);
    match status.current_node_id {
        Some(node_id) => decide_current(
            status,
            node_id,
            policy,
            layout,
            pods,
            target,
            started,
            now,
        ),
        None => decide_next(status, policy, layout, pods, target, time),
    }
}

/// The start of the current step, as `rfc3339_seconds` reads it.
pub open spec fn recorded_start(cluster: RustQueueCluster) -> Option<i64> {
    match recorded(cluster) {
        Some(s) => match s.started_at {
            Some(t) => status::rfc3339_seconds(t),
            None => None,
        },
        None => None,
    }
}

/// Decides what a rollout does next, now.
pub fn decide(
    cluster: &RustQueueCluster,
    layout: &ClusterLayout,
    pods: &[PodRolloutState],
    target: &RolloutTarget<'_>,
) -> (r: Decision)
    ensures
        exists|time: Seq<char>, now: i64|
            r@ == #[trigger] decided(
                cluster.spec.upgrade,
                recorded(*cluster),
                layout::all_brokers(layout@.cells),
                pods@,
                *target,
                recorded_start(*cluster),
                time,
                now,
            ),
{
    let started: Option<i64> = match &cluster.status {
        Some(s) => match &s.upgrade {
            Some(u) => match &u.started_at {
                Some(t) => status::parse_rfc3339(t.as_str()),
                None => None,
            },
            None => None,
        },
        None => None,
    };
    let time = status::now();
    decide_at(cluster, layout, pods, target, started, time.as_str(), status::unix_now())
}

/// The status after the replaced broker left maintenance.
pub open spec fn released(image: Seq<char>, retry_generation: u64) -> UpgradeView {
    UpgradeView {
        target_image: image,
        current_node_id: None,
        started_at: None,
        paused: false,
        reason: "replacement is compatible and Ready"@,
        observed_retry_generation: retry_generation,
    }
}

/// The status after the replaced broker left maintenance.
pub fn release_status(cluster: &RustQueueCluster) -> (r: UpgradeStatus)
    ensures
        r@ == released(cluster.spec.image@, cluster.spec.upgrade.retry_generation),
{
    UpgradeStatus {
        target_image: cluster.spec.image.clone(),
        current_node_id: None,
        started_at: None,
        paused: false,
        reason: "replacement is compatible and Ready".to_owned(),
        observed_retry_generation: cluster.spec.upgrade.retry_generation,
    }
}

/// What a broker is told of its maintenance.
#[derive(Debug, PartialEq, Eq)]
pub struct MaintenanceLease {
    pub enabled: bool,
    pub ttl_seconds: Option<u64>,
    pub reason: String,
}

/// The maintenance lease of a rolling replacement: half an hour, or none.
pub fn maintenance_lease(enabled: bool) -> (r: MaintenanceLease)
    ensures
        r.enabled == enabled,
        r.ttl_seconds == (if enabled {
            Some(1800u64)
        } else {
            None
        }),
        r.reason@ == (if enabled {
            "kubernetes rolling replacement"@
        } else {
            ""@
        }),
{
    if enabled {
        MaintenanceLease {
            enabled: true,
            ttl_seconds: Some(1800),
            reason: "kubernetes rolling replacement".to_owned(),
        }
    } else {
        MaintenanceLease { enabled: false, ttl_seconds: None, reason: "".to_owned() }
    }
}

/// The name of the pod of a broker inside the cluster network.
pub open spec fn dns_name(broker: BrokerView, namespace: Seq<char>) -> Seq<char> {
    broker.pod_name + "."@ + broker.headless_service + "."@ + namespace + ".svc"@
}

/// The name of the pod of a broker inside the cluster network.
pub fn pod_dns(namespace: &str, broker: &BrokerPlan) -> (r: String)
    ensures
        r@ == dns_name(broker@, namespace@),
{
    let mut r = broker.pod_name.clone();
    r.append(".");
    r.append(broker.headless_service.as_str());
    r.append(".");
    r.append(namespace);
    r.append(".svc");
    r
}

/// Where a broker takes its maintenance lease.
pub fn maintenance_url(namespace: &str, broker: &BrokerPlan) -> (r: String)
    ensures
        r@ == "http://"@ + dns_name(broker@, namespace@) + ":4151/v1/cluster/nodes/"@ + text::dec(
            broker.node_id as nat,
        ) + "/maintenance"@,
{
    let mut r = "http://".to_owned();
    r.append(pod_dns(namespace, broker).as_str());
    r.append(":4151/v1/cluster/nodes/");
    r.append(text::decimal(broker.node_id).as_str());
    r.append("/maintenance");
    r
}

/// Where a broker tells its version.
pub fn info_url(namespace: &str, broker: &BrokerPlan) -> (r: String)
    ensures
        r@ == "http://"@ + dns_name(broker@, namespace@) + ":4151/info"@,
{
    let mut r = "http://".to_owned();
    r.append(pod_dns(namespace, broker).as_str());
    r.append(":4151/info");
    r
}

/// While a broker is being replaced no other broker is touched.
pub proof fn law_only_the_current_broker_is_touched(
    policy: UpgradePolicy,
    old: Option<UpgradeView>,
    brokers: Seq<BrokerView>,
    pods: Seq<PodRolloutState>,
    target: RolloutTarget<'_>,
    started: Option<i64>,
    time: Seq<char>,
    now: i64,
)
    requires
        old matches Some(s) && s.current_node_id is Some,
        forall|b: int| 0 <= b < brokers.len() ==> (#[trigger] brokers[b]).node_id <= u64::MAX,
    ensures
        match decided(policy, old, brokers, pods, target, started, time, now) {
            DecisionView::Settled(_) => true,
            DecisionView::Delete { status, broker, .. } => broker.node_id
                == old->0.current_node_id->0 && status.current_node_id == old->0.current_node_id,
            DecisionView::Release { broker, .. } => broker.node_id == old->0.current_node_id->0,
        },
{
    let node_id = old->0.current_node_id->0;
    lemma_first_broker_has_id(brokers, node_id as nat);
}

proof fn lemma_first_broker_has_id(brokers: Seq<BrokerView>, node_id: nat)
    ensures
        layout::first_broker(brokers, node_id) matches Some(i) ==> 0 <= i < brokers.len()
            && brokers[i].node_id == node_id,
    decreases brokers.len(),
{
    if brokers.len() > 0 {
        lemma_first_broker_has_id(brokers.drop_last(), node_id);
    }
}

/// A paused rollout replaces no further broker until the image or the retry
/// generation changes.
pub proof fn law_paused_rollout_stays_paused(
    policy: UpgradePolicy,
    old: UpgradeView,
    brokers: Seq<BrokerView>,
    pods: Seq<PodRolloutState>,
    target: RolloutTarget<'_>,
    started: Option<i64>,
    time: Seq<char>,
    now: i64,
)
    requires
        old.paused,
        old.current_node_id is None,
        old.target_image == target.image@,
        old.observed_retry_generation == policy.retry_generation,
    ensures
        decided(policy, Some(old), brokers, pods, target, started, time, now) is Settled,
{
}

proof fn lemma_first_pod(pods: Seq<PodRolloutState>, node_id: u64, k: int)
    requires
        k >= 0,
    ensures
        first_pod(pods, node_id, k) matches Some(i) ==> k <= i < pods.len() && pods[i].node_id
            == node_id,
        first_pod(pods, node_id, k) is None ==> forall|i: int|
            k <= i < pods.len() ==> (#[trigger] pods[i]).node_id != node_id,
    decreases pods.len() - k,
{
    if k < pods.len() && pods[k].node_id != node_id {
        lemma_first_pod(pods, node_id, k + 1);
    }
}

/// A rollout that is complete leaves no trace, and none that is not is forgotten.
pub proof fn law_only_complete_rollouts_are_forgotten(
    policy: UpgradePolicy,
    old: Option<UpgradeView>,
    brokers: Seq<BrokerView>,
    pods: Seq<PodRolloutState>,
    target: RolloutTarget<'_>,
    started: Option<i64>,
    time: Seq<char>,
    now: i64,
)
    ensures
        (decided(policy, old, brokers, pods, target, started, time, now) matches DecisionView::Settled(
            s,
        ) && s is None) <==> {
            &&& pods.len() > 0
            &&& pods.len() == target.tls_revisions@.len()
            &&& forall|i: int|
                0 <= i < pods.len() ==> (#[trigger] pods[i]).ready && upgrade::matches_target(
                    pods[i],
                    target,
                )
        },
{
}

/// A broker is let go again only when its pod is ready and as it should be.
pub proof fn law_brokers_are_released_when_their_pod_is_ready(
    policy: UpgradePolicy,
    old: Option<UpgradeView>,
    brokers: Seq<BrokerView>,
    pods: Seq<PodRolloutState>,
    target: RolloutTarget<'_>,
    started: Option<i64>,
    time: Seq<char>,
    now: i64,
)
    requires
        decided(policy, old, brokers, pods, target, started, time, now) is Release,
        forall|b: int| 0 <= b < brokers.len() ==> (#[trigger] brokers[b]).node_id <= u64::MAX,
    ensures
        ({
            let d = decided(policy, old, brokers, pods, target, started, time, now);
            old is Some && old->0.current_node_id is Some && d->Release_broker.node_id
                == old->0.current_node_id->0 && exists|i: int|
                0 <= i < pods.len() && (#[trigger] pods[i]).node_id == old->0.current_node_id->0
                    && pods[i].ready && upgrade::matches_target(pods[i], target)
        }),
{
    let status = retargeted(old, target.image@, policy.retry_generation);
    let n = status.current_node_id->0;
    lemma_first_pod(pods, n, 0);
    lemma_first_broker_has_id(brokers, n as nat);
    let i = first_pod(pods, n, 0)->0;
    assert(pods[i].node_id == n);
}

/// A pod is deleted only where it is not as it should be; a ready one is drained first; and the
/// broker that is worked on from then on is the one of the pod.
pub proof fn law_deleted_pods_are_not_as_they_should_be(
    policy: UpgradePolicy,
    old: Option<UpgradeView>,
    brokers: Seq<BrokerView>,
    pods: Seq<PodRolloutState>,
    target: RolloutTarget<'_>,
    started: Option<i64>,
    time: Seq<char>,
    now: i64,
)
    requires
        decided(policy, old, brokers, pods, target, started, time, now) is Delete,
    ensures
        ({
            let d = decided(policy, old, brokers, pods, target, started, time, now);
            exists|i: int|
                0 <= i < pods.len() && (#[trigger] pods[i]).pod_name@ == d->pod_name
                    && !upgrade::matches_target(pods[i], target) && pods[i].ready
                    == d->needs_maintenance && d->Delete_broker.node_id == pods[i].node_id
                    && d->Delete_status.current_node_id == Some(pods[i].node_id)
                    && d->Delete_status.target_image == target.image@
                    && d->Delete_status.observed_retry_generation == policy.retry_generation
        }),
{
    let status = retargeted(old, target.image@, policy.retry_generation);
    if status.current_node_id is Some {
        let n = status.current_node_id->0;
        lemma_first_pod(pods, n, 0);
        lemma_first_broker_has_id(brokers, n as nat);
        let i = first_pod(pods, n, 0)->0;
        assert(pods[i].node_id == n);
    } else {
        let budget = policy.max_unavailable_per_cell as nat;
        upgrade::law_rollout_respects_the_cell_budget(pods, target, budget);
        let i = upgrade::candidate(pods, target, budget, pods.len() as int)->0;
        lemma_first_broker_has_id(brokers, pods[i].node_id as nat);
        upgrade::law_pods_match_in_every_respect(pods[i], target);
        assert(pods[i].pod_name@ == pods[i].pod_name@);
    }
}

/// No new broker is taken unless rollouts are automatic and this one is not paused, and then
/// only one whose cell can spare it; from when on it is worked on is told.
pub proof fn law_new_brokers_are_taken_only_when_allowed(
    policy: UpgradePolicy,
    old: Option<UpgradeView>,
    brokers: Seq<BrokerView>,
    pods: Seq<PodRolloutState>,
    target: RolloutTarget<'_>,
    started: Option<i64>,
    time: Seq<char>,
    now: i64,
)
    requires
        retargeted(old, target.image@, policy.retry_generation).current_node_id is None,
        !upgrade::is_complete(pods, target),
    ensures
        ({
            let d = decided(policy, old, brokers, pods, target, started, time, now);
            &&& !(d is Release)
            &&& d is Delete ==> policy.automatic && d->Delete_status.started_at == Some(time)
                && !d->Delete_status.paused && upgrade::candidate(
                pods,
                target,
                policy.max_unavailable_per_cell as nat,
                pods.len() as int,
            ) is Some
            &&& !policy.automatic ==> d is Settled && d->0 is Some && d->0->0.paused
            &&& d matches DecisionView::Settled(s) ==> s is Some && s->0.current_node_id is None
        }),
{
}

/// A new image or another retry resumes a rollout, without forgetting the broker that is being
/// worked on; without either a rollout stays what it is.
pub proof fn law_retries_resume(old: UpgradeView, image: Seq<char>, retry: u64)
    ensures
        ({
            let r = retargeted(Some(old), image, retry);
            &&& r.target_image == image && r.observed_retry_generation == retry
            &&& r.current_node_id == old.current_node_id && r.started_at == old.started_at
            &&& old.target_image != image || old.observed_retry_generation != retry ==> !r.paused
            &&& old.target_image == image && old.observed_retry_generation == retry ==> r == old
        }),
{
}

/// A rollout that was not known before has no broker and is not paused.
pub proof fn law_new_rollouts_begin_unpaused(image: Seq<char>, retry: u64)
    ensures
        ({
            let r = retargeted(None, image, retry);
            r.target_image == image && r.observed_retry_generation == retry && r.current_node_id
                is None && r.started_at is None && !r.paused
        }),
{
}

/// A deadline has passed exactly where more seconds than it allows lie behind its start.
pub proof fn law_deadlines_pass_after_their_seconds(started: Option<i64>, seconds: u64, now: i64)
    requires
        seconds <= i64::MAX,
    ensures
        is_expired(started, seconds, now) <==> started is Some && now > started->0 + seconds,
{
}

/// A broker that is worked on is waited for until its deadline, and then the rollout is paused.
pub proof fn law_rollouts_pause_after_the_deadline(
    policy: UpgradePolicy,
    old: Option<UpgradeView>,
    brokers: Seq<BrokerView>,
    pods: Seq<PodRolloutState>,
    target: RolloutTarget<'_>,
    started: Option<i64>,
    time: Seq<char>,
    now: i64,
    b: int,
    i: int,
)
    requires
        old is Some && old->0.current_node_id is Some,
        !upgrade::is_complete(pods, target),
        layout::first_broker(brokers, old->0.current_node_id->0 as nat) == Some(b),
        first_pod(pods, old->0.current_node_id->0, 0) == Some(i),
        upgrade::matches_target(pods[i], target),
        !pods[i].ready,
        old->0.target_image == target.image@,
        old->0.observed_retry_generation == policy.retry_generation,
        policy.progress_deadline_seconds <= i64::MAX,
    ensures
        ({
            let d = decided(policy, old, brokers, pods, target, started, time, now);
            let late = started is Some && now > started->0 + policy.progress_deadline_seconds;
            &&& d matches DecisionView::Settled(s) && s is Some && s->0.current_node_id
                == old->0.current_node_id && (late ==> s->0.paused) && (!late ==> s == old)
        }),
{
}

/// Maintenance is asked for with a limit in time, and ended without one.
pub proof fn law_maintenance_is_limited_in_time(enabled: bool, r: MaintenanceLease)
    requires
        call_ensures(maintenance_lease, (enabled,), r),
    ensures
        r.enabled == enabled,
        enabled ==> r.ttl_seconds is Some && r.ttl_seconds->0 == 1800,
        !enabled ==> r.ttl_seconds is None,
{
}

/// After the replacement the upgrade goes on: it holds no broker, has no clock
/// running, and is not paused.
pub proof fn law_released_upgrades_go_on(cluster: &RustQueueCluster, r: UpgradeStatus)
    requires
        call_ensures(release_status, (cluster,), r),
    ensures
        r@.target_image == cluster.spec.image@,
        r@.current_node_id is None,
        r@.started_at is None,
        !r@.paused,
        r@.observed_retry_generation == cluster.spec.upgrade.retry_generation,
{
}

} // verus!
