//! Which broker pod a rollout replaces next.
use std::collections::BTreeMap;
use crate::text;
use vstd::prelude::*;
use vstd::string::*;

verus! {

broadcast use {vstd::std_specs::btree::group_btree_axioms, vstd::laws_cmp::group_laws_cmp};

/// A broker pod as it runs.
#[derive(Clone, Debug, PartialEq, Eq)]
pub struct PodRolloutState {
    pub node_id: u64,
    pub cell_id: u64,
    pub pod_name: String,
    pub image: String,
    pub tls_revision: u64,
    pub config_revision: u64,
    pub target_node: String,
    pub rollout_revision: u64,
    pub ready: bool,
}

/// What broker pods should run.
#[derive(Debug)]
pub struct RolloutTarget<'a> {
    pub image: &'a str,
    pub tls_revisions: &'a BTreeMap<u64, u64>,
    pub config_revisions: &'a BTreeMap<u64, u64>,
    pub target_nodes: &'a BTreeMap<u64, String>,
    pub rollout_revision: u64,
}

/// Whether a revision is known for a node and differs.
pub open spec fn revision_differs(m: Map<u64, u64>, node_id: u64, revision: u64) -> bool {
    m.contains_key(node_id) && m[node_id] != revision
}

/// Whether a revision is known for a node and is the same.
pub open spec fn revision_same(m: Map<u64, u64>, node_id: u64, revision: u64) -> bool {
    m.contains_key(node_id) && m[node_id] == revision
}

/// Whether a pod differs from the target in what the target says of it.
pub open spec fn is_outdated(pod: PodRolloutState, target: RolloutTarget<'_>) -> bool {
    ||| pod.image@ != target.image@
    ||| revision_differs(target.tls_revisions@, pod.node_id, pod.tls_revision)
    ||| revision_differs(target.config_revisions@, pod.node_id, pod.config_revision)
    ||| target.target_nodes@.contains_key(pod.node_id) && target.target_nodes@[pod.node_id]@
        != pod.target_node@
    ||| target.rollout_revision != pod.rollout_revision
}

/// Whether a pod runs exactly what the target says of it.
pub open spec fn matches_target(pod: PodRolloutState, target: RolloutTarget<'_>) -> bool {
    &&& pod.image@ == target.image@
    &&& revision_same(target.tls_revisions@, pod.node_id, pod.tls_revision)
    &&& revision_same(target.config_revisions@, pod.node_id, pod.config_revision)
    &&& target.target_nodes@.contains_key(pod.node_id) && target.target_nodes@[pod.node_id]@
        == pod.target_node@
    &&& target.rollout_revision == pod.rollout_revision
}

/// How many pods of a cell are not Ready.
pub open spec fn unavailable(pods: Seq<PodRolloutState>, cell: u64) -> nat
    decreases pods.len(),
{
    if pods.len() == 0 {
        0
    } else {
        unavailable(pods.drop_last(), cell) + if !pods.last().ready && pods.last().cell_id == cell {
            1nat
        } else {
            0nat
        }
    }
}

/// Whether a pod may be replaced: it is outdated and its cell has disruption
/// budget left, or the pod is down already and within the budget.
pub open spec fn may_replace(
    pods: Seq<PodRolloutState>,
    pod: PodRolloutState,
    target: RolloutTarget<'_>,
    budget: nat,
) -> bool {
    let down = unavailable(pods, pod.cell_id);
    is_outdated(pod, target) && (down < budget || (!pod.ready && down <= budget))
}

/// Whether `a` stands before `b` by cell, then by node.
pub open spec fn comes_first(a: PodRolloutState, b: PodRolloutState) -> bool {
    a.cell_id < b.cell_id || (a.cell_id == b.cell_id && a.node_id < b.node_id)
}

/// The first pod, by cell and node, that may be replaced among the first `n`.
pub open spec fn candidate(
    pods: Seq<PodRolloutState>,
    target: RolloutTarget<'_>,
    budget: nat,
    n: int,
) -> Option<int>
    decreases n,
{
    if n <= 0 {
        None
    } else {
        let before = candidate(pods, target, budget, n - 1);
        if !may_replace(pods, pods[n - 1], target, budget) {
            before
        } else {
            match before {
                None => Some(n - 1),
                Some(b) => if comes_first(pods[n - 1], pods[b]) {
                    Some(n - 1)
                } else {
                    Some(b)
                },
            }
        }
    }
}

fn differs(m: &BTreeMap<u64, u64>, node_id: u64, revision: u64) -> (r: bool)
    ensures
        r == revision_differs(m@, node_id, revision),
{
    match m.get(&node_id) {
        Some(x) => *x != revision,
        None => false,
    }
}

fn same(m: &BTreeMap<u64, u64>, node_id: u64, revision: u64) -> (r: bool)
    ensures
        r == revision_same(m@, node_id, revision),
{
    match m.get(&node_id) {
        Some(x) => *x == revision,
        None => false,
    }
}

fn outdated(pod: &PodRolloutState, target: &RolloutTarget<'_>) -> (r: bool)
    ensures
        r == is_outdated(*pod, *target),
{
    if !text::str_eq(pod.image.as_str(), target.image) {
        return true;
    }
    if differs(target.tls_revisions, pod.node_id, pod.tls_revision) {
        return true;
    }
    if differs(target.config_revisions, pod.node_id, pod.config_revision) {
        return true;
    }
    if let Some(node) = target.target_nodes.get(&pod.node_id) {
        if !text::str_eq(node.as_str(), pod.target_node.as_str()) {
            return true;
        }
    }
    target.rollout_revision != pod.rollout_revision
}

/// Whether a pod runs exactly what the target says of it.
pub fn pod_matches(pod: &PodRolloutState, target: &RolloutTarget<'_>) -> (r: bool)
    ensures
        r == matches_target(*pod, *target),
{
    let node_same = match target.target_nodes.get(&pod.node_id) {
        Some(node) => text::str_eq(node.as_str(), pod.target_node.as_str()),
        None => false,
    };
    text::str_eq(pod.image.as_str(), target.image) && same(
        target.tls_revisions,
        pod.node_id,
        pod.tls_revision,
    ) && same(target.config_revisions, pod.node_id, pod.config_revision) && node_same
        && target.rollout_revision == pod.rollout_revision
}

fn count_unavailable(pods: &[PodRolloutState], cell: u64) -> (r: usize)
    ensures
        r == unavailable(pods@, cell),
{
    let mut count: usize = 0;
    let mut i: usize = 0;
    assert(pods@.take(0) =~= Seq::<PodRolloutState>::empty());
    while i < pods.len()
        invariant
            i <= pods@.len(),
            count <= i,
            count == unavailable(pods@.take(i as int), cell),
        decreases pods@.len() - i,
    {
        assert(pods@.take(i + 1).drop_last() =~= pods@.take(i as int));
        assert(pods@.take(i + 1).last() == pods@[i as int]);
        if !pods[i].ready && pods[i].cell_id == cell {
            count += 1;
        }
        i += 1;
    }
    assert(pods@.take(pods@.len() as int) =~= pods@);
    count
}

/// The pod that a rollout replaces next, if any may be replaced.
pub fn next_candidate<'a>(
    pods: &'a [PodRolloutState],
    target: &RolloutTarget<'_>,
    max_unavailable_per_cell: u8,
) -> (r: Option<&'a PodRolloutState>)
    ensures
        match candidate(pods@, *target, max_unavailable_per_cell as nat, pods@.len() as int) {
            Some(i) => r == Some(&pods@[i]),
            None => r is None,
        },
{
    let budget: usize = max_unavailable_per_cell as usize;
    let mut best: Option<usize> = None;
    let mut i: usize = 0;
    while i < pods.len()
        invariant
            i <= pods@.len(),
            budget == max_unavailable_per_cell,
            match best {
                Some(b) => b < i && candidate(pods@, *target, budget as nat, i as int) == Some(
                    b as int,
                ),
                None => candidate(pods@, *target, budget as nat, i as int) is None,
            },
        decreases pods@.len() - i,
    {
        let pod = &pods[i];
        if outdated(pod, target) {
            let down: usize = count_unavailable(pods, pod.cell_id);
            if down < budget || (!pod.ready && down <= budget) {
                match best {
                    None => {
                        best = Some(i);
                    },
                    Some(b) => {
                        let other = &pods[b];
                        if pod.cell_id < other.cell_id || (pod.cell_id == other.cell_id
                            && pod.node_id < other.node_id) {
                            best = Some(i);
                        }
                    },
                }
            }
        }
        i += 1;
    }
    match best {
        Some(b) => Some(&pods[b]),
        None => None,
    }
}

/// Whether a rollout is done: there are pods, one for each certificate
/// revision, each Ready and at the target.
pub open spec fn is_complete(pods: Seq<PodRolloutState>, target: RolloutTarget<'_>) -> bool {
    &&& pods.len() > 0
    &&& pods.len() == target.tls_revisions@.len()
    &&& forall|i: int|
        0 <= i < pods.len() ==> (#[trigger] pods[i]).ready && matches_target(pods[i], target)
}

/// Whether a rollout is done.
pub fn complete(pods: &[PodRolloutState], target: &RolloutTarget<'_>) -> (r: bool)
    ensures
        r == is_complete(pods@, *target),
{
    if pods.len() == 0 || pods.len() != target.tls_revisions.len() {
        return false;
    }
    let mut i: usize = 0;
    while i < pods.len()
        invariant
            i <= pods@.len(),
            forall|j: int|
                0 <= j < i ==> (#[trigger] pods@[j]).ready && matches_target(pods@[j], *target),
        decreases pods@.len() - i,
    {
        if !pods[i].ready || !pod_matches(&pods[i], target) {
            return false;
        }
        i += 1;
    }
    true
}

proof fn lemma_candidate(
    pods: Seq<PodRolloutState>,
    target: RolloutTarget<'_>,
    budget: nat,
    n: int,
)
    requires
        0 <= n <= pods.len(),
    ensures
        match candidate(pods, target, budget, n) {
            Some(b) => {
                &&& 0 <= b < n
                &&& may_replace(pods, pods[b], target, budget)
                &&& forall|i: int|
                    0 <= i < n && may_replace(pods, #[trigger] pods[i], target, budget)
                        ==> !comes_first(pods[i], pods[b])
            },
            None => forall|i: int|
                0 <= i < n ==> !may_replace(pods, #[trigger] pods[i], target, budget),
        },
    decreases n,
{
    if n > 0 {
        lemma_candidate(pods, target, budget, n - 1);
    }
}

/// A rollout takes a Ready pod only from a cell that has disruption budget left,
/// so that the cell never has more pods down than the budget allows.
pub proof fn law_rollout_respects_the_cell_budget(
    pods: Seq<PodRolloutState>,
    target: RolloutTarget<'_>,
    budget: nat,
)
    ensures
        candidate(pods, target, budget, pods.len() as int) matches Some(b) ==> {
            &&& 0 <= b < pods.len()
            &&& is_outdated(pods[b], target)
            &&& pods[b].ready ==> unavailable(pods, pods[b].cell_id) + 1 <= budget
            &&& !pods[b].ready ==> unavailable(pods, pods[b].cell_id) <= budget
        },
{
    lemma_candidate(pods, target, budget, pods.len() as int);
}

/// The candidate stands first, by cell and node, among all pods that may be
/// replaced; without one no pod may be.
pub proof fn law_candidate_comes_first(
    pods: Seq<PodRolloutState>,
    target: RolloutTarget<'_>,
    budget: nat,
    i: int,
)
    requires
        0 <= i < pods.len(),
        may_replace(pods, pods[i], target, budget),
    ensures
        candidate(pods, target, budget, pods.len() as int) matches Some(b) && !comes_first(
            pods[i],
            pods[b],
        ),
{
    lemma_candidate(pods, target, budget, pods.len() as int);
}

/// When a rollout is done there is no candidate left.
pub proof fn law_complete_rollout_has_no_candidate(
    pods: Seq<PodRolloutState>,
    target: RolloutTarget<'_>,
    budget: nat,
)
    requires
        is_complete(pods, target),
    ensures
        candidate(pods, target, budget, pods.len() as int) is None,
{
    lemma_candidate(pods, target, budget, pods.len() as int);
}

/// A pod is as it should be exactly where its image, its certificate, its configuration, its
/// node and its revision are those that are wanted; it is outdated where one of them is not,
/// as far as something is wanted for it.
pub proof fn law_pods_match_in_every_respect(pod: PodRolloutState, target: RolloutTarget<'_>)
    ensures
        ({
            let n = pod.node_id;
            let tls = target.tls_revisions@;
            let config = target.config_revisions@;
            let nodes = target.target_nodes@;
            &&& matches_target(pod, target) <==> {
                &&& pod.image@ == target.image@
                &&& tls.contains_key(n) && tls[n] == pod.tls_revision
                &&& config.contains_key(n) && config[n] == pod.config_revision
                &&& nodes.contains_key(n) && nodes[n]@ == pod.target_node@
                &&& target.rollout_revision == pod.rollout_revision
            }
            &&& tls.contains_key(n) && config.contains_key(n) && nodes.contains_key(n) ==> (
            is_outdated(pod, target) <==> !matches_target(pod, target))
            &&& matches_target(pod, target) ==> !is_outdated(pod, target)
            &&& pod.image@ != target.image@ || pod.rollout_revision != target.rollout_revision
                ==> is_outdated(pod, target)
        }),
{
}

proof fn lemma_unavailable(pods: Seq<PodRolloutState>, cell: u64)
    ensures
        unavailable(pods, cell) == pods.filter(
            |p: PodRolloutState| !p.ready && p.cell_id == cell,
        ).len(),
    decreases pods.len(),
{
    reveal(Seq::filter);
    if pods.len() > 0 {
        lemma_unavailable(pods.drop_last(), cell);
    }
}

/// A pod is replaced next exactly where one may be: it is outdated, and with it not more pods of
/// its cell are down than may be; the pod of the lowest cell and number comes first.
pub proof fn law_candidates_keep_their_cell_alive(
    pods: Seq<PodRolloutState>,
    target: RolloutTarget<'_>,
    budget: nat,
    i: int,
)
    requires
        0 <= i < pods.len(),
    ensures
        ({
            let down = pods.filter(
                |p: PodRolloutState| !p.ready && p.cell_id == pods[i].cell_id,
            ).len();
            let free = is_outdated(pods[i], target) && (if pods[i].ready {
                down < budget
            } else {
                down <= budget
            });
            &&& free ==> candidate(pods, target, budget, pods.len() as int) is Some
            &&& candidate(pods, target, budget, pods.len() as int) == Some(i) ==> free
            &&& free && candidate(pods, target, budget, pods.len() as int) is Some ==> ({
                let b = pods[candidate(pods, target, budget, pods.len() as int)->0];
                b.cell_id < pods[i].cell_id || (b.cell_id == pods[i].cell_id && b.node_id
                    <= pods[i].node_id)
            })
        }),
{
    lemma_unavailable(pods, pods[i].cell_id);
    if may_replace(pods, pods[i], target, budget) {
        law_candidate_comes_first(pods, target, budget, i);
    }
    law_rollout_respects_the_cell_budget(pods, target, budget);
}

/// A rollout is complete exactly where there is a pod for each broker that is wanted and each is
/// ready and as it should be.
pub proof fn law_complete_rollouts_have_every_pod(
    pods: Seq<PodRolloutState>,
    target: RolloutTarget<'_>,
    i: int,
)
    requires
        0 <= i < pods.len(),
        is_complete(pods, target),
    ensures
        pods.len() == target.tls_revisions@.len(),
        pods[i].ready,
        pods[i].image@ == target.image@,
        target.tls_revisions@.contains_key(pods[i].node_id)
            && target.tls_revisions@[pods[i].node_id] == pods[i].tls_revision,
        target.config_revisions@.contains_key(pods[i].node_id)
            && target.config_revisions@[pods[i].node_id] == pods[i].config_revision,
        target.target_nodes@.contains_key(pods[i].node_id)
            && target.target_nodes@[pods[i].node_id]@ == pods[i].target_node@,
        target.rollout_revision == pods[i].rollout_revision,
{
}

} // verus!
