//! What is ready of a cluster.
use crate::operator::kube::{self, Pod, PodCondition, StatefulSet};
use crate::string_map;
use crate::text;
use crate::text_list;
use vstd::prelude::*;
use vstd::string::*;

verus! {

/// The health of the brokers.
#[derive(Debug)]
pub struct BrokerHealth {
    pub ready: i32,
    pub unavailable: Vec<String>,
}

/// Whether a pod serves: it is not being deleted and reports that it is ready.
pub open spec fn is_ready(pod: Pod) -> bool {
    !pod.deleting && kube::reports_ready(pod.conditions@)
}

/// Whether a pod runs the revision that its controller rolls out, and is ready.
pub open spec fn is_current_and_ready(pod: Pod, revision: Seq<char>) -> bool {
    is_ready(pod) && string_map::lookup(pod.labels@, "controller-revision-hash"@) == Some(revision)
}

/// Whether a pod was configured with a revision, and is ready.
pub open spec fn is_ready_on_revision(pod: Pod, revision: Seq<char>) -> bool {
    is_ready(pod) && string_map::lookup(pod.annotations@, "rustqueue.io/revision"@) == Some(revision)
}

/// Whether a pod serves.
pub fn pod_ready(pod: &Pod) -> (r: bool)
    ensures
        r == is_ready(*pod),
{
    !pod.deleting && kube::conditions_ready(&pod.conditions)
}

/// Whether a pod runs the revision that its controller rolls out, and is ready.
pub fn pod_current_and_ready(pod: &Pod, revision: &str) -> (r: bool)
    ensures
        r == is_current_and_ready(*pod, revision@),
{
    pod_ready(pod) && pod.labels.holds("controller-revision-hash", revision)
}

/// Whether a pod was configured with a revision, and is ready.
pub fn pod_ready_on_revision(pod: &Pod, revision: &str) -> (r: bool)
    ensures
        r == is_ready_on_revision(*pod, revision@),
{
    pod_ready(pod) && pod.annotations.holds("rustqueue.io/revision", revision)
}

/// The revision that a stateful set rolls out, once it has seen its latest
/// generation.
pub open spec fn update_revision_of(set: StatefulSet) -> Option<Seq<char>> {
    match set.generation {
        Some(generation) => {
            let observed = match set.observed_generation {
                Some(n) => n,
                None => 0,
            };
            if observed >= generation {
                text::opt_text(set.update_revision)
            } else {
                None
            }
        },
        None => None,
    }
}

/// The revision that a stateful set rolls out.
pub fn observed_update_revision(set: &StatefulSet) -> (r: Option<String>)
    ensures
        text::opt_text(r) == update_revision_of(*set),
{
    match set.generation {
        Some(generation) => {
            let observed: i64 = match set.observed_generation {
                Some(n) => n,
                None => 0,
            };
            if observed >= generation {
                text::clone_opt(&set.update_revision)
            } else {
                None
            }
        },
        None => None,
    }
}

/// How many pods are ready.
pub open spec fn ready_count(pods: Seq<Pod>) -> nat
    decreases pods.len(),
{
    if pods.len() == 0 {
        0
    } else {
        ready_count(pods.drop_last()) + if is_ready(pods.last()) {
            1nat
        } else {
            0
        }
    }
}

/// How many pods are ready on the revision that their controller rolls out.
pub open spec fn current_count(pods: Seq<Pod>, revision: Seq<char>) -> nat
    decreases pods.len(),
{
    if pods.len() == 0 {
        0
    } else {
        current_count(pods.drop_last(), revision) + if is_current_and_ready(pods.last(), revision) {
            1nat
        } else {
            0
        }
    }
}

/// How many pods are ready with a configured revision.
pub open spec fn configured_count(pods: Seq<Pod>, revision: Seq<char>) -> nat
    decreases pods.len(),
{
    if pods.len() == 0 {
        0
    } else {
        configured_count(pods.drop_last(), revision) + if is_ready_on_revision(
            pods.last(),
            revision,
        ) {
            1nat
        } else {
            0
        }
    }
}

/// How many pods of a component are ready on the revision that its stateful set
/// rolls out.
pub fn ready_component(set: &StatefulSet, pods: &Vec<Pod>) -> (r: i32)
    ensures
        r == match update_revision_of(*set) {
            Some(revision) => current_count(pods@, revision) as i32,
            None => 0,
        },
{
    match observed_update_revision(set) {
        None => 0,
        Some(revision) => {
            let mut count: usize = 0;
            let mut i: usize = 0;
            assert(pods@.take(0) =~= Seq::<Pod>::empty());
            while i < pods.len()
                invariant
                    i <= pods@.len(),
                    count <= i,
                    count == current_count(pods@.take(i as int), revision@),
                decreases pods@.len() - i,
            {
                assert(pods@.take(i + 1).drop_last() =~= pods@.take(i as int));
                assert(pods@.take(i + 1).last() == pods@[i as int]);
                if pod_current_and_ready(&pods[i], revision.as_str()) {
                    count += 1;
                }
                i += 1;
            }
            assert(pods@.take(pods@.len() as int) =~= pods@);
            count as i32
        },
    }
}

/// How many pods are ready with a configured revision.
pub fn ready_component_revision(pods: &Vec<Pod>, revision: &str) -> (r: i32)
    ensures
        r == configured_count(pods@, revision@) as i32,
{
    let mut count: usize = 0;
    let mut i: usize = 0;
    assert(pods@.take(0) =~= Seq::<Pod>::empty());
    while i < pods.len()
        invariant
            i <= pods@.len(),
            count <= i,
            count == configured_count(pods@.take(i as int), revision@),
        decreases pods@.len() - i,
    {
        assert(pods@.take(i + 1).drop_last() =~= pods@.take(i as int));
        assert(pods@.take(i + 1).last() == pods@[i as int]);
        if pod_ready_on_revision(&pods[i], revision) {
            count += 1;
        }
        i += 1;
    }
    assert(pods@.take(pods@.len() as int) =~= pods@);
    count as i32
}

/// How many pods are ready.
pub fn ready_pods(pods: &Vec<Pod>) -> (r: i32)
    ensures
        r == ready_count(pods@) as i32,
{
    let mut count: usize = 0;
    let mut i: usize = 0;
    assert(pods@.take(0) =~= Seq::<Pod>::empty());
    while i < pods.len()
        invariant
            i <= pods@.len(),
            count <= i,
            count == ready_count(pods@.take(i as int)),
        decreases pods@.len() - i,
    {
        assert(pods@.take(i + 1).drop_last() =~= pods@.take(i as int));
        assert(pods@.take(i + 1).last() == pods@[i as int]);
        if pod_ready(&pods[i]) {
            count += 1;
        }
        i += 1;
    }
    assert(pods@.take(pods@.len() as int) =~= pods@);
    count as i32
}

/// The labels that select the pods of a component.
pub open spec fn component_selector(name: Seq<char>, component: Seq<char>) -> Seq<char> {
    "app.kubernetes.io/instance="@ + name + ",app.kubernetes.io/component="@ + component
}

/// The labels that select the pods of a component.
pub fn selector_of(name: &str, component: &str) -> (r: String)
    ensures
        r@ == component_selector(name@, component@),
{
    let mut r = "app.kubernetes.io/instance=".to_owned();
    r.append(name);
    r.append(",app.kubernetes.io/component=");
    r.append(component);
    r
}

/// The labels that select the discovery pods of a mode.
pub open spec fn discovery_selector(name: Seq<char>, kodo: bool) -> Seq<char> {
    component_selector(name, "discovery"@) + ",rustqueue.io/discovery-publisher-mode="@ + if kodo {
        "kodo"@
    } else {
        "direct"@
    }
}

/// The labels that select the discovery pods of a mode.
pub fn discovery_selector_of(name: &str, kodo: bool) -> (r: String)
    ensures
        r@ == discovery_selector(name@, kodo),
{
    let mut r = selector_of(name, "discovery");
    r.append(",rustqueue.io/discovery-publisher-mode=");
    r.append(
        if kodo {
            "kodo"
        } else {
            "direct"
        },
    );
    r
}

/// A text, or another where there is none.
pub open spec fn text_or(o: Option<String>, other: Seq<char>) -> Seq<char> {
    match o {
        Some(s) => s@,
        None => other,
    }
}

fn or_text(o: &Option<String>, other: &str) -> (r: String)
    ensures
        r@ == text_or(*o, other@),
{
    match o {
        Some(s) => s.clone(),
        None => other.to_owned(),
    }
}

/// The first condition that is not true, from `k` on.
pub open spec fn first_untrue(conditions: Seq<PodCondition>, k: int) -> Option<int>
    decreases conditions.len() - k,
{
    if k < 0 || k >= conditions.len() {
        None
    } else if conditions[k].status@ != "True"@ {
        Some(k)
    } else {
        first_untrue(conditions, k + 1)
    }
}

/// Why a pod does not serve: what its first container waits for, else its first
/// condition that is not true.
pub open spec fn unavailable_reason(pod: Pod) -> Seq<char> {
    if pod.container_statuses@.len() > 0 && pod.container_statuses@[0].waiting is Some {
        let waiting = pod.container_statuses@[0].waiting->0;
        text::trimmed(
            text_or(waiting.reason, "ContainerWaiting"@) + " "@ + text_or(waiting.message, ""@),
        )
    } else {
        match first_untrue(pod.conditions@, 0) {
            Some(i) => {
                let c = pod.conditions@[i];
                text::trimmed(
                    c.type_@ + " "@ + text_or(c.reason, ""@) + " "@ + text_or(c.message, ""@),
                )
            },
            None => "Pod has not reported Ready"@,
        }
    }
}

/// Why a pod does not serve.
pub fn pod_unavailable_reason(pod: &Pod) -> (r: String)
    ensures
        r@ == unavailable_reason(*pod),
{
    if pod.container_statuses.len() > 0 {
        if let Some(waiting) = &pod.container_statuses[0].waiting {
            let mut s = or_text(&waiting.reason, "ContainerWaiting");
            s.append(" ");
            s.append(or_text(&waiting.message, "").as_str());
            return text::trim(s.as_str());
        }
    }
    let mut i: usize = 0;
    while i < pod.conditions.len()
        invariant
            i <= pod.conditions@.len(),
            first_untrue(pod.conditions@, 0) == first_untrue(pod.conditions@, i as int),
            !(pod.container_statuses@.len() > 0 && pod.container_statuses@[0].waiting is Some),
        decreases pod.conditions@.len() - i,
    {
        let c = &pod.conditions[i];
        if !text::str_eq(c.status.as_str(), "True") {
            let mut s = c.type_.clone();
            s.append(" ");
            s.append(or_text(&c.reason, "").as_str());
            s.append(" ");
            s.append(or_text(&c.message, "").as_str());
            return text::trim(s.as_str());
        }
        i += 1;
    }
    "Pod has not reported Ready".to_owned()
}

/// A pod that does not serve, with the reason.
pub open spec fn unavailable_line(pod: Pod) -> Seq<char> {
    (match pod.given_name {
        Some(name) => name@,
        None => "unknown"@,
    }) + ": "@ + unavailable_reason(pod)
}

/// The pods that do not serve, with their reasons.
pub open spec fn unavailable_lines(pods: Seq<Pod>) -> Seq<Seq<char>>
    decreases pods.len(),
{
    if pods.len() == 0 {
        Seq::empty()
    } else if is_ready(pods.last()) {
        unavailable_lines(pods.drop_last())
    } else {
        unavailable_lines(pods.drop_last()).push(unavailable_line(pods.last()))
    }
}

/// How many brokers are ready, and which are not and why, in order.
pub fn broker_health(pods: &Vec<Pod>) -> (r: BrokerHealth)
    requires
        pods@.len() <= i32::MAX,
    ensures
        r.ready == ready_count(pods@),
        text::texts(r.unavailable@) == text_list::sorted_texts(unavailable_lines(pods@)),
{
    let mut ready: i32 = 0;
    let mut lines: Vec<String> = Vec::new();
    let mut i: usize = 0;
    assert(pods@.take(0) =~= Seq::<Pod>::empty());
    assert(text::texts(lines@) =~= unavailable_lines(pods@.take(0)));
    while i < pods.len()
        invariant
            i <= pods@.len() <= i32::MAX,
            0 <= ready <= i,
            ready == ready_count(pods@.take(i as int)),
            text::texts(lines@) == unavailable_lines(pods@.take(i as int)),
        decreases pods@.len() - i,
    {
        assert(pods@.take(i + 1).drop_last() =~= pods@.take(i as int));
        assert(pods@.take(i + 1).last() == pods@[i as int]);
        if pod_ready(&pods[i]) {
            ready += 1;
        } else {
            let mut line = or_text(&pods[i].given_name, "unknown");
            line.append(": ");
            line.append(pod_unavailable_reason(&pods[i]).as_str());
            let ghost before = lines@;
            lines.push(line);
            assert(text::texts(lines@) =~= text::texts(before).push(line@));
        }
        i += 1;
    }
    assert(pods@.take(pods@.len() as int) =~= pods@);
    BrokerHealth { ready, unavailable: text_list::sort_texts(&lines) }
}

/// Every broker is either counted as ready or listed as unavailable.
pub proof fn law_every_broker_is_accounted_for(pods: Seq<Pod>)
    ensures
        ready_count(pods) + unavailable_lines(pods).len() == pods.len(),
    decreases pods.len(),
{
    if pods.len() > 0 {
        law_every_broker_is_accounted_for(pods.drop_last());
    }
}

/// A pod is ready exactly where it reports so and is not on its way out.
pub proof fn law_pods_on_their_way_out_are_not_ready(pod: Pod, revision: Seq<char>)
    ensures
        is_ready(pod) <==> !pod.deleting && kube::reports_ready(pod.conditions@),
        is_current_and_ready(pod, revision) <==> !pod.deleting && kube::reports_ready(
            pod.conditions@,
        ) && string_map::lookup(pod.labels@, "controller-revision-hash"@) == Some(revision),
        is_ready_on_revision(pod, revision) <==> !pod.deleting && kube::reports_ready(
            pod.conditions@,
        ) && string_map::lookup(pod.annotations@, "rustqueue.io/revision"@) == Some(revision),
{
}

proof fn lemma_counts(pods: Seq<Pod>, revision: Seq<char>)
    ensures
        ready_count(pods) == pods.filter(|p: Pod| is_ready(p)).len(),
        current_count(pods, revision) == pods.filter(
            |p: Pod| is_current_and_ready(p, revision),
        ).len(),
        configured_count(pods, revision) == pods.filter(
            |p: Pod| is_ready_on_revision(p, revision),
        ).len(),
    decreases pods.len(),
{
    reveal(Seq::filter);
    if pods.len() > 0 {
        lemma_counts(pods.drop_last(), revision);
    }
}

/// Pods are counted one by one: as ready, as ready at the revision of the set, and as ready with
/// a configuration.
pub proof fn law_pods_are_counted_one_by_one(pods: Seq<Pod>, revision: Seq<char>)
    ensures
        ready_count(pods) == pods.filter(|p: Pod| is_ready(p)).len(),
        current_count(pods, revision) == pods.filter(
            |p: Pod| is_current_and_ready(p, revision),
        ).len(),
        configured_count(pods, revision) == pods.filter(
            |p: Pod| is_ready_on_revision(p, revision),
        ).len(),
        current_count(pods, revision) <= ready_count(pods) <= pods.len(),
    decreases pods.len(),
{
    lemma_counts(pods, revision);
    if pods.len() > 0 {
        law_pods_are_counted_one_by_one(pods.drop_last(), revision);
    }
}

/// The revision of a set counts only where the set has been looked at since it was last changed.
pub proof fn law_stale_revisions_do_not_count(set: StatefulSet)
    ensures
        update_revision_of(set) is Some ==> set.generation is Some && set.update_revision is Some
            && update_revision_of(set)->0 == set.update_revision->0@,
        set.generation is Some && set.observed_generation is Some && set.observed_generation->0
            < set.generation->0 ==> update_revision_of(set) is None,
        set.generation is Some && set.observed_generation is Some && set.observed_generation->0
            >= set.generation->0 ==> update_revision_of(set) == text::opt_text(set.update_revision),
        set.generation is Some && set.generation->0 > 0 && set.observed_generation is None
            ==> update_revision_of(set) is None,
{
}

/// Each pod that is not ready is told, by its name and with a reason, and no other is.
pub proof fn law_unavailable_pods_are_told(pods: Seq<Pod>, line: Seq<char>)
    ensures
        unavailable_lines(pods).contains(line) <==> exists|i: int|
            0 <= i < pods.len() && !is_ready(#[trigger] pods[i]) && line == unavailable_line(
                pods[i],
            ),
    decreases pods.len(),
{
    let r = unavailable_lines(pods);
    if pods.len() > 0 {
        let d = pods.drop_last();
        let q = unavailable_lines(d);
        law_unavailable_pods_are_told(d, line);
        if q.contains(line) {
            let i = choose|i: int|
                0 <= i < d.len() && !is_ready(#[trigger] d[i]) && line == unavailable_line(d[i]);
            assert(pods[i] == d[i]);
            let w = q.index_of(line);
            assert(r[w] == line);
        }
        if r.contains(line) {
            let w = r.index_of(line);
            if w < q.len() {
                assert(q[w] == line);
            } else {
                assert(!is_ready(pods[pods.len() - 1]));
            }
        }
        if exists|i: int|
            0 <= i < pods.len() && !is_ready(#[trigger] pods[i]) && line == unavailable_line(
                pods[i],
            ) {
            let i = choose|i: int|
                0 <= i < pods.len() && !is_ready(#[trigger] pods[i]) && line == unavailable_line(
                    pods[i],
                );
            if i < d.len() {
                assert(d[i] == pods[i]);
            } else {
                assert(r[r.len() - 1] == line);
            }
        }
    }
}

/// A container that waits is the reason before any condition; of the conditions it is the first
/// that is not true.
pub proof fn law_reasons_are_the_first_that_apply(pod: Pod, i: int)
    requires
        pod.container_statuses@.len() == 0 || pod.container_statuses@[0].waiting is None,
        0 <= i < pod.conditions@.len(),
        pod.conditions@[i].status@ != "True"@,
        forall|j: int| 0 <= j < i ==> (#[trigger] pod.conditions@[j]).status@ == "True"@,
        pod.conditions@[i].reason is Some,
        pod.conditions@[i].message is Some,
    ensures
        unavailable_reason(pod) == text::trimmed(
            pod.conditions@[i].type_@ + " "@ + pod.conditions@[i].reason->0@ + " "@
                + pod.conditions@[i].message->0@,
        ),
{
    lemma_first_untrue(pod.conditions@, 0, i);
}

proof fn lemma_first_untrue(v: Seq<PodCondition>, k: int, i: int)
    requires
        0 <= k <= i < v.len(),
        v[i].status@ != "True"@,
        forall|j: int| k <= j < i ==> (#[trigger] v[j]).status@ == "True"@,
    ensures
        first_untrue(v, k) == Some(i),
    decreases i - k,
{
    if k < i {
        assert(v[k].status@ == "True"@);
        lemma_first_untrue(v, k + 1, i);
    }
}

} // verus!
