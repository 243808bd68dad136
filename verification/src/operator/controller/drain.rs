//! Draining brokers: who may be disrupted, and when.
use crate::operator::controller::nodes;
use crate::operator::kube::{self, Pod};
use crate::string_map;
use crate::text;
use crate::text_list;
use vstd::prelude::*;
use vstd::string::*;

verus! {

/// What a broker reports of its drain.
#[derive(Clone, Copy, Debug)]
pub struct DrainStatus {
    pub draining: bool,
    pub drained: bool,
    pub quiesced: Option<bool>,
    pub delivery_frozen: Option<bool>,
    pub empty: Option<bool>,
}

/// What a drain is to reach.
#[derive(Clone, Copy, Debug, PartialEq, Eq, Structural)]
pub enum DrainGoal {
    Quiesced,
    Empty,
}

impl DrainStatus {
    /// Whether the goal is reached. A broker that does not report whether
    /// deliveries are frozen is quiet only once it is drained.
    pub open spec fn reached(self, goal: DrainGoal) -> bool {
        match goal {
            DrainGoal::Quiesced => if self.delivery_frozen == Some(false) {
                false
            } else if self.delivery_frozen == Some(true) && self.quiesced is Some {
                self.quiesced->0
            } else {
                self.drained
            },
            DrainGoal::Empty => match self.empty {
                Some(empty) => empty,
                None => self.drained,
            },
        }
    }

    /// Whether the goal is reached.
    pub fn satisfies(&self, goal: DrainGoal) -> (r: bool)
        ensures
            r == self.reached(goal),
    {
        match goal {
            DrainGoal::Quiesced => match (self.delivery_frozen, self.quiesced) {
                (Some(true), Some(quiesced)) => quiesced,
                (Some(false), _) => false,
                _ => self.drained,
            },
            DrainGoal::Empty => match self.empty {
                Some(empty) => empty,
                None => self.drained,
            },
        }
    }
}

/// How far an operation on a broker has come.
#[derive(Debug)]
pub struct Progress {
    pub target: Option<String>,
    pub phase: String,
    pub message: String,
}

/// `Progress` as values.
pub struct ProgressView {
    pub target: Option<Seq<char>>,
    pub phase: Seq<char>,
    pub message: Seq<char>,
}

impl View for Progress {
    type V = ProgressView;

    open spec fn view(&self) -> ProgressView {
        ProgressView {
            target: text::opt_text(self.target),
            phase: self.phase@,
            message: self.message@,
        }
    }
}

fn progress(target: Option<String>, phase: &str, message: String) -> (r: Progress)
    ensures
        r@ == (ProgressView {
            target: text::opt_text(target),
            phase: phase@,
            message: message@,
        }),
{
    Progress { target, phase: phase.to_owned(), message }
}

/// How a rollout is to go.
pub struct RolloutOptions<'a> {
    pub replicas: i32,
    pub desired_revision: &'a str,
    pub paused: bool,
    pub require_canary_approval: bool,
    pub approved_revision: Option<&'a str>,
}

/// What to do next in a rollout.
#[derive(Debug)]
pub enum Decision {
    Completed,
    Wait(String),
    Paused,
    AwaitingApproval,
    Blocked(String),
    Resume(Vec<String>, String),
    Replace(String),
}

/// `Decision` as values.
#[allow(inconsistent_fields)]
pub enum DecisionView {
    Completed,
    Wait(Seq<char>),
    Paused,
    AwaitingApproval,
    Blocked(Seq<char>),
    Resume(Seq<Seq<char>>, Seq<char>),
    Replace(Seq<char>),
}

impl View for Decision {
    type V = DecisionView;

    open spec fn view(&self) -> DecisionView {
        match *self {
            Decision::Completed => DecisionView::Completed,
            Decision::Wait(m) => DecisionView::Wait(m@),
            Decision::Paused => DecisionView::Paused,
            Decision::AwaitingApproval => DecisionView::AwaitingApproval,
            Decision::Blocked(m) => DecisionView::Blocked(m@),
            Decision::Resume(names, m) => DecisionView::Resume(text::texts(names@), m@),
            Decision::Replace(name) => DecisionView::Replace(name@),
        }
    }
}

/// The ordinal at the end of a pod's name.
pub open spec fn ordinal_of(name: Seq<char>) -> Option<nat> {
    match text::after_last(name, '-') {
        Some(t) => text::parsed_unsigned(t, 10, u32::MAX as nat),
        None => None,
    }
}

/// The ordinal at the end of a pod's name.
pub fn pod_ordinal(name: &str) -> (r: Option<u32>)
    ensures
        match r {
            Some(n) => ordinal_of(name@) == Some(n as nat),
            None => ordinal_of(name@) is None,
        },
{
    let v = text::chars_of(name);
    match text::tail_after_last(v.as_slice(), '-') {
        Some(i) => {
            let tail = text::text_of(v.as_slice(), i, v.len());
            assert(tail@ =~= name@.skip(i as int));
            match text::parse_decimal(tail.as_str(), u32::MAX as u64) {
                Some(n) => Some(n as u32),
                None => None,
            }
        },
        None => None,
    }
}

/// The revision that a pod was configured with.
pub open spec fn revision_of(pod: Pod) -> Option<Seq<char>> {
    string_map::lookup(pod.annotations@, "rustqueue.io/revision"@)
}

/// The revision that a pod was configured with.
pub fn pod_revision(pod: &Pod) -> (r: Option<String>)
    ensures
        text::opt_text(r) == revision_of(*pod),
{
    pod.annotations.get("rustqueue.io/revision")
}

fn has_revision(pod: &Pod, revision: &str) -> (r: bool)
    ensures
        r == (revision_of(*pod) == Some(revision@)),
{
    pod.annotations.holds("rustqueue.io/revision", revision)
}

/// The image that a pod runs the broker with.
pub fn pod_image(pod: &Pod) -> (r: Option<String>)
    ensures
        text::opt_text(r) == kube::image_of(pod.containers@, "broker"@),
{
    kube::container_image(&pod.containers, "broker")
}

/// Whether a pod with the ordinal is among the pods.
pub open spec fn has_ordinal(pods: Seq<Pod>, ordinal: int) -> bool {
    exists|i: int| 0 <= i < pods.len() && ordinal_of((#[trigger] pods[i]).name@) == Some(
        ordinal as nat,
    )
}

/// Whether the pods are exactly those with the ordinals below the number of
/// replicas: as many pods as replicas, and each ordinal among them.
pub open spec fn is_exact_set(pods: Seq<Pod>, replicas: int) -> bool {
    &&& replicas > 0
    &&& pods.len() == replicas
    &&& forall|o: int| 0 <= o < replicas ==> #[trigger] has_ordinal(pods, o)
}

fn find_ordinal(pods: &Vec<Pod>, ordinal: u32) -> (r: bool)
    ensures
        r == has_ordinal(pods@, ordinal as int),
{
    let mut i: usize = 0;
    while i < pods.len()
        invariant
            i <= pods@.len(),
            forall|j: int|
                0 <= j < i ==> ordinal_of((#[trigger] pods@[j]).name@) != Some(ordinal as nat),
        decreases pods@.len() - i,
    {
        if let Some(n) = pod_ordinal(pods[i].name.as_str()) {
            if n == ordinal {
                assert(ordinal_of(pods@[i as int].name@) == Some(ordinal as nat));
                return true;
            }
        }
        i += 1;
    }
    false
}

/// Whether the pods are exactly those with the ordinals below the number of
/// replicas.
pub fn exact_broker_pod_set(pods: &Vec<Pod>, replicas: i32) -> (r: bool)
    ensures
        r == is_exact_set(pods@, replicas as int),
{
    if replicas <= 0 || pods.len() != replicas as usize {
        return false;
    }
    let mut o: u32 = 0;
    while o < replicas as u32
        invariant
            replicas > 0,
            o <= replicas,
            forall|p: int| 0 <= p < o ==> #[trigger] has_ordinal(pods@, p),
        decreases replicas - o,
    {
        if !find_ordinal(pods, o) {
            assert(!has_ordinal(pods@, o as int));
            return false;
        }
        o += 1;
    }
    true
}

spec fn holder(pods: Seq<Pod>, o: int) -> int {
    choose|i: int| 0 <= i < pods.len() && ordinal_of((#[trigger] pods[i]).name@) == Some(o as nat)
}

spec fn held(pods: Seq<Pod>, n: int, i: int) -> bool {
    exists|o: int| 0 <= o < n && #[trigger] holder(pods, o) == i
}

proof fn lemma_holders(pods: Seq<Pod>, n: int)
    requires
        0 <= n,
        forall|o: int| 0 <= o < n ==> #[trigger] has_ordinal(pods, o),
    ensures
        ({
            let s = Set::new(|i: int| 0 <= i < pods.len() && exists|o: int|
                0 <= o < n && #[trigger] holder(pods, o) == i);
            s.finite() && s.len() == n
        }),
    decreases n,
{
    let s = Set::new(|i: int| 0 <= i < pods.len() && exists|o: int|
        0 <= o < n && #[trigger] holder(pods, o) == i);
    if n == 0 {
        assert(s =~= Set::empty());
    } else {
        lemma_holders(pods, n - 1);
        let d = Set::new(|i: int| 0 <= i < pods.len() && exists|o: int|
            0 <= o < n - 1 && #[trigger] holder(pods, o) == i);
        let last = holder(pods, n - 1);
        assert(has_ordinal(pods, n - 1));
        assert(ordinal_of(pods[last].name@) == Some((n - 1) as nat));
        assert(!d.contains(last)) by {
            if d.contains(last) {
                let o = choose|o: int| 0 <= o < n - 1 && #[trigger] holder(pods, o) == last;
                assert(has_ordinal(pods, o));
                assert(ordinal_of(pods[holder(pods, o)].name@) == Some(o as nat));
            }
        }
        assert forall|i: int| s.contains(i) implies d.insert(last).contains(i) by {
            let o = choose|o: int| 0 <= o < n && #[trigger] holder(pods, o) == i;
            if o < n - 1 {
                assert(d.contains(i));
            }
        }
        assert forall|i: int| d.insert(last).contains(i) implies s.contains(i) by {
            if i != last {
                let o = choose|o: int| 0 <= o < n - 1 && #[trigger] holder(pods, o) == i;
                assert(0 <= o < n && holder(pods, o) == i);
            } else {
                assert(0 <= n - 1 < n && holder(pods, n - 1) == i);
            }
        }
        assert(s =~= d.insert(last));
    }
}

/// In an exact set every pod has an ordinal below the number of replicas, and no
/// two pods share one.
pub proof fn law_exact_set_has_distinct_ordinals(pods: Seq<Pod>, replicas: int)
    requires
        is_exact_set(pods, replicas),
    ensures
        forall|i: int|
            0 <= i < pods.len() ==> ordinal_of((#[trigger] pods[i]).name@) is Some && ordinal_of(
                pods[i].name@,
            )->0 < replicas,
        forall|i: int, j: int|
            0 <= i < j < pods.len() ==> ordinal_of((#[trigger] pods[i]).name@) != ordinal_of(
                (#[trigger] pods[j]).name@,
            ),
{
    let s = Set::new(|i: int| 0 <= i < pods.len() && exists|o: int|
        0 <= o < replicas && #[trigger] holder(pods, o) == i);
    let all = vstd::set_lib::set_int_range(0, pods.len() as int);
    lemma_holders(pods, replicas);
    vstd::set_lib::lemma_int_range(0, pods.len() as int);
    vstd::set_lib::lemma_subset_equality(s, all);
    assert forall|i: int| 0 <= i < pods.len() implies #[trigger] held(pods, replicas, i) by {
        assert(all.contains(i));
        assert(s.contains(i));
    }
    assert forall|i: int| 0 <= i < pods.len() implies ordinal_of((#[trigger] pods[i]).name@) is Some
        && ordinal_of(pods[i].name@)->0 < replicas by {
        assert(held(pods, replicas, i));
        let o = choose|o: int| 0 <= o < replicas && #[trigger] holder(pods, o) == i;
        assert(has_ordinal(pods, o));
    }
    assert forall|i: int, j: int| 0 <= i < j < pods.len() implies ordinal_of(
        (#[trigger] pods[i]).name@,
    ) != ordinal_of((#[trigger] pods[j]).name@) by {
        assert(held(pods, replicas, i) && held(pods, replicas, j));
        let a = choose|o: int| 0 <= o < replicas && #[trigger] holder(pods, o) == i;
        let b = choose|o: int| 0 <= o < replicas && #[trigger] holder(pods, o) == j;
        assert(has_ordinal(pods, a));
        assert(has_ordinal(pods, b));
    }
}

/// Whether the pods are the whole set of brokers, all of a revision and ready.
pub open spec fn is_set_current_and_ready(
    pods: Seq<Pod>,
    revision: Seq<char>,
    replicas: int,
) -> bool {
    &&& is_exact_set(pods, replicas)
    &&& forall|i: int|
        0 <= i < pods.len() ==> revision_of(#[trigger] pods[i]) == Some(revision)
            && nodes::is_ready(pods[i])
}

/// Whether the pods are the whole set of brokers, all of a revision and ready.
pub fn broker_set_current_and_ready(pods: &Vec<Pod>, desired_revision: &str, replicas: i32) -> (r:
    bool)
    ensures
        r == is_set_current_and_ready(pods@, desired_revision@, replicas as int),
{
    if !exact_broker_pod_set(pods, replicas) {
        return false;
    }
    let mut i: usize = 0;
    while i < pods.len()
        invariant
            i <= pods@.len(),
            is_exact_set(pods@, replicas as int),
            forall|j: int|
                0 <= j < i ==> revision_of(#[trigger] pods@[j]) == Some(desired_revision@)
                    && nodes::is_ready(pods@[j]),
        decreases pods@.len() - i,
    {
        if !has_revision(&pods[i], desired_revision) || !nodes::pod_ready(&pods[i]) {
            assert(!(revision_of(pods@[i as int]) == Some(desired_revision@) && nodes::is_ready(
                pods@[i as int],
            )));
            return false;
        }
        i += 1;
    }
    true
}

/// Whether a pod counts as one of the other brokers that are ready.
pub open spec fn is_ready_other(pod: Pod, target: Seq<char>) -> bool {
    pod.name@ != target && nodes::is_ready(pod)
}

/// Whether the ready pods apart from the target are exactly the brokers with
/// another ordinal than the target's.
pub open spec fn are_others_ready(pods: Seq<Pod>, target: Seq<char>, replicas: int) -> bool {
    &&& is_exact_set(pods, replicas)
    &&& ordinal_of(target) is Some
    &&& ordinal_of(target)->0 < replicas
    &&& forall|i: int|
        0 <= i < pods.len() ==> (is_ready_other(#[trigger] pods[i], target) <==> ordinal_of(
            pods[i].name@,
        ) != ordinal_of(target))
}

/// Whether every broker but the target is ready.
pub fn other_brokers_ready(pods: &Vec<Pod>, target: &str, replicas: i32) -> (r: bool)
    ensures
        r == are_others_ready(pods@, target@, replicas as int),
{
    if !exact_broker_pod_set(pods, replicas) {
        return false;
    }
    let ordinal: u32 = match pod_ordinal(target) {
        Some(n) => n,
        None => {
            return false;
        },
    };
    if ordinal >= replicas as u32 {
        return false;
    }
    let mut i: usize = 0;
    while i < pods.len()
        invariant
            i <= pods@.len(),
            is_exact_set(pods@, replicas as int),
            ordinal_of(target@) == Some(ordinal as nat),
            ordinal < replicas,
            forall|j: int|
                0 <= j < i ==> (is_ready_other(#[trigger] pods@[j], target@) <==> ordinal_of(
                    pods@[j].name@,
                ) != ordinal_of(target@)),
        decreases pods@.len() - i,
    {
        let counted = !text::str_eq(pods[i].name.as_str(), target) && nodes::pod_ready(&pods[i]);
        let other = match pod_ordinal(pods[i].name.as_str()) {
            Some(n) => n != ordinal,
            None => true,
        };
        if counted != other {
            assert(!(is_ready_other(pods@[i as int], target@) <==> ordinal_of(pods@[i as int].name@)
                != ordinal_of(target@)));
            return false;
        }
        i += 1;
    }
    true
}

/// Where every other broker is ready, every pod but the target is.
pub proof fn law_others_ready_means_every_other_pod_is_ready(
    pods: Seq<Pod>,
    target: Seq<char>,
    replicas: int,
    i: int,
)
    requires
        are_others_ready(pods, target, replicas),
        0 <= i < pods.len(),
        ordinal_of(pods[i].name@) != ordinal_of(target),
    ensures
        nodes::is_ready(pods[i]),
        pods[i].name@ != target,
{
    assert(is_ready_other(pods[i], target));
}

// Rollout.

/// Whether a pod has another revision.
pub open spec fn is_outdated(pod: Pod, revision: Seq<char>) -> bool {
    revision_of(pod) != Some(revision)
}

/// Whether a pod has another revision and is being drained.
pub open spec fn is_draining(pod: Pod, revision: Seq<char>, draining: Seq<Seq<char>>) -> bool {
    is_outdated(pod, revision) && !nodes::is_ready(pod) && draining.contains(pod.name@)
}

/// Whether a pod has another revision and is down for no known reason.
pub open spec fn is_stuck(pod: Pod, revision: Seq<char>, draining: Seq<Seq<char>>) -> bool {
    is_outdated(pod, revision) && !nodes::is_ready(pod) && !draining.contains(pod.name@)
}

/// The first pod of the revision that is not ready, from `k` on.
pub open spec fn first_unready(pods: Seq<Pod>, revision: Seq<char>, k: int) -> Option<int>
    decreases pods.len() - k,
{
    if k < 0 || k >= pods.len() {
        None
    } else if !is_outdated(pods[k], revision) && !nodes::is_ready(pods[k]) {
        Some(k)
    } else {
        first_unready(pods, revision, k + 1)
    }
}

/// The first pod that is down for no known reason, from `k` on.
pub open spec fn first_stuck(
    pods: Seq<Pod>,
    revision: Seq<char>,
    draining: Seq<Seq<char>>,
    k: int,
) -> Option<int>
    decreases pods.len() - k,
{
    if k < 0 || k >= pods.len() {
        None
    } else if is_stuck(pods[k], revision, draining) {
        Some(k)
    } else {
        first_stuck(pods, revision, draining, k + 1)
    }
}

/// The names of the pods that are being drained.
pub open spec fn draining_names(
    pods: Seq<Pod>,
    revision: Seq<char>,
    draining: Seq<Seq<char>>,
) -> Seq<Seq<char>>
    decreases pods.len(),
{
    if pods.len() == 0 {
        Seq::empty()
    } else if is_draining(pods.last(), revision, draining) {
        draining_names(pods.drop_last(), revision, draining).push(pods.last().name@)
    } else {
        draining_names(pods.drop_last(), revision, draining)
    }
}

/// How many pods have another revision.
pub open spec fn outdated_count(pods: Seq<Pod>, revision: Seq<char>) -> nat
    decreases pods.len(),
{
    if pods.len() == 0 {
        0
    } else {
        outdated_count(pods.drop_last(), revision) + if is_outdated(pods.last(), revision) {
            1nat
        } else {
            0
        }
    }
}

/// The ordinal of a pod, or zero.
pub open spec fn rank(pod: Pod) -> nat {
    match ordinal_of(pod.name@) {
        Some(n) => n,
        None => 0,
    }
}

/// The position of the pod with another revision and the highest ordinal.
pub open spec fn highest_outdated(pods: Seq<Pod>, revision: Seq<char>) -> Option<int>
    decreases pods.len(),
{
    if pods.len() == 0 {
        None
    } else {
        let best = highest_outdated(pods.drop_last(), revision);
        if is_outdated(pods.last(), revision) && (best is None || rank(pods.last()) >= rank(
            pods[best->0],
        )) {
            Some(pods.len() - 1)
        } else {
            best
        }
    }
}

/// What to do next in a rollout.
pub open spec fn decided(
    pods: Seq<Pod>,
    options: RolloutOptions<'_>,
    intentionally_draining: Seq<Seq<char>>,
) -> DecisionView {
    let revision = options.desired_revision@;
    let draining = draining_names(pods, revision, intentionally_draining);
    let unready = first_unready(pods, revision, 0);
    let stuck = first_stuck(pods, revision, intentionally_draining, 0);
    if !is_exact_set(pods, options.replicas as int) {
        DecisionView::Wait(
            "waiting for the exact "@ + text::dec_int(options.replicas as int)
                + "-Pod Broker ordinal set; observed "@ + text::dec(pods.len()) + " Pods"@,
        )
    } else if outdated_count(pods, revision) == 0 {
        match unready {
            Some(i) => DecisionView::Wait(
                "waiting for current broker "@ + pods[i].name@ + " to become Ready"@,
            ),
            None => DecisionView::Completed,
        }
    } else if unready is Some {
        if draining.len() > 0 {
            DecisionView::Resume(
                draining,
                "resumed an in-progress drain because current broker "@ + pods[unready->0].name@
                    + " is unavailable"@,
            )
        } else {
            DecisionView::Wait(
                "waiting for replacement broker "@ + pods[unready->0].name@ + " to become Ready"@,
            )
        }
    } else if stuck is Some {
        if draining.len() > 0 {
            DecisionView::Resume(
                draining,
                "resumed an in-progress drain because outdated broker "@ + pods[stuck->0].name@
                    + " is also unavailable"@,
            )
        } else {
            DecisionView::Wait(
                "outdated broker "@ + pods[stuck->0].name@
                    + " is not Ready; refusing to make another broker unavailable"@,
            )
        }
    } else if options.replicas < 2 {
        DecisionView::Blocked("rolling replacement needs at least two brokers"@)
    } else if draining.len() > 1 {
        DecisionView::Resume(
            draining,
            "resumed multiple in-progress drains; only one Broker may be disrupted"@,
        )
    } else if draining.len() == 1 {
        DecisionView::Replace(draining[0])
    } else if options.paused {
        DecisionView::Paused
    } else if options.require_canary_approval && outdated_count(pods, revision) < pods.len() && !(
    options.approved_revision is Some && options.approved_revision->0@ == revision) {
        DecisionView::AwaitingApproval
    } else {
        DecisionView::Replace(pods[highest_outdated(pods, revision)->0].name@)
    }
}

struct Survey {
    outdated: usize,
    draining: Vec<String>,
    highest: usize,
}

fn survey(pods: &Vec<Pod>, revision: &str, draining: &Vec<String>) -> (r: Survey)
    ensures
        r.outdated == outdated_count(pods@, revision@),
        text::texts(r.draining@) == draining_names(pods@, revision@, text::texts(draining@)),
        r.outdated > 0 ==> r.highest < pods@.len() && highest_outdated(pods@, revision@) == Some(
            r.highest as int,
        ),
        r.outdated == 0 ==> highest_outdated(pods@, revision@) is None,
{
    let mut outdated: usize = 0;
    let mut names: Vec<String> = Vec::new();
    let mut highest: usize = 0;
    let mut i: usize = 0;
    let ghost d = text::texts(draining@);
    assert(pods@.take(0) =~= Seq::<Pod>::empty());
    assert(text::texts(names@) =~= draining_names(pods@.take(0), revision@, d));
    while i < pods.len()
        invariant
            i <= pods@.len(),
            d == text::texts(draining@),
            outdated <= i,
            outdated == outdated_count(pods@.take(i as int), revision@),
            text::texts(names@) == draining_names(pods@.take(i as int), revision@, d),
            outdated > 0 ==> highest < i && highest_outdated(pods@.take(i as int), revision@)
                == Some(highest as int),
            outdated == 0 ==> highest_outdated(pods@.take(i as int), revision@) is None,
        decreases pods@.len() - i,
    {
        let ghost p = pods@.take(i + 1);
        assert(p.drop_last() =~= pods@.take(i as int));
        assert(p.last() == pods@[i as int]);
        if !has_revision(&pods[i], revision) {
            if !nodes::pod_ready(&pods[i]) && text_list::contains(
                draining,
                pods[i].name.as_str(),
            ) {
                let ghost before = names@;
                names.push(pods[i].name.clone());
                assert(text::texts(names@) =~= text::texts(before).push(pods@[i as int].name@));
            }
            let here: u32 = match pod_ordinal(pods[i].name.as_str()) {
                Some(n) => n,
                None => 0,
            };
            assert(here == rank(p.last()));
            if outdated == 0 {
                highest = i;
            } else {
                let best: u32 = match pod_ordinal(pods[highest].name.as_str()) {
                    Some(n) => n,
                    None => 0,
                };
                assert(p[highest as int] == pods@[highest as int]);
                assert(best == rank(p[highest as int]));
                if here >= best {
                    highest = i;
                }
            }
            outdated += 1;
        }
        i += 1;
    }
    assert(pods@.take(pods@.len() as int) =~= pods@);
    Survey { outdated, draining: names, highest }
}

fn find_unready(pods: &Vec<Pod>, revision: &str) -> (r: Option<usize>)
    ensures
        match r {
            Some(i) => i < pods@.len() && first_unready(pods@, revision@, 0) == Some(i as int),
            None => first_unready(pods@, revision@, 0) is None,
        },
{
    let mut i: usize = 0;
    while i < pods.len()
        invariant
            i <= pods@.len(),
            first_unready(pods@, revision@, 0) == first_unready(pods@, revision@, i as int),
        decreases pods@.len() - i,
    {
        if has_revision(&pods[i], revision) && !nodes::pod_ready(&pods[i]) {
            return Some(i);
        }
        i += 1;
    }
    None
}

fn find_stuck(pods: &Vec<Pod>, revision: &str, draining: &Vec<String>) -> (r: Option<usize>)
    ensures
        match r {
            Some(i) => i < pods@.len() && first_stuck(
                pods@,
                revision@,
                text::texts(draining@),
                0,
            ) == Some(i as int),
            None => first_stuck(pods@, revision@, text::texts(draining@), 0) is None,
        },
{
    let ghost d = text::texts(draining@);
    let mut i: usize = 0;
    while i < pods.len()
        invariant
            i <= pods@.len(),
            d == text::texts(draining@),
            first_stuck(pods@, revision@, d, 0) == first_stuck(pods@, revision@, d, i as int),
        decreases pods@.len() - i,
    {
        if !has_revision(&pods[i], revision) && !nodes::pod_ready(&pods[i])
            && !text_list::contains(draining, pods[i].name.as_str()) {
            return Some(i);
        }
        i += 1;
    }
    None
}

fn around(before: &str, name: &str, after: &str) -> (r: String)
    ensures
        r@ == before@ + name@ + after@,
{
    let mut r = before.to_owned();
    r.append(name);
    r.append(after);
    r
}

/// What to do next in a rollout, given the brokers that are being drained on
/// purpose.
pub fn rollout_decision(
    pods: &Vec<Pod>,
    options: &RolloutOptions<'_>,
    intentionally_draining: &Vec<String>,
) -> (r: Decision)
    ensures
        r@ == decided(pods@, *options, text::texts(intentionally_draining@)),
{
    let revision = options.desired_revision;
    if !exact_broker_pod_set(pods, options.replicas) {
        let mut m = "waiting for the exact ".to_owned();
        m.append(text::decimal_i64(options.replicas as i64).as_str());
        m.append("-Pod Broker ordinal set; observed ");
        m.append(text::decimal(pods.len() as u64).as_str());
        m.append(" Pods");
        return Decision::Wait(m);
    }
    let s = survey(pods, revision, intentionally_draining);
    let unready = find_unready(pods, revision);
    if s.outdated == 0 {
        return match unready {
            Some(i) => Decision::Wait(
                around("waiting for current broker ", pods[i].name.as_str(), " to become Ready"),
            ),
            None => Decision::Completed,
        };
    }
    let n: usize = s.draining.len();
    assert(text::texts(s.draining@).len() == n);
    if let Some(i) = unready {
        let name = pods[i].name.as_str();
        return if n > 0 {
            Decision::Resume(
                s.draining,
                around(
                    "resumed an in-progress drain because current broker ",
                    name,
                    " is unavailable",
                ),
            )
        } else {
            Decision::Wait(around("waiting for replacement broker ", name, " to become Ready"))
        };
    }
    if let Some(i) = find_stuck(pods, revision, intentionally_draining) {
        let name = pods[i].name.as_str();
        return if n > 0 {
            Decision::Resume(
                s.draining,
                around(
                    "resumed an in-progress drain because outdated broker ",
                    name,
                    " is also unavailable",
                ),
            )
        } else {
            Decision::Wait(
                around(
                    "outdated broker ",
                    name,
                    " is not Ready; refusing to make another broker unavailable",
                ),
            )
        };
    }
    if options.replicas < 2 {
        return Decision::Blocked("rolling replacement needs at least two brokers".to_owned());
    }
    if n > 1 {
        return Decision::Resume(
            s.draining,
            "resumed multiple in-progress drains; only one Broker may be disrupted".to_owned(),
        );
    }
    if n == 1 {
        assert(text::texts(s.draining@)[0] == s.draining@[0]@);
        return Decision::Replace(s.draining[0].clone());
    }
    if options.paused {
        return Decision::Paused;
    }
    let approved = match options.approved_revision {
        Some(a) => text::str_eq(a, revision),
        None => false,
    };
    if options.require_canary_approval && s.outdated < pods.len() && !approved {
        return Decision::AwaitingApproval;
    }
    Decision::Replace(pods[s.highest].name.clone())
}

proof fn lemma_first_unready(pods: Seq<Pod>, revision: Seq<char>, k: int, i: int)
    requires
        first_unready(pods, revision, k) is None,
        0 <= k <= i < pods.len(),
    ensures
        is_outdated(pods[i], revision) || nodes::is_ready(pods[i]),
    decreases i - k,
{
    if k < i {
        lemma_first_unready(pods, revision, k + 1, i);
    }
}

proof fn lemma_first_stuck(
    pods: Seq<Pod>,
    revision: Seq<char>,
    draining: Seq<Seq<char>>,
    k: int,
    i: int,
)
    requires
        first_stuck(pods, revision, draining, k) is None,
        0 <= k <= i < pods.len(),
    ensures
        !is_stuck(pods[i], revision, draining),
    decreases i - k,
{
    if k < i {
        lemma_first_stuck(pods, revision, draining, k + 1, i);
    }
}

proof fn lemma_draining_names(
    pods: Seq<Pod>,
    revision: Seq<char>,
    draining: Seq<Seq<char>>,
    i: int,
)
    requires
        0 <= i < pods.len(),
        is_draining(pods[i], revision, draining),
    ensures
        draining_names(pods, revision, draining).contains(pods[i].name@),
    decreases pods.len(),
{
    let r = draining_names(pods, revision, draining);
    if i == pods.len() - 1 {
        assert(r[r.len() - 1] == pods[i].name@);
    } else {
        lemma_draining_names(pods.drop_last(), revision, draining, i);
        let d = draining_names(pods.drop_last(), revision, draining);
        let w = choose|w: int| 0 <= w < d.len() && d[w] == pods[i].name@;
        assert(r[w] == pods[i].name@);
    }
}

proof fn lemma_none_outdated(pods: Seq<Pod>, revision: Seq<char>, i: int)
    requires
        outdated_count(pods, revision) == 0,
        0 <= i < pods.len(),
    ensures
        !is_outdated(pods[i], revision),
    decreases pods.len(),
{
    if i < pods.len() - 1 {
        lemma_none_outdated(pods.drop_last(), revision, i);
    }
}

/// A broker is replaced only while every other broker is ready, and only in a
/// set of two or more that is complete.
pub proof fn law_replacement_disrupts_one_broker(
    pods: Seq<Pod>,
    options: RolloutOptions<'_>,
    draining: Seq<Seq<char>>,
    i: int,
)
    requires
        decided(pods, options, draining) is Replace,
        0 <= i < pods.len(),
        pods[i].name@ != decided(pods, options, draining)->Replace_0,
    ensures
        nodes::is_ready(pods[i]),
        is_exact_set(pods, options.replicas as int),
        options.replicas >= 2,
{
    let revision = options.desired_revision@;
    lemma_first_unready(pods, revision, 0, i);
    lemma_first_stuck(pods, revision, draining, 0, i);
    if is_draining(pods[i], revision, draining) {
        lemma_draining_names(pods, revision, draining, i);
        let names = draining_names(pods, revision, draining);
        let w = choose|w: int| 0 <= w < names.len() && names[w] == pods[i].name@;
    }
}

/// A rollout is complete only when the whole set runs the revision and is ready.
pub proof fn law_completed_rollout_is_current_and_ready(
    pods: Seq<Pod>,
    options: RolloutOptions<'_>,
    draining: Seq<Seq<char>>,
)
    ensures
        decided(pods, options, draining) is Completed ==> is_set_current_and_ready(
            pods,
            options.desired_revision@,
            options.replicas as int,
        ),
{
    let revision = options.desired_revision@;
    if decided(pods, options, draining) is Completed {
        assert forall|i: int| 0 <= i < pods.len() implies revision_of(#[trigger] pods[i]) == Some(
            revision,
        ) && nodes::is_ready(pods[i]) by {
            lemma_none_outdated(pods, revision, i);
            lemma_first_unready(pods, revision, 0, i);
        }
    }
}

/// Where a canary needs approval, no further broker is taken down once one runs
/// an unapproved revision.
pub proof fn law_unapproved_canary_stops_the_rollout(
    pods: Seq<Pod>,
    options: RolloutOptions<'_>,
    draining: Seq<Seq<char>>,
)
    requires
        options.require_canary_approval,
        !(options.approved_revision is Some && options.approved_revision->0@
            == options.desired_revision@),
        outdated_count(pods, options.desired_revision@) < pods.len(),
        draining_names(pods, options.desired_revision@, draining).len() == 0,
    ensures
        !(decided(pods, options, draining) is Replace),
{
}

// What a rollout comes to, pod by pod.

/// Whether a pod runs a revision, as it was configured.
spec fn runs(pod: Pod, revision: Seq<char>) -> bool {
    string_map::lookup(pod.annotations@, "rustqueue.io/revision"@) == Some(revision)
}

proof fn lemma_outdated_count(pods: Seq<Pod>, revision: Seq<char>)
    ensures
        outdated_count(pods, revision) <= pods.len(),
        (forall|i: int| 0 <= i < pods.len() ==> runs(#[trigger] pods[i], revision))
            <==> outdated_count(pods, revision) == 0,
        (forall|i: int| 0 <= i < pods.len() ==> !runs(#[trigger] pods[i], revision))
            <==> outdated_count(pods, revision) == pods.len(),
    decreases pods.len(),
{
    if pods.len() > 0 {
        let d = pods.drop_last();
        let n = pods.len() - 1;
        lemma_outdated_count(d, revision);
        assert(forall|i: int| 0 <= i < n ==> #[trigger] pods[i] == d[i]);
        if forall|i: int| 0 <= i < pods.len() ==> runs(#[trigger] pods[i], revision) {
            assert forall|i: int| 0 <= i < d.len() implies runs(#[trigger] d[i], revision) by {
                assert(runs(pods[i], revision));
            }
            assert(runs(pods[n], revision));
        }
        if forall|i: int| 0 <= i < pods.len() ==> !runs(#[trigger] pods[i], revision) {
            assert forall|i: int| 0 <= i < d.len() implies !runs(#[trigger] d[i], revision) by {
                assert(!runs(pods[i], revision));
            }
            assert(!runs(pods[n], revision));
        }
        if outdated_count(pods, revision) == 0 {
            assert forall|i: int| 0 <= i < pods.len() implies runs(#[trigger] pods[i], revision) by {
                if i < n {
                    assert(runs(d[i], revision));
                }
            }
        }
        if outdated_count(pods, revision) == pods.len() {
            assert forall|i: int| 0 <= i < pods.len() implies !runs(#[trigger] pods[i], revision) by {
                if i < n {
                    assert(!runs(d[i], revision));
                }
            }
        }
    }
}

proof fn lemma_highest(pods: Seq<Pod>, revision: Seq<char>)
    ensures
        match highest_outdated(pods, revision) {
            Some(h) => 0 <= h < pods.len() && !runs(pods[h], revision) && forall|i: int|
                0 <= i < pods.len() && !runs(#[trigger] pods[i], revision) ==> rank(pods[i])
                    <= rank(pods[h]),
            None => forall|i: int| 0 <= i < pods.len() ==> runs(#[trigger] pods[i], revision),
        },
    decreases pods.len(),
{
    if pods.len() > 0 {
        let d = pods.drop_last();
        let n = pods.len() - 1;
        lemma_highest(d, revision);
        assert(forall|i: int| 0 <= i < n ==> #[trigger] pods[i] == d[i]);
        match highest_outdated(pods, revision) {
            Some(h) => {
                assert forall|i: int|
                    0 <= i < pods.len() && !runs(#[trigger] pods[i], revision) implies rank(pods[i])
                    <= rank(pods[h]) by {
                    if i < n {
                        assert(!runs(d[i], revision));
                    }
                }
            },
            None => {
                assert forall|i: int| 0 <= i < pods.len() implies runs(#[trigger] pods[i], revision) by {
                    if i < n {
                        assert(runs(d[i], revision));
                    }
                }
            },
        }
    }
}

/// Whether a pod is down on purpose, on its way to another revision.
spec fn goes(pod: Pod, revision: Seq<char>, draining: Seq<Seq<char>>) -> bool {
    !runs(pod, revision) && !nodes::is_ready(pod) && draining.contains(pod.name@)
}

proof fn lemma_drained(pods: Seq<Pod>, revision: Seq<char>, draining: Seq<Seq<char>>)
    ensures
        forall|i: int|
            0 <= i < pods.len() && goes(#[trigger] pods[i], revision, draining) ==> draining_names(
                pods,
                revision,
                draining,
            ).contains(pods[i].name@),
        forall|w: int|
            0 <= w < draining_names(pods, revision, draining).len() ==> exists|i: int|
                0 <= i < pods.len() && goes(#[trigger] pods[i], revision, draining)
                    && pods[i].name@ == #[trigger] draining_names(pods, revision, draining)[w],
    decreases pods.len(),
{
    assert forall|i: int| 0 <= i < pods.len() && goes(#[trigger] pods[i], revision, draining) implies
    draining_names(pods, revision, draining).contains(pods[i].name@) by {
        lemma_draining_names(pods, revision, draining, i);
    }
    if pods.len() > 0 {
        let d = pods.drop_last();
        let n = pods.len() - 1;
        let names = draining_names(pods, revision, draining);
        let before = draining_names(d, revision, draining);
        lemma_drained(d, revision, draining);
        assert forall|w: int| 0 <= w < names.len() implies exists|i: int|
            0 <= i < pods.len() && goes(#[trigger] pods[i], revision, draining) && pods[i].name@
                == #[trigger] names[w] by {
            if w < before.len() {
                assert(names[w] == before[w]);
                let i = choose|i: int|
                    0 <= i < d.len() && goes(#[trigger] d[i], revision, draining) && d[i].name@
                        == before[w];
                assert(pods[i] == d[i]);
            } else {
                assert(goes(pods[n], revision, draining) && pods[n].name@ == names[w]);
            }
        }
    }
}

proof fn lemma_drained_once(
    pods: Seq<Pod>,
    revision: Seq<char>,
    draining: Seq<Seq<char>>,
    i: int,
)
    requires
        0 <= i < pods.len(),
        forall|j: int|
            0 <= j < pods.len() ==> (goes(#[trigger] pods[j], revision, draining) <==> j == i),
    ensures
        draining_names(pods, revision, draining) == seq![pods[i].name@],
    decreases pods.len(),
{
    let d = pods.drop_last();
    let n = pods.len() - 1;
    assert(goes(pods[n], revision, draining) <==> n == i);
    assert forall|j: int| 0 <= j < d.len() implies (goes(#[trigger] d[j], revision, draining)
        <==> j == i) by {
        assert(d[j] == pods[j]);
    }
    if i < n {
        lemma_drained_once(d, revision, draining, i);
        assert(d[i] == pods[i]);
    } else {
        lemma_drained(d, revision, draining);
        let before = draining_names(d, revision, draining);
        if before.len() > 0 {
            let j = choose|j: int|
                0 <= j < d.len() && goes(#[trigger] d[j], revision, draining) && d[j].name@
                    == before[0];
            assert(false);
        }
        assert(before =~= Seq::empty());
    }
    assert(draining_names(pods, revision, draining) =~= seq![pods[i].name@]);
}

proof fn lemma_unready(pods: Seq<Pod>, revision: Seq<char>, k: int)
    requires
        0 <= k <= pods.len(),
    ensures
        first_unready(pods, revision, k) matches Some(i) ==> k <= i < pods.len() && runs(
            pods[i],
            revision,
        ) && !nodes::is_ready(pods[i]),
    decreases pods.len() - k,
{
    if k < pods.len() {
        lemma_unready(pods, revision, k + 1);
    }
}

proof fn lemma_stuck(pods: Seq<Pod>, revision: Seq<char>, draining: Seq<Seq<char>>, k: int)
    requires
        0 <= k <= pods.len(),
    ensures
        first_stuck(pods, revision, draining, k) matches Some(i) ==> k <= i < pods.len() && !runs(
            pods[i],
            revision,
        ) && !nodes::is_ready(pods[i]) && !draining.contains(pods[i].name@),
    decreases pods.len() - k,
{
    if k < pods.len() {
        lemma_stuck(pods, revision, draining, k + 1);
    }
}

/// Where the whole set is ready and some broker runs another revision, only the options decide:
/// a paused rollout rests, however far it has come; one that waits for its canary rests once a
/// broker runs the revision; and else the broker of another revision with the highest ordinal
/// is replaced.
pub proof fn law_ready_rollouts_follow_their_options(
    pods: Seq<Pod>,
    options: RolloutOptions<'_>,
    draining: Seq<Seq<char>>,
)
    requires
        is_exact_set(pods, options.replicas as int),
        options.replicas >= 2,
        forall|i: int| 0 <= i < pods.len() ==> nodes::is_ready(#[trigger] pods[i]),
        exists|i: int|
            0 <= i < pods.len() && revision_of(#[trigger] pods[i]) != Some(
                options.desired_revision@,
            ),
    ensures
        options.paused <==> decided(pods, options, draining) is Paused,
        decided(pods, options, draining) is AwaitingApproval <==> {
            &&& !options.paused
            &&& options.require_canary_approval
            &&& exists|i: int|
                0 <= i < pods.len() && revision_of(#[trigger] pods[i]) == Some(
                    options.desired_revision@,
                )
            &&& options.approved_revision is None || options.approved_revision->0@
                != options.desired_revision@
        },
        !(decided(pods, options, draining) is Paused || decided(pods, options, draining)
            is AwaitingApproval) ==> exists|h: int| #[trigger]
            is_last_outdated(pods, options.desired_revision@, h) && decided(
                pods,
                options,
                draining,
            ) == DecisionView::Replace(pods[h].name@),
{
    let revision = options.desired_revision@;
    lemma_outdated_count(pods, revision);
    lemma_highest(pods, revision);
    lemma_unready(pods, revision, 0);
    lemma_stuck(pods, revision, draining, 0);
    lemma_drained(pods, revision, draining);
    let names = draining_names(pods, revision, draining);
    if names.len() > 0 {
        let i = choose|i: int|
            0 <= i < pods.len() && goes(#[trigger] pods[i], revision, draining) && pods[i].name@
                == names[0];
        assert(false);
    }
    let h = highest_outdated(pods, revision)->0;
    assert forall|i: int|
        0 <= i < pods.len() && revision_of(#[trigger] pods[i]) != Some(revision) implies rank(
        pods[i],
    ) <= rank(pods[h]) by {
        assert(!runs(pods[i], revision));
    }
    law_exact_set_has_distinct_ordinals(pods, options.replicas as int);
    assert(is_last_outdated(pods, revision, h));
    if exists|i: int| 0 <= i < pods.len() && revision_of(#[trigger] pods[i]) == Some(revision) {
        let i = choose|i: int|
            0 <= i < pods.len() && revision_of(#[trigger] pods[i]) == Some(revision);
        assert(runs(pods[i], revision));
    } else {
        assert forall|i: int| 0 <= i < pods.len() implies !runs(#[trigger] pods[i], revision) by {
            assert(revision_of(pods[i]) != Some(revision));
        }
    }
}

/// Whether a pod runs another revision, and every other one that does has a lower ordinal.
pub open spec fn is_last_outdated(pods: Seq<Pod>, revision: Seq<char>, h: int) -> bool {
    &&& 0 <= h < pods.len()
    &&& revision_of(pods[h]) != Some(revision)
    &&& ordinal_of(pods[h].name@) is Some
    &&& forall|i: int|
        0 <= i < pods.len() && i != h && revision_of(#[trigger] pods[i]) != Some(revision)
            ==> ordinal_of(pods[i].name@) is Some && ordinal_of(pods[i].name@)->0 < ordinal_of(
            pods[h].name@,
        )->0
}

/// A rollout takes a broker that runs another revision, and with every other broker ready; and
/// it takes one that serves only where it is not paused, where its canary is approved if that
/// is asked for, and where nothing is on its way down already.
pub proof fn law_replaced_brokers_are_outdated_and_alone(
    pods: Seq<Pod>,
    options: RolloutOptions<'_>,
    draining: Seq<Seq<char>>,
)
    requires
        decided(pods, options, draining) is Replace,
    ensures
        options.replicas >= 2,
        is_exact_set(pods, options.replicas as int),
        exists|i: int|
            {
                &&& 0 <= i < pods.len()
                &&& #[trigger] revision_of(pods[i]) != Some(options.desired_revision@)
                &&& pods[i].name@ == decided(pods, options, draining)->Replace_0
                &&& !nodes::is_ready(pods[i]) ==> draining.contains(pods[i].name@)
                &&& nodes::is_ready(pods[i]) ==> {
                    &&& !options.paused
                    &&& is_last_outdated(pods, options.desired_revision@, i)
                    &&& options.require_canary_approval ==> (options.approved_revision is Some
                        && options.approved_revision->0@ == options.desired_revision@) || (forall|
                        j: int,
                    |
                        0 <= j < pods.len() ==> revision_of(#[trigger] pods[j]) != Some(
                            options.desired_revision@,
                        ))
                }
            },
        forall|j: int|
            0 <= j < pods.len() && (#[trigger] pods[j]).name@ != decided(
                pods,
                options,
                draining,
            )->Replace_0 ==> nodes::is_ready(pods[j]),
{
    let revision = options.desired_revision@;
    let d = decided(pods, options, draining);
    let names = draining_names(pods, revision, draining);
    lemma_outdated_count(pods, revision);
    lemma_highest(pods, revision);
    lemma_drained(pods, revision, draining);
    assert forall|j: int| 0 <= j < pods.len() && (#[trigger] pods[j]).name@ != d->Replace_0 implies
    nodes::is_ready(pods[j]) by {
        law_replacement_disrupts_one_broker(pods, options, draining, j);
    }
    law_exact_set_has_distinct_ordinals(pods, options.replicas as int);
    if names.len() == 1 {
        let i = choose|i: int|
            0 <= i < pods.len() && goes(#[trigger] pods[i], revision, draining) && pods[i].name@
                == names[0];
        assert(revision_of(pods[i]) != Some(revision));
    } else {
        let h = highest_outdated(pods, revision)->0;
        lemma_first_unready(pods, revision, 0, h);
        lemma_first_stuck(pods, revision, draining, 0, h);
        assert(revision_of(pods[h]) != Some(revision));
        assert forall|i: int|
            0 <= i < pods.len() && i != h && revision_of(#[trigger] pods[i]) != Some(
                revision,
            ) implies ordinal_of(pods[i].name@) is Some && ordinal_of(pods[i].name@)->0
            < ordinal_of(pods[h].name@)->0 by {
            assert(!runs(pods[i], revision));
        }
        assert(is_last_outdated(pods, revision, h));
        if options.require_canary_approval && !(options.approved_revision is Some
            && options.approved_revision->0@ == revision) {
            assert forall|j: int| 0 <= j < pods.len() implies revision_of(#[trigger] pods[j])
                != Some(revision) by {
                assert(!runs(pods[j], revision));
            }
        }
    }
}

/// A paused rollout takes no broker that is not on its way down already.
pub proof fn law_paused_rollouts_take_no_broker(
    pods: Seq<Pod>,
    options: RolloutOptions<'_>,
    draining: Seq<Seq<char>>,
)
    requires
        options.paused,
        forall|i: int|
            0 <= i < pods.len() && revision_of(#[trigger] pods[i]) != Some(
                options.desired_revision@,
            ) && !nodes::is_ready(pods[i]) ==> !draining.contains(pods[i].name@),
    ensures
        !(decided(pods, options, draining) is Replace),
{
    if decided(pods, options, draining) is Replace {
        law_replaced_brokers_are_outdated_and_alone(pods, options, draining);
    }
}

/// A drain that is under way goes on, paused or not: where exactly one broker of another
/// revision is down on purpose and every other broker is ready, it is that one that is
/// replaced.
pub proof fn law_a_drain_under_way_goes_on(
    pods: Seq<Pod>,
    options: RolloutOptions<'_>,
    draining: Seq<Seq<char>>,
    i: int,
)
    requires
        is_exact_set(pods, options.replicas as int),
        options.replicas >= 2,
        0 <= i < pods.len(),
        revision_of(pods[i]) != Some(options.desired_revision@),
        !nodes::is_ready(pods[i]),
        draining.contains(pods[i].name@),
        forall|j: int| 0 <= j < pods.len() && j != i ==> nodes::is_ready(#[trigger] pods[j]),
    ensures
        decided(pods, options, draining) == DecisionView::Replace(pods[i].name@),
{
    let revision = options.desired_revision@;
    lemma_outdated_count(pods, revision);
    lemma_unready(pods, revision, 0);
    lemma_stuck(pods, revision, draining, 0);
    assert(!runs(pods[i], revision));
    lemma_drained_once(pods, revision, draining, i);
}

/// A rollout is complete exactly when every broker of the set runs the revision and is ready.
pub proof fn law_rollouts_complete_when_all_run_the_revision(
    pods: Seq<Pod>,
    options: RolloutOptions<'_>,
    draining: Seq<Seq<char>>,
)
    ensures
        decided(pods, options, draining) is Completed <==> {
            &&& is_exact_set(pods, options.replicas as int)
            &&& forall|i: int|
                0 <= i < pods.len() ==> revision_of(#[trigger] pods[i]) == Some(
                    options.desired_revision@,
                ) && nodes::is_ready(pods[i])
        },
{
    let revision = options.desired_revision@;
    law_completed_rollout_is_current_and_ready(pods, options, draining);
    lemma_outdated_count(pods, revision);
    lemma_unready(pods, revision, 0);
    if forall|i: int|
        0 <= i < pods.len() ==> revision_of(#[trigger] pods[i]) == Some(revision)
            && nodes::is_ready(pods[i]) {
        assert forall|i: int| 0 <= i < pods.len() implies runs(#[trigger] pods[i], revision) by {
            assert(revision_of(pods[i]) == Some(revision));
        }
    }
}

/// A rollout ends drains exactly where some are under way that may not go on: then those of all
/// brokers of another revision that are down on purpose, and no others.
pub proof fn law_resumed_brokers_are_those_on_their_way_down(
    pods: Seq<Pod>,
    options: RolloutOptions<'_>,
    draining: Seq<Seq<char>>,
)
    requires
        decided(pods, options, draining) is Resume,
    ensures
        forall|i: int|
            0 <= i < pods.len() && revision_of(#[trigger] pods[i]) != Some(
                options.desired_revision@,
            ) && !nodes::is_ready(pods[i]) && draining.contains(pods[i].name@) ==> decided(
                pods,
                options,
                draining,
            )->Resume_0.contains(pods[i].name@),
        forall|n: Seq<char>| #[trigger]
            decided(pods, options, draining)->Resume_0.contains(n) ==> exists|i: int|
                0 <= i < pods.len() && revision_of(#[trigger] pods[i]) != Some(
                    options.desired_revision@,
                ) && !nodes::is_ready(pods[i]) && draining.contains(pods[i].name@)
                    && pods[i].name@ == n,
        exists|i: int|
            0 <= i < pods.len() && revision_of(#[trigger] pods[i]) != Some(
                options.desired_revision@,
            ) && !nodes::is_ready(pods[i]) && draining.contains(pods[i].name@),
{
    let revision = options.desired_revision@;
    lemma_drained(pods, revision, draining);
    let names = draining_names(pods, revision, draining);
    assert forall|i: int|
        0 <= i < pods.len() && revision_of(#[trigger] pods[i]) != Some(revision)
            && !nodes::is_ready(pods[i]) && draining.contains(pods[i].name@) implies names.contains(
        pods[i].name@,
    ) by {
        assert(goes(pods[i], revision, draining));
    }
    assert forall|n: Seq<char>| #[trigger] names.contains(n) implies exists|i: int|
        0 <= i < pods.len() && revision_of(#[trigger] pods[i]) != Some(revision)
            && !nodes::is_ready(pods[i]) && draining.contains(pods[i].name@) && pods[i].name@
            == n by {
        let w = choose|w: int| 0 <= w < names.len() && names[w] == n;
        let i = choose|i: int|
            0 <= i < pods.len() && goes(#[trigger] pods[i], revision, draining) && pods[i].name@
                == names[w];
        assert(revision_of(pods[i]) != Some(revision));
    }
    assert(names.contains(names[0]));
}

/// While a broker is down that is not on its way down on purpose, nothing is taken down.
pub proof fn law_nothing_is_replaced_while_a_broker_is_missing(
    pods: Seq<Pod>,
    options: RolloutOptions<'_>,
    draining: Seq<Seq<char>>,
    i: int,
)
    requires
        0 <= i < pods.len(),
        !nodes::is_ready(pods[i]),
        revision_of(pods[i]) == Some(options.desired_revision@) || !draining.contains(
            pods[i].name@,
        ),
    ensures
        decided(pods, options, draining) is Wait || decided(pods, options, draining) is Resume,
{
    let revision = options.desired_revision@;
    lemma_outdated_count(pods, revision);
    if first_unready(pods, revision, 0) is None {
        lemma_first_unready(pods, revision, 0, i);
    }
    if first_stuck(pods, revision, draining, 0) is None {
        lemma_first_stuck(pods, revision, draining, 0, i);
    }
}

/// A cluster of one broker is not rolled: its broker is never taken down.
pub proof fn law_a_single_broker_is_not_replaced(
    pods: Seq<Pod>,
    options: RolloutOptions<'_>,
    draining: Seq<Seq<char>>,
)
    requires
        options.replicas < 2,
    ensures
        !(decided(pods, options, draining) is Replace),
        !(decided(pods, options, draining) is Paused),
        !(decided(pods, options, draining) is AwaitingApproval),
{
}

/// The set of brokers is exact only where every ordinal below the replicas is the end of a
/// name: a missing, an extra or a doubled pod holds everything up.
pub proof fn law_an_incomplete_set_waits(
    pods: Seq<Pod>,
    options: RolloutOptions<'_>,
    draining: Seq<Seq<char>>,
    o: nat,
)
    requires
        pods.len() != options.replicas || pods.len() == 0 || (o < options.replicas && forall|
            i: int,
        |
            0 <= i < pods.len() ==> ordinal_of((#[trigger] pods[i]).name@) != Some(o)),
    ensures
        decided(pods, options, draining) is Wait,
{
    if is_exact_set(pods, options.replicas as int) {
        assert(has_ordinal(pods, o as int));
    }
}

// Progress.

/// How far a rollout has come, where its decision needs no drain.
pub open spec fn settled(decision: DecisionView, options: RolloutOptions<'_>) -> ProgressView {
    let (phase, message) = match decision {
        DecisionView::Completed => (
            "Completed"@,
            "all "@ + text::dec_int(options.replicas as int)
                + " broker Pods are current and Ready"@,
        ),
        DecisionView::Wait(m) => ("WaitingForReady"@, m),
        DecisionView::Paused => ("Paused"@, "rollout is paused by spec.rollout.paused"@),
        DecisionView::AwaitingApproval => (
            "AwaitingCanaryApproval"@,
            "canary is Ready; set spec.rollout.approvedRevision="@ + options.desired_revision@
                + " to continue"@,
        ),
        DecisionView::Blocked(m) => ("Blocked"@, m),
        DecisionView::Resume(_, m) => ("WaitingForReady"@, m),
        DecisionView::Replace(name) => (
            "Draining"@,
            "waiting for outdated broker "@ + name + " to drain"@,
        ),
    };
    ProgressView {
        target: match decision {
            DecisionView::Replace(name) => Some(name),
            _ => None,
        },
        phase,
        message,
    }
}

/// How far a rollout has come. A broker to be replaced is still draining.
pub fn rollout_progress(decision: Decision, options: &RolloutOptions<'_>) -> (r: Progress)
    ensures
        r@ == settled(decision@, *options),
{
    match decision {
        Decision::Completed => progress(
            None,
            "Completed",
            around(
                "all ",
                text::decimal_i64(options.replicas as i64).as_str(),
                " broker Pods are current and Ready",
            ),
        ),
        Decision::Wait(m) => progress(None, "WaitingForReady", m),
        Decision::Paused => progress(
            None,
            "Paused",
            "rollout is paused by spec.rollout.paused".to_owned(),
        ),
        Decision::AwaitingApproval => progress(
            None,
            "AwaitingCanaryApproval",
            around(
                "canary is Ready; set spec.rollout.approvedRevision=",
                options.desired_revision,
                " to continue",
            ),
        ),
        Decision::Blocked(m) => progress(None, "Blocked", m),
        Decision::Resume(_, m) => progress(None, "WaitingForReady", m),
        Decision::Replace(name) => {
            let m = around("waiting for outdated broker ", name.as_str(), " to drain");
            progress(Some(name), "Draining", m)
        },
    }
}

/// How far a rollout has come once its broker is drained and deleted.
pub fn replaced_progress(name: &str) -> (r: Progress)
    ensures
        r@ == (ProgressView {
            target: Some(name@),
            phase: "Replacing"@,
            message: "deleted drained outdated broker "@ + name@,
        }),
{
    let mut m = "deleted drained outdated broker ".to_owned();
    m.append(name);
    progress(Some(name.to_owned()), "Replacing", m)
}

/// How far a rollout has come after what was decided is done. `drained` says whether the
/// broker to be replaced was drained, and is then deleted.
pub fn rollout_outcome(decision: Decision, drained: bool, options: &RolloutOptions<'_>) -> (r:
    Progress)
    ensures
        r@ == match decision@ {
            DecisionView::Replace(name) => if drained {
                ProgressView {
                    target: Some(name),
                    phase: "Replacing"@,
                    message: "deleted drained outdated broker "@ + name,
                }
            } else {
                settled(decision@, *options)
            },
            _ => settled(decision@, *options),
        },
{
    match &decision {
        Decision::Replace(name) => if drained {
            return replaced_progress(name.as_str());
        },
        _ => {},
    }
    rollout_progress(decision, options)
}

/// Whether the brokers of the desired revision are to leave their drain.
pub fn is_completed(p: &Progress) -> (r: bool)
    ensures
        r == (p@.phase == "Completed"@),
{
    text::str_eq(p.phase.as_str(), "Completed")
}

/// What is done to drain a broker.
#[derive(Debug)]
pub enum DrainStep {
    /// Nothing: it is gone.
    Done,
    /// Nothing yet: it has no address.
    Wait,
    /// It is told, and asked how far it has come.
    Tell { ip: String, freeze_deliveries: bool },
}

/// What is done to drain a broker, by its pod and the pod's address. Deliveries stop at once
/// where the broker need not become empty.
pub fn drain_step(found: Option<Option<String>>, goal: DrainGoal) -> (r: DrainStep)
    ensures
        match found {
            None => r is Done,
            Some(None) => r is Wait,
            Some(Some(address)) => r == (DrainStep::Tell {
                ip: address,
                freeze_deliveries: goal is Quiesced,
            }),
        },
{
    match found {
        None => DrainStep::Done,
        Some(None) => DrainStep::Wait,
        Some(Some(ip)) => DrainStep::Tell { ip, freeze_deliveries: goal == DrainGoal::Quiesced },
    }
}

/// The pod with an ordinal.
pub open spec fn pod_name(cluster: Seq<char>, ordinal: int) -> Seq<char> {
    cluster + "-"@ + text::dec_int(ordinal)
}

/// The pod that leaves when a cluster shrinks by one.
pub fn scale_down_target(cluster: &str, current: i32) -> (r: String)
    requires
        current > i32::MIN,
    ensures
        r@ == pod_name(cluster@, current - 1),
{
    around(cluster, "-", text::decimal_i64((current - 1) as i64).as_str())
}

/// How far shrinking has come: `None` where the target may be drained.
pub fn scale_down_check(pods: &Vec<Pod>, target: &str, current: i32) -> (r: Option<Progress>)
    ensures
        match r {
            Some(p) => !are_others_ready(pods@, target@, current as int) && p@ == (ProgressView {
                target: Some(target@),
                phase: "WaitingForReady"@,
                message: "resumed scale-down target "@ + target@
                    + "; waiting for every other Broker to become Ready"@,
            }),
            None => are_others_ready(pods@, target@, current as int),
        },
{
    if other_brokers_ready(pods, target, current) {
        None
    } else {
        let m = around(
            "resumed scale-down target ",
            target,
            "; waiting for every other Broker to become Ready",
        );
        Some(progress(Some(target.to_owned()), "WaitingForReady", m))
    }
}

/// How far shrinking has come once the target was told to drain.
pub fn scale_down_progress(target: &str, current: i32, drained: bool) -> (r: Progress)
    requires
        current > i32::MIN,
    ensures
        r@ == (if drained {
            ProgressView {
                target: Some(target@),
                phase: "Completed"@,
                message: target@ + " drained; scaling to "@ + text::dec_int(current - 1),
            }
        } else {
            ProgressView {
                target: Some(target@),
                phase: "Draining"@,
                message: "waiting for highest ordinal "@ + target@ + " to drain"@,
            }
        }),
{
    if drained {
        let m = around(
            target,
            " drained; scaling to ",
            text::decimal_i64((current - 1) as i64).as_str(),
        );
        progress(Some(target.to_owned()), "Completed", m)
    } else {
        let m = around("waiting for highest ordinal ", target, " to drain");
        progress(Some(target.to_owned()), "Draining", m)
    }
}

/// Why a broker cannot be put into maintenance.
#[derive(Debug)]
pub enum MaintenanceError {
    NotABroker,
    Missing,
    NoAddress,
}

/// What maintenance does next.
#[derive(Debug)]
pub enum MaintenanceStep {
    /// Resume the target and report.
    Resume(Progress),
    /// Set the drain of the broker at this address.
    SetDrain(String),
}

/// The first pod with a name, from `k` on.
pub open spec fn first_named(pods: Seq<Pod>, name: Seq<char>, k: int) -> Option<int>
    decreases pods.len() - k,
{
    if k < 0 || k >= pods.len() {
        None
    } else if pods[k].name@ == name {
        Some(k)
    } else {
        first_named(pods, name, k + 1)
    }
}

proof fn lemma_first_named(pods: Seq<Pod>, name: Seq<char>, k: int)
    requires
        0 <= k <= pods.len(),
    ensures
        first_named(pods, name, k) matches Some(i) ==> k <= i < pods.len() && pods[i].name@ == name,
    decreases pods.len() - k,
{
    if k < pods.len() {
        lemma_first_named(pods, name, k + 1);
    }
}

fn find_named(pods: &Vec<Pod>, name: &str) -> (r: Option<usize>)
    ensures
        match r {
            Some(i) => i < pods@.len() && first_named(pods@, name@, 0) == Some(i as int),
            None => first_named(pods@, name@, 0) is None,
        },
{
    let mut i: usize = 0;
    while i < pods.len()
        invariant
            i <= pods@.len(),
            first_named(pods@, name@, 0) == first_named(pods@, name@, i as int),
        decreases pods@.len() - i,
    {
        if text::str_eq(pods[i].name.as_str(), name) {
            return Some(i);
        }
        i += 1;
    }
    None
}

/// Whether a name is that of a broker of the cluster.
pub open spec fn names_broker(cluster: Seq<char>, broker: Seq<char>) -> bool {
    text::starts(broker, cluster + "-"@) && ordinal_of(broker) is Some
}

/// What maintenance of a broker does next. A broker is taken down only while
/// every other one is ready.
pub fn maintenance_step(
    cluster: &str,
    broker: &str,
    enabled: bool,
    pods: &Vec<Pod>,
    replicas: i32,
) -> (r: Result<MaintenanceStep, MaintenanceError>)
    ensures
        r matches Err(MaintenanceError::NotABroker) <==> !names_broker(cluster@, broker@),
        r matches Err(MaintenanceError::Missing) <==> names_broker(cluster@, broker@)
            && first_named(pods@, broker@, 0) is None,
        r matches Ok(MaintenanceStep::Resume(_)) <==> names_broker(cluster@, broker@)
            && first_named(pods@, broker@, 0) is Some && enabled && !are_others_ready(
            pods@,
            broker@,
            replicas as int,
        ),
        r matches Ok(MaintenanceStep::Resume(p)) ==> p@ == (ProgressView {
            target: Some(broker@),
            phase: "Blocked"@,
            message: "resumed maintenance target "@ + broker@
                + "; maintenance is blocked until every other Broker is Ready"@,
        }),
        r matches Err(MaintenanceError::NoAddress) <==> names_broker(cluster@, broker@)
            && first_named(pods@, broker@, 0) is Some && (enabled ==> are_others_ready(
            pods@,
            broker@,
            replicas as int,
        )) && pods@[first_named(pods@, broker@, 0)->0].pod_ip is None,
        r matches Ok(MaintenanceStep::SetDrain(ip)) ==> pods@[first_named(
            pods@,
            broker@,
            0,
        )->0].pod_ip is Some && ip@ == pods@[first_named(pods@, broker@, 0)->0].pod_ip->0@,
        r matches Ok(MaintenanceStep::SetDrain(ip)) ==> exists|i: int|
            0 <= i < pods@.len() && (#[trigger] pods@[i]).name@ == broker@ && pods@[i].pod_ip is Some
                && pods@[i].pod_ip->0@ == ip@,
        (enabled && (r matches Ok(MaintenanceStep::SetDrain(_)))) ==> forall|i: int|
            0 <= i < pods@.len() && ordinal_of((#[trigger] pods@[i]).name@) != ordinal_of(broker@)
                ==> nodes::is_ready(pods@[i]),
        !enabled ==> !(r matches Ok(MaintenanceStep::Resume(_))),
{
    let prefix = around(cluster, "-", "");
    proof {
        reveal_strlit("");
        assert(prefix@ =~= cluster@ + "-"@);
    }
    if !text::starts_with(broker, prefix.as_str()) || pod_ordinal(broker).is_none() {
        return Err(MaintenanceError::NotABroker);
    }
    let at: usize = match find_named(pods, broker) {
        Some(i) => i,
        None => {
            return Err(MaintenanceError::Missing);
        },
    };
    if enabled && !other_brokers_ready(pods, broker, replicas) {
        let m = around(
            "resumed maintenance target ",
            broker,
            "; maintenance is blocked until every other Broker is Ready",
        );
        return Ok(
            MaintenanceStep::Resume(progress(Some(broker.to_owned()), "Blocked", m)),
        );
    }
    proof {
        lemma_first_named(pods@, broker@, 0);
        if enabled {
            assert forall|i: int|
                0 <= i < pods@.len() && ordinal_of((#[trigger] pods@[i]).name@) != ordinal_of(
                    broker@,
                ) implies nodes::is_ready(pods@[i]) by {
                assert(is_ready_other(pods@[i], broker@));
            }
        }
    }
    match &pods[at].pod_ip {
        Some(ip) => Ok(MaintenanceStep::SetDrain(ip.clone())),
        None => Err(MaintenanceError::NoAddress),
    }
}

/// How far maintenance has come once the drain of the broker was set.
pub fn maintenance_progress(broker: &str, enabled: bool, status: DrainStatus) -> (r: Progress)
    ensures
        r@ == (if enabled && status.drained {
            ProgressView {
                target: Some(broker@),
                phase: "Completed"@,
                message: broker@ + " is drained and held in maintenance"@,
            }
        } else if enabled {
            ProgressView {
                target: Some(broker@),
                phase: "Draining"@,
                message: "waiting for "@ + broker@ + " backlog and in-flight work to drain"@,
            }
        } else {
            ProgressView {
                target: Some(broker@),
                phase: "Completed"@,
                message: broker@ + " resumed service"@,
            }
        }),
{
    let target = Some(broker.to_owned());
    if enabled && status.drained {
        let mut m = broker.to_owned();
        m.append(" is drained and held in maintenance");
        progress(target, "Completed", m)
    } else if enabled {
        let m = around("waiting for ", broker, " backlog and in-flight work to drain");
        progress(target, "Draining", m)
    } else {
        let mut m = broker.to_owned();
        m.append(" resumed service");
        progress(target, "Completed", m)
    }
}

/// The message of a maintenance error.
pub fn maintenance_message(error: &MaintenanceError, cluster: &str, broker: &str) -> (r: String)
    ensures
        r@ == "maintenance target "@ + broker@ + match error {
            MaintenanceError::NotABroker => " is not a Broker of "@ + cluster@,
            MaintenanceError::Missing => " does not exist"@,
            MaintenanceError::NoAddress => " has no Pod IP"@,
        },
{
    let tail = match error {
        MaintenanceError::NotABroker => {
            let mut t = " is not a Broker of ".to_owned();
            t.append(cluster);
            t
        },
        MaintenanceError::Missing => " does not exist".to_owned(),
        MaintenanceError::NoAddress => " has no Pod IP".to_owned(),
    };
    around("maintenance target ", broker, tail.as_str())
}

/// The first pod with another revision, from `k` on.
pub open spec fn first_outdated(pods: Seq<Pod>, revision: Seq<char>, k: int) -> Option<int>
    decreases pods.len() - k,
{
    if k < 0 || k >= pods.len() {
        None
    } else if is_outdated(pods[k], revision) {
        Some(k)
    } else {
        first_outdated(pods, revision, k + 1)
    }
}

/// The image that the first broker with another revision runs.
pub fn previous_image(pods: &Vec<Pod>, desired_revision: &str) -> (r: Option<String>)
    ensures
        text::opt_text(r) == match first_outdated(pods@, desired_revision@, 0) {
            Some(i) => kube::image_of(pods@[i].containers@, "broker"@),
            None => None,
        },
{
    let mut i: usize = 0;
    while i < pods.len()
        invariant
            i <= pods@.len(),
            first_outdated(pods@, desired_revision@, 0) == first_outdated(
                pods@,
                desired_revision@,
                i as int,
            ),
        decreases pods@.len() - i,
    {
        if !has_revision(&pods[i], desired_revision) {
            return pod_image(&pods[i]);
        }
        i += 1;
    }
    None
}

/// The addresses of the pods of a revision.
pub open spec fn addresses_of(pods: Seq<Pod>, revision: Seq<char>) -> Seq<Seq<char>>
    decreases pods.len(),
{
    if pods.len() == 0 {
        Seq::empty()
    } else if revision_of(pods.last()) == Some(revision) && pods.last().pod_ip is Some {
        addresses_of(pods.drop_last(), revision).push(pods.last().pod_ip->0@)
    } else {
        addresses_of(pods.drop_last(), revision)
    }
}

/// The addresses of the pods of a revision: those whose drains end when the
/// rollout of the revision does.
pub fn current_addresses(pods: &Vec<Pod>, desired_revision: &str) -> (r: Vec<String>)
    ensures
        text::texts(r@) == addresses_of(pods@, desired_revision@),
{
    let mut out: Vec<String> = Vec::new();
    let mut i: usize = 0;
    assert(pods@.take(0) =~= Seq::<Pod>::empty());
    assert(text::texts(out@) =~= addresses_of(pods@.take(0), desired_revision@));
    while i < pods.len()
        invariant
            i <= pods@.len(),
            text::texts(out@) == addresses_of(pods@.take(i as int), desired_revision@),
        decreases pods@.len() - i,
    {
        assert(pods@.take(i + 1).drop_last() =~= pods@.take(i as int));
        assert(pods@.take(i + 1).last() == pods@[i as int]);
        if has_revision(&pods[i], desired_revision) {
            if let Some(ip) = &pods[i].pod_ip {
                let ghost before = out@;
                out.push(ip.clone());
                assert(text::texts(out@) =~= text::texts(before).push(ip@));
            }
        }
        i += 1;
    }
    assert(pods@.take(pods@.len() as int) =~= pods@);
    out
}

/// The positions of the pods that may be draining on purpose: those with another
/// revision and an address that are not ready.
pub open spec fn suspects(pods: Seq<Pod>, revision: Seq<char>) -> Seq<usize>
    decreases pods.len(),
{
    if pods.len() == 0 {
        Seq::empty()
    } else if is_outdated(pods.last(), revision) && !nodes::is_ready(pods.last())
        && pods.last().pod_ip is Some {
        suspects(pods.drop_last(), revision).push((pods.len() - 1) as usize)
    } else {
        suspects(pods.drop_last(), revision)
    }
}

/// The positions of the pods that may be draining on purpose.
pub fn draining_candidates(pods: &Vec<Pod>, desired_revision: &str) -> (r: Vec<usize>)
    ensures
        r@ == suspects(pods@, desired_revision@),
{
    let mut out: Vec<usize> = Vec::new();
    let mut i: usize = 0;
    assert(pods@.take(0) =~= Seq::<Pod>::empty());
    while i < pods.len()
        invariant
            i <= pods@.len(),
            out@ == suspects(pods@.take(i as int), desired_revision@),
        decreases pods@.len() - i,
    {
        assert(pods@.take(i + 1).drop_last() =~= pods@.take(i as int));
        assert(pods@.take(i + 1).last() == pods@[i as int]);
        if !has_revision(&pods[i], desired_revision) && !nodes::pod_ready(&pods[i])
            && pods[i].pod_ip.is_some() {
            out.push(i);
        }
        i += 1;
    }
    assert(pods@.take(pods@.len() as int) =~= pods@);
    out
}

// Drains and names.

/// A broker that goes on delivering is not quiet, whatever else it says; one that does not say
/// is quiet, or empty, once it is drained; and what a broker says of the goal itself counts.
pub proof fn law_drain_goals_are_reached_as_reported(status: DrainStatus)
    ensures
        status.delivery_frozen == Some(false) ==> !status.reached(DrainGoal::Quiesced),
        status.delivery_frozen == Some(true) && status.quiesced is Some ==> status.reached(
            DrainGoal::Quiesced,
        ) == status.quiesced->0,
        status.delivery_frozen is None || (status.delivery_frozen == Some(true)
            && status.quiesced is None) ==> status.reached(DrainGoal::Quiesced) == status.drained,
        status.empty is Some ==> status.reached(DrainGoal::Empty) == status.empty->0,
        status.empty is None ==> status.reached(DrainGoal::Empty) == status.drained,
{
}

/// The name of a broker's pod ends in its ordinal.
pub proof fn law_pod_names_end_in_their_ordinal(cluster: Seq<char>, ordinal: u32)
    ensures
        ordinal_of(pod_name(cluster, ordinal as int)) == Some(ordinal as nat),
        names_broker(cluster, pod_name(cluster, ordinal as int)),
{
    let name = pod_name(cluster, ordinal as int);
    let d = text::dec(ordinal as nat);
    reveal_strlit("-");
    text::lemma_dec_value(ordinal as nat);
    text::lemma_dec_round_trip(ordinal as nat, u32::MAX as nat);
    assert(name =~= cluster + "-"@ + d);
    assert(name.take(cluster.len() as int + 1) =~= cluster + "-"@);
    assert(name[cluster.len() as int] == '-');
    assert forall|j: int| cluster.len() < j < name.len() implies name[j] != '-' by {
        assert(name[j] == d[j - cluster.len() as int - 1]);
    }
    text::lemma_after_last(name, '-', cluster.len() as int);
    assert(name.skip(cluster.len() as int + 1) =~= d);
}

/// A cluster shrinks by the broker with its highest ordinal.
pub proof fn law_the_highest_ordinal_leaves_first(
    cluster: Seq<char>,
    pods: Seq<Pod>,
    current: i32,
    i: int,
)
    requires
        is_exact_set(pods, current as int),
        0 <= i < pods.len(),
    ensures
        ordinal_of(pods[i].name@) is Some,
        ordinal_of(pod_name(cluster, current - 1)) is Some,
        ordinal_of(pods[i].name@)->0 <= ordinal_of(pod_name(cluster, current - 1))->0,
{
    law_exact_set_has_distinct_ordinals(pods, current as int);
    law_pod_names_end_in_their_ordinal(cluster, (current - 1) as u32);
}

/// Only a completed rollout is told as completed, and only the broker that is replaced is told
/// as the target.
pub proof fn law_progress_tells_the_decision(
    decision: DecisionView,
    options: RolloutOptions<'_>,
)
    ensures
        settled(decision, options).phase == "Completed"@ <==> decision is Completed,
        settled(decision, options).phase == "Paused"@ <==> decision is Paused,
        settled(decision, options).phase == "AwaitingCanaryApproval"@ <==> decision
            is AwaitingApproval,
        settled(decision, options).phase == "Blocked"@ <==> decision is Blocked,
        settled(decision, options).phase == "Draining"@ <==> decision is Replace,
        settled(decision, options).target is Some <==> decision is Replace,
        decision matches DecisionView::Replace(name) ==> settled(decision, options).target == Some(
            name,
        ),
        decision matches DecisionView::Wait(m) ==> settled(decision, options).message == m,
        decision matches DecisionView::Blocked(m) ==> settled(decision, options).message == m,
        decision matches DecisionView::Resume(_, m) ==> settled(decision, options).message == m,
{
    reveal_strlit("Completed");
    reveal_strlit("Paused");
    reveal_strlit("AwaitingCanaryApproval");
    reveal_strlit("Blocked");
    reveal_strlit("Draining");
    reveal_strlit("WaitingForReady");
    assert("Completed"@.len() == 9 && "Completed"@[0] == 'C');
    assert("Paused"@.len() == 6);
    assert("AwaitingCanaryApproval"@.len() == 22);
    assert("Blocked"@.len() == 7);
    assert("Draining"@.len() == 8);
    assert("WaitingForReady"@.len() == 15);
}

/// The drains that end with a rollout are those of the brokers that run its revision.
pub proof fn law_resumed_addresses_are_of_the_revision(
    pods: Seq<Pod>,
    revision: Seq<char>,
    ip: Seq<char>,
)
    ensures
        addresses_of(pods, revision).contains(ip) <==> exists|i: int|
            0 <= i < pods.len() && revision_of(#[trigger] pods[i]) == Some(revision)
                && pods[i].pod_ip is Some && pods[i].pod_ip->0@ == ip,
    decreases pods.len(),
{
    let all = addresses_of(pods, revision);
    if pods.len() > 0 {
        let d = pods.drop_last();
        let n = pods.len() - 1;
        let before = addresses_of(d, revision);
        law_resumed_addresses_are_of_the_revision(d, revision, ip);
        if all.contains(ip) {
            let w = choose|w: int| 0 <= w < all.len() && all[w] == ip;
            if w < before.len() {
                assert(before[w] == ip);
                let i = choose|i: int|
                    0 <= i < d.len() && revision_of(#[trigger] d[i]) == Some(revision)
                        && d[i].pod_ip is Some && d[i].pod_ip->0@ == ip;
                assert(pods[i] == d[i]);
            } else {
                assert(revision_of(pods[n]) == Some(revision));
            }
        }
        if exists|i: int|
            0 <= i < pods.len() && revision_of(#[trigger] pods[i]) == Some(revision)
                && pods[i].pod_ip is Some && pods[i].pod_ip->0@ == ip {
            let i = choose|i: int|
                0 <= i < pods.len() && revision_of(#[trigger] pods[i]) == Some(revision)
                    && pods[i].pod_ip is Some && pods[i].pod_ip->0@ == ip;
            if i < n {
                assert(d[i] == pods[i]);
                assert(revision_of(d[i]) == Some(revision));
                let w = choose|w: int| 0 <= w < before.len() && before[w] == ip;
                assert(all[w] == ip);
            } else {
                assert(all[all.len() - 1] == ip);
            }
        }
    }
}

/// Asked whether they drain on purpose are the brokers with an address that run another
/// revision and are not ready.
pub proof fn law_suspects_are_outdated_and_down(pods: Seq<Pod>, revision: Seq<char>, i: usize)
    requires
        pods.len() <= usize::MAX,
    ensures
        suspects(pods, revision).contains(i) <==> i < pods.len() && revision_of(pods[i as int])
            != Some(revision) && !nodes::is_ready(pods[i as int]) && pods[i as int].pod_ip is Some,
    decreases pods.len(),
{
    let all = suspects(pods, revision);
    if pods.len() > 0 {
        let d = pods.drop_last();
        let n = pods.len() - 1;
        let before = suspects(d, revision);
        law_suspects_are_outdated_and_down(d, revision, i);
        if before.contains(i) {
            let w = choose|w: int| 0 <= w < before.len() && before[w] == i;
            assert(all[w] == i);
        }
        if all.contains(i) {
            let w = choose|w: int| 0 <= w < all.len() && all[w] == i;
            if w < before.len() {
                assert(before[w] == i);
            }
        }
        if i == n && all.len() > before.len() {
            assert(all[all.len() - 1] == i);
        }
    }
}

/// The origin of a broker's management interface.
pub open spec fn origin_of(ip: Seq<char>) -> Seq<char> {
    if text::has_text(ip, ":"@) {
        "http://["@ + ip + "]:4151"@
    } else {
        "http://"@ + ip + ":4151"@
    }
}

/// The origin of a broker's management interface.
pub fn origin(ip: &str) -> (r: String)
    ensures
        r@ == origin_of(ip@),
{
    if text::contains_text(ip, ":") {
        around("http://[", ip, "]:4151")
    } else {
        around("http://", ip, ":4151")
    }
}

} // verus!
