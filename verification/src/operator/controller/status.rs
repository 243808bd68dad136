//! The status of a RustQueue and its operations.
use crate::digest;
use crate::operator::crd::{
    self, OperationStatus, OperationView, QueueConditionView, QueueStatusView, RustQueue,
    RustQueueCondition, RustQueueStatus,
};
use crate::operator::status;
use crate::text;
use vstd::prelude::*;
use vstd::string::*;
use vstd::utf8::*;

verus! {

/// How many finished operations are remembered.
pub const HISTORY_LIMIT: usize = 20;

/// A status in the making.
pub struct StatusBuilder<'a> {
    pub cluster: &'a RustQueue,
    pub status: RustQueueStatus,
    pub time: String,
}

/// What is known of an operation.
pub struct OperationUpdate<'a> {
    pub id: &'a str,
    pub kind: &'a str,
    pub phase: &'a str,
    pub target: &'a str,
    pub revision: &'a str,
    pub message: &'a str,
    pub previous_image: Option<String>,
    pub current_broker: Option<String>,
}

/// The time in RFC 3339 notation with whole seconds, by `chrono::Utc::now` and
/// `to_rfc3339_opts`. What the clock shows is left open.
#[verifier::external_body]
fn utc_now() -> (r: String) {
    chrono::Utc::now().to_rfc3339_opts(chrono::SecondsFormat::Secs, true)
}

/// What `chrono::DateTime::parse_from_rfc3339` reads from a text: the seconds since the epoch,
/// and the nanoseconds since then. A leap second is more nanoseconds than a second has.
pub uninterp spec fn rfc3339_moment(value: Seq<char>) -> Option<(i64, u32)>;

/// Reads RFC 3339 notation with `chrono::DateTime::parse_from_rfc3339` and gives its
/// `timestamp` and its `timestamp_subsec_nanos`, or `None` where it does not parse.
#[verifier::external_body]
fn moment_of_rfc3339(value: &str) -> (r: Option<(i64, u32)>)
    ensures
        r == rfc3339_moment(value@),
{
    let read = chrono::DateTime::parse_from_rfc3339(value).ok();
    read.map(|t| (t.timestamp(), t.timestamp_subsec_nanos()))
}

/// The time, by `chrono::Utc::now`, as its `timestamp` and its `timestamp_subsec_nanos`. What
/// the clock shows is left open.
#[verifier::external_body]
pub(crate) fn moment_now() -> (r: (i64, u32))
    ensures
        r.1 < 1_000_000_000,
{
    let now = chrono::Utc::now();
    (now.timestamp(), now.timestamp_subsec_nanos())
}

/// The whole seconds between two times, each the seconds since the epoch and the nanoseconds
/// since then. Where the earlier by the clock of a day is a leap second, it counts.
pub open spec fn seconds_between(then: (i64, u32), now: (i64, u32)) -> int {
    let leap: int = if now.0 % 86_400 > then.0 % 86_400 && then.1 >= 1_000_000_000 {
        1
    } else if now.0 % 86_400 < then.0 % 86_400 && now.1 >= 1_000_000_000 {
        -1
    } else {
        0
    };
    now.0 - then.0 + leap + (now.1 - then.1) / 1_000_000_000
}

/// The whole seconds from a time to another. There are none where the first lies ahead.
pub open spec fn seconds_passed(then: (i64, u32), now: (i64, u32)) -> Option<u64> {
    if seconds_between(then, now) < 0 {
        None
    } else {
        Some(seconds_between(then, now) as u64)
    }
}

/// The whole seconds from a time in RFC 3339 notation to another time. There are none where the
/// text cannot be read or the time lies ahead.
pub open spec fn elapsed(started_at: Seq<char>, now: (i64, u32)) -> Option<u64> {
    match rfc3339_moment(started_at) {
        Some(then) => seconds_passed(then, now),
        None => None,
    }
}

/// The second of the day of a time.
fn day_second(seconds: i64) -> (r: i128)
    ensures
        r == seconds % 86_400,
{
    (seconds as i128 + 8_640_000_000_000_000_000_000i128) % 86_400
}

/// The whole seconds from a time to another.
pub fn seconds_since(then: (i64, u32), now: (i64, u32)) -> (r: Option<u64>)
    ensures
        r == seconds_passed(then, now),
{
    let here = day_second(now.0);
    let there = day_second(then.0);
    let leap: i128 = if here > there && then.1 >= 1_000_000_000 {
        1
    } else if here < there && now.1 >= 1_000_000_000 {
        -1
    } else {
        0
    };
    let nanos: i128 = now.1 as i128 - then.1 as i128;
    let part: i128 = (nanos + 5_000_000_000) / 1_000_000_000 - 5;
    let total: i128 = now.0 as i128 - then.0 as i128 + leap + part;
    if total < 0 {
        None
    } else {
        Some(total as u64)
    }
}

/// The whole seconds from a time in RFC 3339 notation to another time.
pub fn elapsed_seconds_at(started_at: &str, now: (i64, u32)) -> (r: Option<u64>)
    ensures
        r == elapsed(started_at@, now),
{
    match moment_of_rfc3339(started_at) {
        Some(then) => seconds_since(then, now),
        None => None,
    }
}

/// The whole seconds since a time in RFC 3339 notation. How many there are depends on the
/// clock.
pub fn elapsed_seconds(started_at: &str) -> (r: Option<u64>)
    ensures
        exists|now: (i64, u32)| r == #[trigger] elapsed(started_at@, now),
{
    elapsed_seconds_at(started_at, moment_now())
}

/// The first condition of a type, from `k` on.
pub open spec fn first_of_type(v: Seq<QueueConditionView>, type_: Seq<char>, k: int) -> Option<int>
    decreases v.len() - k,
{
    if k < 0 || k >= v.len() {
        None
    } else if v[k].type_ == type_ {
        Some(k)
    } else {
        first_of_type(v, type_, k + 1)
    }
}

/// The conditions of other types.
pub open spec fn without_type(v: Seq<QueueConditionView>, type_: Seq<char>) -> Seq<
    QueueConditionView,
>
    decreases v.len(),
{
    if v.len() == 0 {
        v
    } else if v.last().type_ == type_ {
        without_type(v.drop_last(), type_)
    } else {
        without_type(v.drop_last(), type_).push(v.last())
    }
}

/// `v` with `x` inserted behind every condition whose type does not stand after
/// its own.
pub open spec fn insert_condition(v: Seq<QueueConditionView>, x: QueueConditionView) -> Seq<
    QueueConditionView,
>
    decreases v.len(),
{
    if v.len() > 0 && text::text_lt(x.type_, v.last().type_) {
        insert_condition(v.drop_last(), x).push(v.last())
    } else {
        v.push(x)
    }
}

/// The conditions ordered by type, in the given order among equals.
pub open spec fn sorted_conditions(v: Seq<QueueConditionView>) -> Seq<QueueConditionView>
    decreases v.len(),
{
    if v.len() == 0 {
        v
    } else {
        insert_condition(sorted_conditions(v.drop_last()), v.last())
    }
}

/// When a condition last changed: as recorded where its status and reason stay
/// the same, else at the given time.
pub open spec fn transition_time(
    v: Seq<QueueConditionView>,
    type_: Seq<char>,
    value: bool,
    reason: Seq<char>,
    time: Seq<char>,
) -> Seq<char> {
    match first_of_type(v, type_, 0) {
        Some(i) => if v[i].status == status::flag_text(value) && v[i].reason == reason {
            v[i].last_transition_time
        } else {
            time
        },
        None => time,
    }
}

/// The conditions with one of them set.
#[verifier::opaque]
pub open spec fn with_condition(
    v: Seq<QueueConditionView>,
    type_: Seq<char>,
    value: bool,
    reason: Seq<char>,
    message: Seq<char>,
    generation: Option<i64>,
    time: Seq<char>,
) -> Seq<QueueConditionView> {
    sorted_conditions(
        without_type(v, type_).push(
            QueueConditionView {
                type_,
                status: status::flag_text(value),
                reason,
                message,
                observed_generation: generation,
                last_transition_time: transition_time(v, type_, value, reason, time),
            },
        ),
    )
}

impl QueueStatusView {
    /// The status with its phase and message set.
    pub open spec fn summarised(self, phase: Seq<char>, message: Seq<char>) -> QueueStatusView {
        QueueStatusView { phase, message, ..self }
    }

    /// The status with a condition set.
    pub open spec fn said(
        self,
        at: Stamp,
        type_: Seq<char>,
        value: bool,
        reason: Seq<char>,
        message: Seq<char>,
    ) -> QueueStatusView {
        QueueStatusView {
            conditions: with_condition(
                self.conditions,
                type_,
                value,
                reason,
                message,
                at.generation,
                at.time,
            ),
            ..self
        }
    }
}

/// When and of which generation a status speaks.
pub struct Stamp {
    pub generation: Option<i64>,
    pub time: Seq<char>,
}

/// The last operations, at most the limit.
pub open spec fn bounded(history: Seq<OperationView>) -> Seq<OperationView> {
    if history.len() > HISTORY_LIMIT {
        history.skip(history.len() - HISTORY_LIMIT)
    } else {
        history
    }
}

/// The history after an operation with an ID became current: the one it
/// replaces moves into it, unless it stands there last already.
pub open spec fn with_replaced(
    history: Seq<OperationView>,
    current: Option<OperationView>,
    id: Seq<char>,
) -> Seq<OperationView> {
    match current {
        Some(c) => if c.id != id && (history.len() == 0 || history.last().id != c.id) {
            bounded(history.push(c))
        } else {
            history
        },
        None => history,
    }
}

/// Whether an operation in a phase is over.
pub open spec fn is_terminal(phase: Seq<char>) -> bool {
    phase == "Completed"@ || phase == "Failed"@ || phase == "Blocked"@
}

/// The current operation after an update.
pub open spec fn updated_operation(
    current: Option<OperationView>,
    u: OperationUpdate<'_>,
    time: Seq<char>,
) -> OperationView {
    OperationView {
        id: u.id@,
        kind: u.kind@,
        phase: u.phase@,
        target: u.target@,
        revision: u.revision@,
        message: u.message@,
        started_at: if current is Some && current->0.id == u.id@ {
            current->0.started_at
        } else {
            time
        },
        updated_at: time,
        completed_at: if !is_terminal(u.phase@) {
            None
        } else if current is Some && current->0.id == u.id@ && current->0.phase == u.phase@
            && current->0.completed_at is Some {
            current->0.completed_at
        } else {
            Some(time)
        },
        previous_image: text::opt_text(u.previous_image),
        current_broker: text::opt_text(u.current_broker),
    }
}

/// The status before anything was observed.
pub open spec fn no_status() -> QueueStatusView {
    QueueStatusView {
        observed_generation: None,
        desired_brokers: 0,
        ready_brokers: 0,
        phase: Seq::empty(),
        message: Seq::empty(),
        active_storage_feature_level: 0,
        conditions: Seq::empty(),
        current_operation: None,
        operation_history: Seq::empty(),
        orphaned_pvcs: Seq::empty(),
        desired_storage_size: Seq::empty(),
        kodo_producer_restart_baseline_nonce: None,
    }
}

/// The recorded status.
pub open spec fn previous_status(cluster: RustQueue) -> QueueStatusView {
    match cluster.status {
        Some(s) => s@,
        None => no_status(),
    }
}

/// The status that a builder starts from.
pub open spec fn initial_status(
    cluster: RustQueue,
    desired: i32,
    ready: i32,
    feature_level: u32,
) -> QueueStatusView {
    QueueStatusView {
        observed_generation: cluster.metadata.generation,
        desired_brokers: desired,
        ready_brokers: ready,
        active_storage_feature_level: feature_level,
        desired_storage_size: cluster.spec.storage_size@,
        ..previous_status(cluster)
    }
}

fn clone_conditions(v: &Vec<RustQueueCondition>) -> (r: Vec<RustQueueCondition>)
    ensures
        r@ == v@,
{
    let mut out: Vec<RustQueueCondition> = Vec::new();
    let mut i: usize = 0;
    while i < v.len()
        invariant
            i <= v@.len(),
            out@ == v@.take(i as int),
        decreases v@.len() - i,
    {
        out.push(v[i].duplicate());
        i += 1;
        assert(v@.take(i as int) =~= v@.take(i - 1).push(v@[i - 1]));
    }
    assert(v@.take(v@.len() as int) =~= v@);
    out
}

fn clone_operations(v: &Vec<OperationStatus>) -> (r: Vec<OperationStatus>)
    ensures
        r@ == v@,
{
    let mut out: Vec<OperationStatus> = Vec::new();
    let mut i: usize = 0;
    while i < v.len()
        invariant
            i <= v@.len(),
            out@ == v@.take(i as int),
        decreases v@.len() - i,
    {
        out.push(v[i].duplicate());
        i += 1;
        assert(v@.take(i as int) =~= v@.take(i - 1).push(v@[i - 1]));
    }
    assert(v@.take(v@.len() as int) =~= v@);
    out
}

fn find_type(v: &Vec<RustQueueCondition>, type_: &str) -> (r: Option<usize>)
    ensures
        match r {
            Some(i) => i < v@.len() && first_of_type(crd::queue_conditions(v@), type_@, 0) == Some(
                i as int,
            ),
            None => first_of_type(crd::queue_conditions(v@), type_@, 0) is None,
        },
{
    let ghost views = crd::queue_conditions(v@);
    let mut i: usize = 0;
    while i < v.len()
        invariant
            i <= v@.len(),
            views == crd::queue_conditions(v@),
            first_of_type(views, type_@, 0) == first_of_type(views, type_@, i as int),
        decreases v@.len() - i,
    {
        assert(views[i as int] == v@[i as int]@);
        if text::str_eq(v[i].type_.as_str(), type_) {
            return Some(i);
        }
        i += 1;
    }
    None
}

proof fn lemma_insert_condition(v: Seq<QueueConditionView>, x: QueueConditionView, k: int)
    requires
        0 <= k <= v.len(),
        forall|j: int| k <= j < v.len() ==> text::text_lt(x.type_, (#[trigger] v[j]).type_),
        k > 0 ==> !text::text_lt(x.type_, v[k - 1].type_),
    ensures
        insert_condition(v, x) == v.insert(k, x),
    decreases v.len(),
{
    if k == v.len() {
        assert(v.insert(k, x) =~= v.push(x));
    } else {
        lemma_insert_condition(v.drop_last(), x, k);
        assert(v.drop_last().insert(k, x).push(v.last()) =~= v.insert(k, x));
    }
}

fn place_condition(v: &mut Vec<RustQueueCondition>, x: RustQueueCondition)
    ensures
        crd::queue_conditions(final(v)@) == insert_condition(crd::queue_conditions(old(v)@), x@),
{
    let ghost views = crd::queue_conditions(v@);
    let mut k: usize = v.len();
    while k > 0 && text::text_before(x.type_.as_str(), v[k - 1].type_.as_str())
        invariant
            k <= v@.len(),
            v@ == old(v)@,
            views == crd::queue_conditions(v@),
            forall|j: int|
                k <= j < v@.len() ==> text::text_lt(x.type_@, (#[trigger] views[j]).type_),
        decreases k,
    {
        assert(views[k - 1] == v@[k - 1]@);
        k -= 1;
    }
    proof {
        if k > 0 {
            assert(views[k - 1] == v@[k - 1]@);
        }
        lemma_insert_condition(views, x@, k as int);
        assert(crd::queue_conditions(v@.insert(k as int, x)) =~= views.insert(k as int, x@));
    }
    v.insert(k, x);
}

fn set_condition(v: &Vec<RustQueueCondition>, x: RustQueueCondition) -> (r: Vec<RustQueueCondition>)
    ensures
        crd::queue_conditions(r@) == sorted_conditions(
            without_type(crd::queue_conditions(v@), x.type_@).push(x@),
        ),
{
    let ghost views = crd::queue_conditions(v@);
    let mut out: Vec<RustQueueCondition> = Vec::new();
    let mut i: usize = 0;
    assert(views.take(0) =~= Seq::<QueueConditionView>::empty());
    assert(crd::queue_conditions(out@) =~= sorted_conditions(without_type(views.take(0), x.type_@)));
    while i < v.len()
        invariant
            i <= v@.len(),
            views == crd::queue_conditions(v@),
            crd::queue_conditions(out@) == sorted_conditions(
                without_type(views.take(i as int), x.type_@),
            ),
        decreases v@.len() - i,
    {
        assert(views[i as int] == v@[i as int]@);
        assert(views.take(i + 1).drop_last() =~= views.take(i as int));
        assert(views.take(i + 1).last() == views[i as int]);
        if !text::str_eq(v[i].type_.as_str(), x.type_.as_str()) {
            let ghost w = without_type(views.take(i as int), x.type_@);
            place_condition(&mut out, v[i].duplicate());
            assert(w.push(views[i as int]).drop_last() =~= w);
        }
        i += 1;
    }
    assert(views.take(v@.len() as int) =~= views);
    let ghost w = without_type(views, x.type_@);
    assert(w.push(x@).drop_last() =~= w);
    place_condition(&mut out, x);
    out
}

impl<'a> StatusBuilder<'a> {
    /// When and of which generation the status speaks.
    pub open spec fn stamp(self) -> Stamp {
        Stamp { generation: self.cluster.metadata.generation, time: self.time@ }
    }

    /// Starts from the recorded status, at a time.
    pub fn new_at(
        cluster: &'a RustQueue,
        desired: i32,
        ready: i32,
        feature_level: u32,
        time: String,
    ) -> (r: Self)
        ensures
            r.status@ == initial_status(*cluster, desired, ready, feature_level),
            r.time == time,
            r.cluster == cluster,
    {
        let status = match &cluster.status {
            Some(p) => RustQueueStatus {
                observed_generation: cluster.metadata.generation,
                desired_brokers: desired,
                ready_brokers: ready,
                phase: p.phase.clone(),
                message: p.message.clone(),
                active_storage_feature_level: feature_level,
                conditions: clone_conditions(&p.conditions),
                current_operation: match &p.current_operation {
                    Some(o) => Some(o.duplicate()),
                    None => None,
                },
                operation_history: clone_operations(&p.operation_history),
                orphaned_pvcs: text::clone_texts(&p.orphaned_pvcs),
                desired_storage_size: cluster.spec.storage_size.clone(),
                kodo_producer_restart_baseline_nonce: text::clone_opt(
                    &p.kodo_producer_restart_baseline_nonce,
                ),
            },
            None => {
                let s = RustQueueStatus {
                    observed_generation: cluster.metadata.generation,
                    desired_brokers: desired,
                    ready_brokers: ready,
                    phase: String::new(),
                    message: String::new(),
                    active_storage_feature_level: feature_level,
                    conditions: Vec::new(),
                    current_operation: None,
                    operation_history: Vec::new(),
                    orphaned_pvcs: Vec::new(),
                    desired_storage_size: cluster.spec.storage_size.clone(),
                    kodo_producer_restart_baseline_nonce: None,
                };
                assert(s@.conditions =~= Seq::empty());
                assert(s@.operation_history =~= Seq::empty());
                assert(s@.orphaned_pvcs =~= Seq::empty());
                s
            },
        };
        StatusBuilder { cluster, status, time }
    }

    /// Starts from the recorded status, now.
    pub fn new(cluster: &'a RustQueue, desired: i32, ready: i32, feature_level: u32) -> (r: Self)
        ensures
            r.status@ == initial_status(*cluster, desired, ready, feature_level),
            r.cluster == cluster,
    {
        StatusBuilder::new_at(cluster, desired, ready, feature_level, utc_now())
    }

    /// Sets the phase and its message.
    pub fn summary(self, phase: &str, message: &str) -> (r: Self)
        ensures
            r.status@ == self.status@.summarised(phase@, message@),
            r.time == self.time,
            r.cluster == self.cluster,
    {
        let mut r = self;
        r.status.phase = phase.to_owned();
        r.status.message = message.to_owned();
        r
    }

    /// Sets a condition. Its transition time stays where its status and reason
    /// do.
    pub fn condition(self, type_: &str, value: bool, reason: &str, message: &str) -> (r: Self)
        ensures
            r.status@ == self.status@.said(self.stamp(), type_@, value, reason@, message@),
            r.time == self.time,
            r.cluster == self.cluster,
    {
        reveal(with_condition);
        let mut r = self;
        let flag = status::flag(value);
        let mut transition = r.time.clone();
        if let Some(i) = find_type(&r.status.conditions, type_) {
            let previous = &r.status.conditions[i];
            assert(r.status@.conditions[i as int] == previous@);
            if text::str_eq(previous.status.as_str(), flag.as_str()) && text::str_eq(
                previous.reason.as_str(),
                reason,
            ) {
                transition = previous.last_transition_time.clone();
            }
        }
        let x = RustQueueCondition {
            type_: type_.to_owned(),
            status: flag,
            reason: reason.to_owned(),
            message: message.to_owned(),
            observed_generation: r.cluster.metadata.generation,
            last_transition_time: transition,
        };
        r.status.conditions = set_condition(&r.status.conditions, x);
        r
    }

    /// Sets the current operation. One that it replaces moves into the history,
    /// which keeps the last twenty.
    pub fn operation(self, update: OperationUpdate<'_>) -> (r: Self)
        ensures
            r.status@ == (QueueStatusView {
                current_operation: Some(
                    updated_operation(self.status@.current_operation, update, self.time@),
                ),
                operation_history: with_replaced(
                    self.status@.operation_history,
                    self.status@.current_operation,
                    update.id@,
                ),
                ..self.status@
            }),
            r.time == self.time,
            r.cluster == self.cluster,
    {
        let mut r = self;
        let mut started_at = r.time.clone();
        let mut previous_completed_at: Option<String> = None;
        let ghost history = r.status@.operation_history;
        match &r.status.current_operation {
            Some(c) => {
                if text::str_eq(c.id.as_str(), update.id) {
                    started_at = c.started_at.clone();
                    if text::str_eq(c.phase.as_str(), update.phase) {
                        previous_completed_at = text::clone_opt(&c.completed_at);
                    }
                } else {
                    let n: usize = r.status.operation_history.len();
                    let known = if n == 0 {
                        false
                    } else {
                        assert(history[n - 1] == r.status.operation_history@[n - 1]@);
                        text::str_eq(
                            r.status.operation_history[n - 1].id.as_str(),
                            c.id.as_str(),
                        )
                    };
                    if !known {
                        let pushed = push_bounded(&r.status.operation_history, c.duplicate());
                        r.status.operation_history = pushed;
                    }
                }
            },
            None => {},
        }
        let terminal = text::str_eq(update.phase, "Completed") || text::str_eq(
            update.phase,
            "Failed",
        ) || text::str_eq(update.phase, "Blocked");
        let completed_at = if terminal {
            match previous_completed_at {
                Some(t) => Some(t),
                None => Some(r.time.clone()),
            }
        } else {
            None
        };
        r.status.current_operation = Some(
            OperationStatus {
                id: update.id.to_owned(),
                kind: update.kind.to_owned(),
                phase: update.phase.to_owned(),
                target: update.target.to_owned(),
                revision: update.revision.to_owned(),
                message: update.message.to_owned(),
                started_at,
                updated_at: r.time.clone(),
                completed_at,
                previous_image: update.previous_image,
                current_broker: update.current_broker,
            },
        );
        r
    }

    /// Sets the claims that no broker uses.
    pub fn orphaned_pvcs(self, pvcs: Vec<String>) -> (r: Self)
        ensures
            r.status@ == (QueueStatusView {
                orphaned_pvcs: text::texts(pvcs@),
                ..self.status@
            }),
            r.time == self.time,
            r.cluster == self.cluster,
    {
        let mut r = self;
        r.status.orphaned_pvcs = pvcs;
        r
    }

    /// Sets the nonce that a producer restart has to change.
    pub fn kodo_producer_restart_baseline_nonce(self, nonce: Option<String>) -> (r: Self)
        ensures
            r.status@ == (QueueStatusView {
                kodo_producer_restart_baseline_nonce: text::opt_text(nonce),
                ..self.status@
            }),
            r.time == self.time,
            r.cluster == self.cluster,
    {
        let mut r = self;
        r.status.kodo_producer_restart_baseline_nonce = nonce;
        r
    }

    /// The finished status.
    pub fn build(self) -> (r: RustQueueStatus)
        ensures
            r == self.status,
    {
        self.status
    }
}

fn push_bounded(history: &Vec<OperationStatus>, x: OperationStatus) -> (r: Vec<OperationStatus>)
    ensures
        crd::operations(r@) == bounded(crd::operations(history@).push(x@)),
{
    let ghost whole = crd::operations(history@).push(x@);
    let n: usize = history.len();
    let from: usize = if n >= HISTORY_LIMIT {
        n - (HISTORY_LIMIT - 1)
    } else {
        0
    };
    let mut out: Vec<OperationStatus> = Vec::new();
    let mut i: usize = from;
    while i < n
        invariant
            from <= i <= n,
            n == history@.len(),
            out@ == history@.subrange(from as int, i as int),
        decreases n - i,
    {
        out.push(history[i].duplicate());
        i += 1;
        assert(history@.subrange(from as int, i as int) =~= history@.subrange(
            from as int,
            i - 1,
        ).push(history@[i - 1]));
    }
    let ghost kept = out@;
    out.push(x);
    assert(crd::operations(out@) =~= whole.skip(from as int));
    assert(whole.skip(0) =~= whole);
    out
}

/// The ID of an operation.
pub open spec fn operation_tag(kind: Seq<char>, target: Seq<char>, revision: Seq<char>) -> Seq<
    char,
> {
    kind + "-"@ + text::hex_fixed(
        digest::crc32c(encode_utf8(target + "\0"@ + revision)) as nat,
        8,
    )
}

/// The ID that a checksum gives an operation.
pub fn operation_id_of(kind: &str, checksum: u32) -> (r: String)
    ensures
        r@ == kind@ + "-"@ + text::hex_fixed(checksum as nat, 8),
{
    let mut r = kind.to_owned();
    r.append("-");
    r.append(text::hex_digits(checksum as u64, 8).as_str());
    r
}

/// The ID of an operation: its kind and a checksum of its target and revision.
pub fn operation_id(kind: &str, target: &str, revision: &str) -> (r: String)
    ensures
        r@ == operation_tag(kind@, target@, revision@),
{
    let mut content = target.to_owned();
    content.append("\0");
    content.append(revision);
    operation_id_of(kind, digest::crc32c_of(content.as_str().as_bytes()))
}

/// The history stays within its limit.
pub proof fn law_history_is_bounded(
    history: Seq<OperationView>,
    current: Option<OperationView>,
    id: Seq<char>,
)
    requires
        history.len() <= HISTORY_LIMIT,
    ensures
        with_replaced(history, current, id).len() <= HISTORY_LIMIT,
{
}

/// An operation that another one replaces is the last of the history.
pub proof fn law_replaced_operation_is_remembered(
    history: Seq<OperationView>,
    current: OperationView,
    id: Seq<char>,
)
    requires
        current.id != id,
    ensures
        ({
            let h = with_replaced(history, Some(current), id);
            h.len() > 0 && h.last().id == current.id
        }),
{
}

/// An operation that is over keeps the time at which it was first over.
pub proof fn law_terminal_operation_keeps_its_completion_time(
    current: OperationView,
    u: OperationUpdate<'_>,
    time: Seq<char>,
)
    requires
        current.id == u.id@,
        current.phase == u.phase@,
        is_terminal(u.phase@),
        current.completed_at is Some,
    ensures
        updated_operation(Some(current), u, time).completed_at == current.completed_at,
        updated_operation(Some(current), u, time).started_at == current.started_at,
{
}

proof fn lemma_without_type(v: Seq<QueueConditionView>, type_: Seq<char>)
    ensures
        forall|i: int|
            0 <= i < without_type(v, type_).len() ==> (#[trigger] without_type(v, type_)[i]).type_
                != type_,
    decreases v.len(),
{
    if v.len() > 0 {
        lemma_without_type(v.drop_last(), type_);
    }
}

/// Whether the types stand in order.
pub open spec fn types_sorted(v: Seq<QueueConditionView>) -> bool {
    forall|i: int, j: int|
        0 <= i <= j < v.len() ==> text::text_le((#[trigger] v[i]).type_, (#[trigger] v[j]).type_)
}

proof fn lemma_insert_condition_keeps(v: Seq<QueueConditionView>, x: QueueConditionView)
    ensures
        insert_condition(v, x).to_multiset() == v.to_multiset().insert(x),
        types_sorted(v) ==> types_sorted(insert_condition(v, x)),
        forall|i: int|
            0 <= i < insert_condition(v, x).len() ==> (#[trigger] insert_condition(v, x)[i]) == x
                || v.contains(insert_condition(v, x)[i]),
    decreases v.len(),
{
    broadcast use vstd::seq_lib::group_to_multiset_ensures;

    let r = insert_condition(v, x);
    if v.len() > 0 && text::text_lt(x.type_, v.last().type_) {
        let d = v.drop_last();
        let q = insert_condition(d, x);
        lemma_insert_condition_keeps(d, x);
        assert(v =~= d.push(v.last()));
        assert forall|i: int| 0 <= i < r.len() implies (#[trigger] r[i]) == x || v.contains(
            r[i],
        ) by {
            if i < q.len() {
                assert(r[i] == q[i]);
                if q[i] != x {
                    let w = choose|w: int| 0 <= w < d.len() && d[w] == q[i];
                    assert(v[w] == r[i]);
                }
            } else {
                assert(v[v.len() - 1] == r[i]);
            }
        }
        if types_sorted(v) {
            assert(types_sorted(d)) by {
                assert forall|i: int, j: int| 0 <= i <= j < d.len() implies text::text_le(
                    (#[trigger] d[i]).type_,
                    (#[trigger] d[j]).type_,
                ) by {
                    assert(text::text_le(v[i].type_, v[j].type_));
                }
            }
            assert forall|i: int, j: int| 0 <= i <= j < r.len() implies text::text_le(
                (#[trigger] r[i]).type_,
                (#[trigger] r[j]).type_,
            ) by {
                if j == r.len() - 1 {
                    if i < j {
                        if q[i] == x {
                            text::lemma_text_lt_total(x.type_, v.last().type_);
                        } else {
                            let w = choose|w: int| 0 <= w < d.len() && d[w] == q[i];
                            assert(text::text_le(v[w].type_, v[v.len() - 1].type_));
                        }
                    } else {
                        text::lemma_text_lt_irreflexive(r[i].type_);
                    }
                } else {
                    assert(text::text_le(q[i].type_, q[j].type_));
                }
            }
        }
    } else {
        assert forall|i: int| 0 <= i < r.len() implies (#[trigger] r[i]) == x || v.contains(
            r[i],
        ) by {
            if i < v.len() {
                assert(v[i] == r[i]);
            }
        }
        if types_sorted(v) {
            assert forall|i: int, j: int| 0 <= i <= j < r.len() implies text::text_le(
                (#[trigger] r[i]).type_,
                (#[trigger] r[j]).type_,
            ) by {
                if j == r.len() - 1 {
                    if i < j {
                        assert(text::text_le(v[i].type_, v[v.len() - 1].type_));
                        text::lemma_text_le_transitive(v[i].type_, v.last().type_, x.type_);
                    } else {
                        text::lemma_text_lt_irreflexive(r[i].type_);
                    }
                } else {
                    assert(text::text_le(v[i].type_, v[j].type_));
                }
            }
        }
    }
}

proof fn lemma_sorted_conditions(v: Seq<QueueConditionView>)
    ensures
        types_sorted(sorted_conditions(v)),
        sorted_conditions(v).to_multiset() == v.to_multiset(),
    decreases v.len(),
{
    broadcast use vstd::seq_lib::group_to_multiset_ensures;

    if v.len() > 0 {
        lemma_sorted_conditions(v.drop_last());
        lemma_insert_condition_keeps(sorted_conditions(v.drop_last()), v.last());
        assert(v =~= v.drop_last().push(v.last()));
    }
}

/// Setting a condition orders the conditions by type and leaves every condition
/// of another type as it was.
pub proof fn law_conditions_are_ordered_and_others_stay(
    v: Seq<QueueConditionView>,
    type_: Seq<char>,
    value: bool,
    reason: Seq<char>,
    message: Seq<char>,
    generation: Option<i64>,
    time: Seq<char>,
)
    ensures
        ({
            let r = with_condition(v, type_, value, reason, message, generation, time);
            let x = QueueConditionView {
                type_,
                status: status::flag_text(value),
                reason,
                message,
                observed_generation: generation,
                last_transition_time: transition_time(v, type_, value, reason, time),
            };
            &&& types_sorted(r)
            &&& r.to_multiset() == without_type(v, type_).to_multiset().insert(x)
            &&& forall|i: int|
                0 <= i < without_type(v, type_).len() ==> (#[trigger] without_type(
                    v,
                    type_,
                )[i]).type_ != type_
        }),
{
    broadcast use vstd::seq_lib::group_to_multiset_ensures;

    reveal(with_condition);
    let x = QueueConditionView {
        type_,
        status: status::flag_text(value),
        reason,
        message,
        observed_generation: generation,
        last_transition_time: transition_time(v, type_, value, reason, time),
    };
    lemma_sorted_conditions(without_type(v, type_).push(x));
    lemma_without_type(v, type_);
}

/// A condition whose status and reason stay the same keeps its transition time.
pub proof fn law_unchanged_condition_keeps_its_transition_time(
    v: Seq<QueueConditionView>,
    type_: Seq<char>,
    value: bool,
    reason: Seq<char>,
    time: Seq<char>,
    i: int,
)
    requires
        first_of_type(v, type_, 0) == Some(i),
        v[i].status == status::flag_text(value),
        v[i].reason == reason,
    ensures
        transition_time(v, type_, value, reason, time) == v[i].last_transition_time,
{
}

/// Whether some conditions say of a type that it is so, or that it is not, for a reason and
/// with a message, and say nothing else of it.
pub open spec fn shows(
    v: Seq<QueueConditionView>,
    type_: Seq<char>,
    value: bool,
    reason: Seq<char>,
    message: Seq<char>,
) -> bool {
    &&& exists|i: int| 0 <= i < v.len() && (#[trigger] v[i]).type_ == type_
    &&& forall|i: int|
        0 <= i < v.len() && (#[trigger] v[i]).type_ == type_ ==> {
            &&& v[i].status == if value {
                "True"@
            } else {
                "False"@
            }
            &&& v[i].reason == reason
            &&& v[i].message == message
        }
}

proof fn lemma_others_stay(v: Seq<QueueConditionView>, type_: Seq<char>, y: QueueConditionView)
    ensures
        without_type(v, type_).contains(y) <==> v.contains(y) && y.type_ != type_,
    decreases v.len(),
{
    let r = without_type(v, type_);
    if v.len() > 0 {
        let d = v.drop_last();
        let q = without_type(d, type_);
        lemma_others_stay(d, type_, y);
        if d.contains(y) {
            let w = d.index_of(y);
            assert(v[w] == y);
        }
        if v.contains(y) {
            let w = v.index_of(y);
            if w < d.len() {
                assert(d[w] == y);
            }
        }
        assert(v[v.len() - 1] == v.last());
        if v.last().type_ != type_ {
            if q.contains(y) {
                let w = q.index_of(y);
                assert(r[w] == y);
            }
            if r.contains(y) {
                let w = r.index_of(y);
                if w < q.len() {
                    assert(q[w] == y);
                }
            }
            assert(r[r.len() - 1] == v.last());
        }
    }
}

/// What is said of a type is what the conditions show of it from then on, at the generation
/// and since the time at which it was said or came to be so; what they show of any other type
/// stays.
pub proof fn law_what_is_said_is_shown(
    s: QueueStatusView,
    at: Stamp,
    type_: Seq<char>,
    value: bool,
    reason: Seq<char>,
    message: Seq<char>,
    y: QueueConditionView,
)
    ensures
        shows(s.said(at, type_, value, reason, message).conditions, type_, value, reason, message),
        y.type_ != type_ ==> (s.said(at, type_, value, reason, message).conditions.contains(y)
            <==> s.conditions.contains(y)),
        y.type_ == type_ && s.said(at, type_, value, reason, message).conditions.contains(y)
            ==> y.observed_generation == at.generation && (y.last_transition_time == at.time
            || exists|x: QueueConditionView| #[trigger]
            s.conditions.contains(x) && x.type_ == type_ && x.status == y.status && x.reason
                == y.reason && x.last_transition_time == y.last_transition_time),
{
    broadcast use vstd::seq_lib::group_to_multiset_ensures;

    let v = s.conditions;
    let r = s.said(at, type_, value, reason, message).conditions;
    let x = QueueConditionView {
        type_,
        status: status::flag_text(value),
        reason,
        message,
        observed_generation: at.generation,
        last_transition_time: transition_time(v, type_, value, reason, at.time),
    };
    law_conditions_are_ordered_and_others_stay(
        v,
        type_,
        value,
        reason,
        message,
        at.generation,
        at.time,
    );
    let w = without_type(v, type_);
    assert(r.to_multiset().count(x) > 0);
    assert(r.contains(x));
    let i = r.index_of(x);
    assert(r[i].type_ == type_);
    assert forall|j: int| 0 <= j < r.len() && (#[trigger] r[j]).type_ == type_ implies r[j]
        == x by {
        assert(r.contains(r[j]));
        if r[j] != x {
            assert(r.to_multiset().count(r[j]) > 0);
            assert(w.to_multiset().count(r[j]) > 0);
            assert(w.contains(r[j]));
            lemma_others_stay(v, type_, r[j]);
        }
    }
    lemma_others_stay(v, type_, y);
    if y.type_ != type_ {
        assert(r.contains(y) <==> r.to_multiset().count(y) > 0);
        assert(w.contains(y) <==> w.to_multiset().count(y) > 0);
    } else if r.contains(y) {
        let j = r.index_of(y);
        assert(r[j].type_ == type_);
        lemma_first_of_type(v, type_, 0);
        if first_of_type(v, type_, 0) is Some {
            let k = first_of_type(v, type_, 0)->0;
            assert(v.contains(v[k]));
        }
    }
}

proof fn lemma_first_of_type(v: Seq<QueueConditionView>, type_: Seq<char>, k: int)
    requires
        k >= 0,
    ensures
        first_of_type(v, type_, k) matches Some(i) ==> k <= i < v.len() && v[i].type_ == type_,
    decreases v.len() - k,
{
    if k < v.len() && v[k].type_ != type_ {
        lemma_first_of_type(v, type_, k + 1);
    }
}

/// What is shown of a type is still shown after something was said of another one.
pub proof fn lemma_still_shown(
    s: QueueStatusView,
    at: Stamp,
    type_: Seq<char>,
    value: bool,
    reason: Seq<char>,
    message: Seq<char>,
    other: Seq<char>,
    b: bool,
    r: Seq<char>,
    m: Seq<char>,
)
    requires
        shows(s.conditions, other, b, r, m),
        other != type_,
    ensures
        shows(s.said(at, type_, value, reason, message).conditions, other, b, r, m),
{
    let v = s.conditions;
    let q = s.said(at, type_, value, reason, message).conditions;
    let i = choose|i: int| 0 <= i < v.len() && (#[trigger] v[i]).type_ == other;
    assert(v.contains(v[i]));
    law_what_is_said_is_shown(s, at, type_, value, reason, message, v[i]);
    let j = q.index_of(v[i]);
    assert(q[j].type_ == other);
    assert forall|j: int| 0 <= j < q.len() && (#[trigger] q[j]).type_ == other implies v.contains(
        q[j],
    ) by {
        assert(q.contains(q[j]));
        law_what_is_said_is_shown(s, at, type_, value, reason, message, q[j]);
    }
    assert forall|j: int| 0 <= j < q.len() && (#[trigger] q[j]).type_ == other implies {
        &&& q[j].status == if b {
            "True"@
        } else {
            "False"@
        }
        &&& q[j].reason == r
        &&& q[j].message == m
    } by {
        assert(v.contains(q[j]));
        let k = v.index_of(q[j]);
        assert(v[k].type_ == other);
    }
}

/// An operation began when it first had its ID, and is over exactly where its phase is
/// `Completed`, `Failed` or `Blocked`, since the time at which it came to that phase.
pub proof fn law_operations_have_their_times(
    current: Option<OperationView>,
    u: OperationUpdate<'_>,
    time: Seq<char>,
)
    ensures
        ({
            let r = updated_operation(current, u, time);
            let over = u.phase@ == "Completed"@ || u.phase@ == "Failed"@ || u.phase@ == "Blocked"@;
            let goes_on = current is Some && current->0.id == u.id@;
            &&& r.id == u.id@ && r.phase == u.phase@ && r.target == u.target@
            &&& r.revision == u.revision@ && r.kind == u.kind@ && r.message == u.message@
            &&& r.updated_at == time
            &&& goes_on ==> r.started_at == current->0.started_at
            &&& !goes_on ==> r.started_at == time
            &&& r.completed_at is Some <==> over
            &&& over && !(goes_on && current->0.phase == u.phase@) ==> r.completed_at == Some(time)
        }),
{
}

/// A new status tells what was observed, and keeps the phase, the conditions and the operations
/// of the one before.
pub proof fn law_new_statuses_keep_what_was_said(
    cluster: RustQueue,
    desired: i32,
    ready: i32,
    feature_level: u32,
)
    ensures
        ({
            let r = initial_status(cluster, desired, ready, feature_level);
            &&& r.observed_generation == cluster.metadata.generation
            &&& r.desired_brokers == desired
            &&& r.ready_brokers == ready
            &&& r.active_storage_feature_level == feature_level
            &&& r.desired_storage_size == cluster.spec.storage_size@
            &&& cluster.status is Some ==> {
                let s = cluster.status->0@;
                &&& r.conditions == s.conditions
                &&& r.current_operation == s.current_operation
                &&& r.operation_history == s.operation_history
                &&& r.orphaned_pvcs == s.orphaned_pvcs
                &&& r.kodo_producer_restart_baseline_nonce
                    == s.kodo_producer_restart_baseline_nonce
            }
            &&& cluster.status is None ==> r.conditions.len() == 0 && r.current_operation is None
                && r.operation_history.len() == 0
        }),
{
}

/// An operation that gives way to one of another ID is remembered as the newest, unless it is
/// already; what was remembered before stays, but for the oldest where there are twenty.
pub proof fn law_histories_grow_at_their_end(
    history: Seq<OperationView>,
    current: Option<OperationView>,
    id: Seq<char>,
    i: int,
)
    requires
        history.len() <= 20,
        0 <= i < history.len(),
    ensures
        ({
            let h = with_replaced(history, current, id);
            &&& current is None || current->0.id == id ==> h == history
            &&& current is Some && current->0.id != id && history.last().id != current->0.id
                ==> h.last() == current->0
            &&& h == history || (h.len() <= 20 && (history.len() < 20 ==> h[i] == history[i]) && (
            history.len() == 20 && i > 0 ==> h[i - 1] == history[i]))
        }),
{
}

/// Whole seconds are counted from a moment on, and none before it.
pub proof fn law_seconds_are_whole_and_passed(then: (i64, u32), now: (i64, u32))
    requires
        then.1 < 1_000_000_000,
        now.1 < 1_000_000_000,
    ensures
        ({
            let nanos = (now.0 - then.0) * 1_000_000_000 + now.1 - then.1;
            &&& seconds_passed(then, now) is None <==> nanos < 0
            &&& nanos >= 0 ==> seconds_passed(then, now)->0 * 1_000_000_000 <= nanos < (
            seconds_passed(then, now)->0 + 1) * 1_000_000_000
        }),
{
    assert((now.1 - then.1) / 1_000_000_000 == if now.1 >= then.1 {
        0int
    } else {
        -1int
    });
}

/// Whether some conditions say of a type that it is so, or that it is not.
pub open spec fn tells(v: Seq<QueueConditionView>, type_: Seq<char>, value: bool) -> bool {
    exists|reason: Seq<char>, message: Seq<char>| #[trigger]
        shows(v, type_, value, reason, message)
}

/// What is said is shown, and what was shown of another type still is.
pub proof fn lemma_said(
    s: QueueStatusView,
    at: Stamp,
    type_: Seq<char>,
    value: bool,
    reason: Seq<char>,
    message: Seq<char>,
)
    ensures
        shows(s.said(at, type_, value, reason, message).conditions, type_, value, reason, message),
        forall|o: Seq<char>, b: bool, r: Seq<char>, m: Seq<char>|
            o != type_ && shows(s.conditions, o, b, r, m) ==> #[trigger] shows(
                s.said(at, type_, value, reason, message).conditions,
                o,
                b,
                r,
                m,
            ),
{
    let y = QueueConditionView {
        type_,
        status: reason,
        reason,
        message,
        observed_generation: None,
        last_transition_time: at.time,
    };
    law_what_is_said_is_shown(s, at, type_, value, reason, message, y);
    assert forall|o: Seq<char>, b: bool, r: Seq<char>, m: Seq<char>|
        o != type_ && shows(s.conditions, o, b, r, m) implies #[trigger] shows(
        s.said(at, type_, value, reason, message).conditions,
        o,
        b,
        r,
        m,
    ) by {
        lemma_still_shown(s, at, type_, value, reason, message, o, b, r, m);
    }
}

} // verus!
