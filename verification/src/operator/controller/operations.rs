//! The operation that a cluster is in: scaling, maintenance, or a rollout.
use crate::operator::controller::drain::{self, Progress, ProgressView};
use crate::operator::controller::status::{self, OperationUpdate, StatusBuilder};
use crate::operator::crd::{
    BrokerMaintenance, OperationStatus, OperationView, QueueStatusView, RustQueue,
};
use crate::text;
use crate::text_list;
use vstd::prelude::*;
use vstd::string::*;

verus! {

/// An operation to be recorded.
#[derive(Debug)]
pub struct PendingOperation {
    pub id: String,
    pub kind: String,
    pub phase: String,
    pub target: String,
    pub revision: String,
    pub message: String,
    pub previous_image: Option<String>,
    pub current_broker: Option<String>,
}

/// `PendingOperation` as values.
pub struct PendingView {
    pub id: Seq<char>,
    pub kind: Seq<char>,
    pub phase: Seq<char>,
    pub target: Seq<char>,
    pub revision: Seq<char>,
    pub message: Seq<char>,
    pub previous_image: Option<Seq<char>>,
    pub current_broker: Option<Seq<char>>,
}

impl View for PendingOperation {
    type V = PendingView;

    open spec fn view(&self) -> PendingView {
        PendingView {
            id: self.id@,
            kind: self.kind@,
            phase: self.phase@,
            target: self.target@,
            revision: self.revision@,
            message: self.message@,
            previous_image: text::opt_text(self.previous_image),
            current_broker: text::opt_text(self.current_broker),
        }
    }
}

/// The current operation once a pending one is recorded.
pub open spec fn recorded(
    current: Option<OperationView>,
    p: PendingView,
    time: Seq<char>,
) -> OperationView {
    OperationView {
        id: p.id,
        kind: p.kind,
        phase: p.phase,
        target: p.target,
        revision: p.revision,
        message: p.message,
        started_at: if current is Some && current->0.id == p.id {
            current->0.started_at
        } else {
            time
        },
        updated_at: time,
        completed_at: if !status::is_terminal(p.phase) {
            None
        } else if current is Some && current->0.id == p.id && current->0.phase == p.phase
            && current->0.completed_at is Some {
            current->0.completed_at
        } else {
            Some(time)
        },
        previous_image: p.previous_image,
        current_broker: p.current_broker,
    }
}

impl PendingOperation {
    /// Records the operation in a status.
    pub fn apply<'a>(&self, builder: StatusBuilder<'a>) -> (r: StatusBuilder<'a>)
        ensures
            r.status@ == (QueueStatusView {
                current_operation: Some(
                    recorded(builder.status@.current_operation, self@, builder.time@),
                ),
                operation_history: status::with_replaced(
                    builder.status@.operation_history,
                    builder.status@.current_operation,
                    self.id@,
                ),
                ..builder.status@
            }),
            r.time == builder.time,
            r.cluster == builder.cluster,
    {
        builder.operation(
            OperationUpdate {
                id: self.id.as_str(),
                kind: self.kind.as_str(),
                phase: self.phase.as_str(),
                target: self.target.as_str(),
                revision: self.revision.as_str(),
                message: self.message.as_str(),
                previous_image: text::clone_opt(&self.previous_image),
                current_broker: text::clone_opt(&self.current_broker),
            },
        )
    }

    /// Whether the operation entered a phase that is not recorded yet.
    pub fn audit(&self, cluster: &RustQueue) -> (r: bool)
        ensures
            r == !(current_operation(*cluster) is Some && current_operation(*cluster)->0.id
                == self.id@ && current_operation(*cluster)->0.phase == self.phase@),
    {
        match &cluster.status {
            Some(s) => match &s.current_operation {
                Some(o) => !(text::str_eq(o.id.as_str(), self.id.as_str()) && text::str_eq(
                    o.phase.as_str(),
                    self.phase.as_str(),
                )),
                None => true,
            },
            None => true,
        }
    }
}

/// The recorded operation.
pub open spec fn current_operation(cluster: RustQueue) -> Option<OperationView> {
    status::previous_status(cluster).current_operation
}

/// The phase of a cluster, what is said of it, and its operation.
#[derive(Debug)]
pub struct Report {
    pub phase: String,
    pub message: String,
    pub operation: Option<PendingOperation>,
}

/// `Report` as values.
pub struct ReportView {
    pub phase: Seq<char>,
    pub message: Seq<char>,
    pub operation: Option<PendingView>,
}

impl View for Report {
    type V = ReportView;

    open spec fn view(&self) -> ReportView {
        ReportView {
            phase: self.phase@,
            message: self.message@,
            operation: match self.operation {
                Some(o) => Some(o@),
                None => None,
            },
        }
    }
}

fn plain_report(phase: &str, message: String) -> (r: Report)
    ensures
        r@ == (ReportView { phase: phase@, message: message@, operation: None }),
{
    Report { phase: phase.to_owned(), message, operation: None }
}

/// Whether there are too few nodes for the brokers that are wanted.
pub open spec fn lacks_nodes(eligible: usize, desired: i32, minimum: i32) -> bool {
    desired < minimum || desired < 0 || eligible < desired
}

/// Whether there are too few nodes for the brokers that are wanted.
pub fn insufficient_eligible_nodes(eligible: usize, desired: i32, minimum: i32) -> (r: bool)
    ensures
        r == lacks_nodes(eligible, desired, minimum),
{
    desired < minimum || desired < 0 || eligible < desired as usize
}

/// What is to be done for a cluster.
#[derive(Debug)]
pub enum OperationStep {
    /// End every drain and report that nodes are missing.
    InsufficientNodes,
    /// End every drain and wait for the cutover to the gateways.
    WaitForCutover,
    /// Hold a broker in maintenance.
    Maintain,
    /// Drain the last broker and remove it.
    ScaleDown,
    /// Report.
    Report(Report),
    /// End every drain and report whether the brokers are current.
    Hold,
    /// Replace brokers of an older revision.
    Roll,
}

/// `OperationStep` as values.
pub enum OperationStepView {
    InsufficientNodes,
    WaitForCutover,
    Maintain,
    ScaleDown,
    Report(ReportView),
    Hold,
    Roll,
}

impl View for OperationStep {
    type V = OperationStepView;

    open spec fn view(&self) -> OperationStepView {
        match *self {
            OperationStep::InsufficientNodes => OperationStepView::InsufficientNodes,
            OperationStep::WaitForCutover => OperationStepView::WaitForCutover,
            OperationStep::Maintain => OperationStepView::Maintain,
            OperationStep::ScaleDown => OperationStepView::ScaleDown,
            OperationStep::Report(r) => OperationStepView::Report(r@),
            OperationStep::Hold => OperationStepView::Hold,
            OperationStep::Roll => OperationStepView::Roll,
        }
    }
}

/// The report while brokers are added.
pub open spec fn scale_up_report(desired: i32, current: i32, revision: Seq<char>) -> ReportView {
    let message = "scaling from "@ + text::dec_int(current as int) + " to "@ + text::dec_int(
        desired as int,
    );
    ReportView {
        phase: "Scaling"@,
        message,
        operation: Some(
            PendingView {
                id: status::operation_tag(
                    "scale-up"@,
                    text::dec_int(desired as int),
                    revision,
                ),
                kind: "ScaleUp"@,
                phase: "WaitingForReady"@,
                target: text::dec_int(desired as int),
                revision,
                message,
                previous_image: None,
                current_broker: None,
            },
        ),
    }
}

/// What is to be done for a cluster.
pub open spec fn next_step(
    cluster: RustQueue,
    eligible: usize,
    desired: i32,
    current: i32,
    revision: Seq<char>,
    disruptions_allowed: bool,
) -> OperationStepView {
    let maintained = cluster.spec.maintenance is Some && cluster.spec.maintenance->0.enabled;
    if lacks_nodes(eligible, desired, cluster.spec.min_brokers) {
        OperationStepView::InsufficientNodes
    } else if maintained {
        if disruptions_allowed {
            OperationStepView::Maintain
        } else {
            OperationStepView::WaitForCutover
        }
    } else if current > desired {
        if disruptions_allowed {
            OperationStepView::ScaleDown
        } else {
            OperationStepView::WaitForCutover
        }
    } else if current < desired {
        OperationStepView::Report(scale_up_report(desired, current, revision))
    } else if desired == 0 {
        OperationStepView::Report(
            ReportView {
                phase: "Ready"@,
                message: "no eligible Broker nodes"@,
                operation: None,
            },
        )
    } else if !disruptions_allowed {
        OperationStepView::Hold
    } else {
        OperationStepView::Roll
    }
}

/// The broker whose maintenance is over: it is resumed before anything else is
/// done.
pub open spec fn resumed_first(
    cluster: RustQueue,
    eligible: usize,
    desired: i32,
) -> Option<Seq<char>> {
    if !lacks_nodes(eligible, desired, cluster.spec.min_brokers) && cluster.spec.maintenance is Some
        && !cluster.spec.maintenance->0.enabled {
        Some(cluster.spec.maintenance->0.broker@)
    } else {
        None
    }
}

/// The broker whose maintenance is over.
pub fn finished_maintenance(cluster: &RustQueue, eligible: usize, desired: i32) -> (r: Option<
    String,
>)
    ensures
        text::opt_text(r) == resumed_first(*cluster, eligible, desired),
{
    if insufficient_eligible_nodes(eligible, desired, cluster.spec.min_brokers) {
        return None;
    }
    match &cluster.spec.maintenance {
        Some(m) => if m.enabled {
            None
        } else {
            Some(m.broker.clone())
        },
        None => None,
    }
}

/// What is to be done for a cluster.
pub fn reconcile(
    cluster: &RustQueue,
    eligible: usize,
    desired: i32,
    current: i32,
    revision: &str,
    disruptions_allowed: bool,
) -> (r: OperationStep)
    ensures
        r@ == next_step(*cluster, eligible, desired, current, revision@, disruptions_allowed),
{
    if insufficient_eligible_nodes(eligible, desired, cluster.spec.min_brokers) {
        return OperationStep::InsufficientNodes;
    }
    let maintained = match &cluster.spec.maintenance {
        Some(m) => m.enabled,
        None => false,
    };
    if maintained {
        return if disruptions_allowed {
            OperationStep::Maintain
        } else {
            OperationStep::WaitForCutover
        };
    }
    if current > desired {
        return if disruptions_allowed {
            OperationStep::ScaleDown
        } else {
            OperationStep::WaitForCutover
        };
    }
    if current < desired {
        let target = text::decimal_i64(desired as i64);
        let mut message = "scaling from ".to_owned();
        message.append(text::decimal_i64(current as i64).as_str());
        message.append(" to ");
        message.append(target.as_str());
        let operation = PendingOperation {
            id: status::operation_id("scale-up", target.as_str(), revision),
            kind: "ScaleUp".to_owned(),
            phase: "WaitingForReady".to_owned(),
            target,
            revision: revision.to_owned(),
            message: message.clone(),
            previous_image: None,
            current_broker: None,
        };
        return OperationStep::Report(
            Report { phase: "Scaling".to_owned(), message, operation: Some(operation) },
        );
    }
    if desired == 0 {
        return OperationStep::Report(
            plain_report("Ready", "no eligible Broker nodes".to_owned()),
        );
    }
    if !disruptions_allowed {
        return OperationStep::Hold;
    }
    OperationStep::Roll
}

/// Where disruptions are not allowed, no broker is drained.
pub proof fn law_no_disruption_without_leave(
    cluster: RustQueue,
    eligible: usize,
    desired: i32,
    current: i32,
    revision: Seq<char>,
)
    ensures
        ({
            let step = next_step(cluster, eligible, desired, current, revision, false);
            !(step is Maintain) && !(step is ScaleDown) && !(step is Roll)
        }),
{
}

/// Where nodes are missing, no broker is drained.
pub proof fn law_no_disruption_while_nodes_are_missing(
    cluster: RustQueue,
    eligible: usize,
    desired: i32,
    current: i32,
    revision: Seq<char>,
    disruptions_allowed: bool,
)
    requires
        lacks_nodes(eligible, desired, cluster.spec.min_brokers),
    ensures
        next_step(cluster, eligible, desired, current, revision, disruptions_allowed)
            is InsufficientNodes,
        resumed_first(cluster, eligible, desired) is None,
{
}

/// The report where nodes are missing.
pub fn insufficient_report(
    eligible: usize,
    desired: i32,
    minimum: i32,
    resumed: &Vec<String>,
) -> (r: Report)
    ensures
        r@ == (ReportView {
            phase: "InsufficientNodes"@,
            message: text::dec(eligible as nat) + " eligible nodes; desired is "@ + text::dec_int(
                desired as int,
            ) + " and minimum is "@ + text::dec_int(minimum as int) + (if resumed@.len() == 0 {
                ""@
            } else {
                "; resumed disrupted Brokers "@ + text_list::joined(
                    text::texts(resumed@),
                    ", "@,
                )
            }),
            operation: None,
        }),
{
    let mut m = text::decimal(eligible as u64);
    m.append(" eligible nodes; desired is ");
    m.append(text::decimal_i64(desired as i64).as_str());
    m.append(" and minimum is ");
    m.append(text::decimal_i64(minimum as i64).as_str());
    let tail = if resumed.len() == 0 {
        "".to_owned()
    } else {
        let mut t = "; resumed disrupted Brokers ".to_owned();
        t.append(text_list::join(resumed, ", ").as_str());
        t
    };
    m.append(tail.as_str());
    plain_report("InsufficientNodes", m)
}

/// The report while the cutover to the gateways is not safe.
pub open spec fn cutover_report() -> ReportView {
    ReportView {
        phase: "WaitingForKodoCutover"@,
        message: "waiting for Kodo Gateway cutover safety gates before disrupting a Broker"@,
        operation: None,
    }
}

/// The report while the cutover to the gateways is not safe.
pub fn waiting_for_kodo_cutover() -> (r: Report)
    ensures
        r@ == cutover_report(),
{
    plain_report(
        "WaitingForKodoCutover",
        "waiting for Kodo Gateway cutover safety gates before disrupting a Broker".to_owned(),
    )
}

/// The report where no broker may be disrupted: ready only if none has to be.
pub fn held_report(current_and_ready: bool) -> (r: Report)
    ensures
        r@ == if current_and_ready {
            ReportView {
                phase: "Ready"@,
                message: "all Brokers already match the target revision"@,
                operation: None,
            }
        } else {
            cutover_report()
        },
{
    if current_and_ready {
        plain_report("Ready", "all Brokers already match the target revision".to_owned())
    } else {
        waiting_for_kodo_cutover()
    }
}

/// The report of maintenance.
pub open spec fn maintained(
    request: BrokerMaintenance,
    progress: ProgressView,
    revision: Seq<char>,
) -> ReportView {
    let target = match progress.target {
        Some(t) => t,
        None => request.broker@,
    };
    ReportView {
        phase: if progress.phase == "Blocked"@ {
            "MaintenanceBlocked"@
        } else if request.enabled {
            "Maintenance"@
        } else {
            "Ready"@
        },
        message: progress.message,
        operation: Some(
            PendingView {
                id: status::operation_tag(
                    "maintenance"@,
                    target,
                    if request.enabled {
                        "enabled"@
                    } else {
                        "disabled"@
                    },
                ),
                kind: "Maintenance"@,
                phase: progress.phase,
                target,
                revision,
                message: progress.message,
                previous_image: None,
                current_broker: Some(request.broker@),
            },
        ),
    }
}

/// The report of maintenance.
pub fn reconcile_maintenance(request: &BrokerMaintenance, progress: Progress, revision: &str) -> (r:
    Report)
    ensures
        r@ == maintained(*request, progress@, revision@),
{
    let target = match progress.target {
        Some(t) => t,
        None => request.broker.clone(),
    };
    let id = status::operation_id(
        "maintenance",
        target.as_str(),
        if request.enabled {
            "enabled"
        } else {
            "disabled"
        },
    );
    let phase = if text::str_eq(progress.phase.as_str(), "Blocked") {
        "MaintenanceBlocked"
    } else if request.enabled {
        "Maintenance"
    } else {
        "Ready"
    };
    Report {
        phase: phase.to_owned(),
        message: progress.message.clone(),
        operation: Some(
            PendingOperation {
                id,
                kind: "Maintenance".to_owned(),
                phase: progress.phase,
                target,
                revision: revision.to_owned(),
                message: progress.message,
                previous_image: None,
                current_broker: Some(request.broker.clone()),
            },
        ),
    }
}

/// The report of removing a broker.
pub open spec fn scaled_down(
    cluster: Seq<char>,
    progress: ProgressView,
    current: i32,
    desired: i32,
    revision: Seq<char>,
) -> ReportView {
    let target = match progress.target {
        Some(t) => t,
        None => drain::pod_name(cluster, current - 1),
    };
    ReportView {
        phase: "Draining"@,
        message: progress.message,
        operation: Some(
            PendingView {
                id: status::operation_tag("scale-down"@, target, text::dec_int(desired as int)),
                kind: "ScaleDown"@,
                phase: progress.phase,
                target,
                revision,
                message: progress.message,
                previous_image: None,
                current_broker: progress.target,
            },
        ),
    }
}

/// The report of removing a broker.
pub fn reconcile_scale_down(
    cluster: &str,
    progress: Progress,
    current: i32,
    desired: i32,
    revision: &str,
) -> (r: Report)
    requires
        current > i32::MIN,
    ensures
        r@ == scaled_down(cluster@, progress@, current, desired, revision@),
{
    let target = match &progress.target {
        Some(t) => t.clone(),
        None => drain::scale_down_target(cluster, current),
    };
    let id = status::operation_id(
        "scale-down",
        target.as_str(),
        text::decimal_i64(desired as i64).as_str(),
    );
    Report {
        phase: "Draining".to_owned(),
        message: progress.message.clone(),
        operation: Some(
            PendingOperation {
                id,
                kind: "ScaleDown".to_owned(),
                phase: progress.phase,
                target,
                revision: revision.to_owned(),
                message: progress.message,
                previous_image: None,
                current_broker: progress.target,
            },
        ),
    }
}

// Rollout.

/// Whether time runs against a rollout in a phase: not where it is over, and not
/// where it waits for a person.
pub open spec fn can_time_out(phase: Seq<char>) -> bool {
    phase != "Completed"@ && phase != "Failed"@ && phase != "Blocked"@ && phase != "Paused"@ && phase
        != "AwaitingCanaryApproval"@
}

/// Whether time runs against a rollout in a phase.
pub fn rollout_phase_can_timeout(phase: &str) -> (r: bool)
    ensures
        r == can_time_out(phase@),
{
    !text::str_eq(phase, "Completed") && !text::str_eq(phase, "Failed") && !text::str_eq(
        phase,
        "Blocked",
    ) && !text::str_eq(phase, "Paused") && !text::str_eq(phase, "AwaitingCanaryApproval")
}

/// The kind of a rollout.
pub open spec fn rollout_kind(cluster: RustQueue) -> Seq<char> {
    if cluster.spec.rollout.rollback_to_image is Some {
        "Rollback"@
    } else {
        "Rollout"@
    }
}

/// The kind of a rollout, in lower case.
pub open spec fn rollout_stem(cluster: RustQueue) -> Seq<char> {
    if cluster.spec.rollout.rollback_to_image is Some {
        "rollback"@
    } else {
        "rollout"@
    }
}

/// The ID of the rollout of a revision.
pub open spec fn rollout_tag(cluster: RustQueue, revision: Seq<char>, image: Seq<char>) -> Seq<
    char,
> {
    status::operation_tag(
        rollout_stem(cluster),
        image,
        revision + ":"@ + cluster.spec.rollout.retry_nonce@,
    )
}

/// The ID of the rollout of a revision.
pub fn rollout_id(cluster: &RustQueue, revision: &str, effective_image: &str) -> (r: String)
    ensures
        r@ == rollout_tag(*cluster, revision@, effective_image@),
{
    let mut operation_revision = revision.to_owned();
    operation_revision.append(":");
    operation_revision.append(cluster.spec.rollout.retry_nonce.as_str());
    let stem = if cluster.spec.rollout.rollback_to_image.is_some() {
        "rollback"
    } else {
        "rollout"
    };
    status::operation_id(stem, effective_image, operation_revision.as_str())
}

/// The recorded operation, if it is the one with the ID.
pub open spec fn same_operation(cluster: RustQueue, id: Seq<char>) -> Option<OperationView> {
    match current_operation(cluster) {
        Some(o) => if o.id == id {
            Some(o)
        } else {
            None
        },
        None => None,
    }
}

fn find_operation<'a>(cluster: &'a RustQueue, id: &str) -> (r: Option<&'a OperationStatus>)
    ensures
        match r {
            Some(o) => same_operation(*cluster, id@) == Some(o@),
            None => same_operation(*cluster, id@) is None,
        },
{
    match &cluster.status {
        Some(s) => match &s.current_operation {
            Some(o) => if text::str_eq(o.id.as_str(), id) {
                Some(o)
            } else {
                None
            },
            None => None,
        },
        None => None,
    }
}

/// Since when time runs against a rollout.
pub open spec fn clock_start(cluster: RustQueue, id: Seq<char>) -> Option<Seq<char>> {
    match same_operation(cluster, id) {
        Some(o) => if can_time_out(o.phase) {
            Some(o.started_at)
        } else {
            None
        },
        None => None,
    }
}

/// Since when time runs against a rollout.
pub fn rollout_clock(cluster: &RustQueue, id: &str) -> (r: Option<String>)
    ensures
        text::opt_text(r) == clock_start(*cluster, id@),
{
    match find_operation(cluster, id) {
        Some(o) => if rollout_phase_can_timeout(o.phase.as_str()) {
            Some(o.started_at.clone())
        } else {
            None
        },
        None => None,
    }
}

/// Whether a rollout took too long, given the seconds since it started.
pub open spec fn is_timed_out(cluster: RustQueue, id: Seq<char>, elapsed: Option<u64>) -> bool {
    clock_start(cluster, id) is Some && elapsed is Some && elapsed->0
        >= cluster.spec.rollout.timeout_seconds
}

/// How far a rollout has come, where that needs no look at the brokers: it
/// failed before, or took too long.
pub open spec fn failed_progress(
    cluster: RustQueue,
    id: Seq<char>,
    elapsed: Option<u64>,
) -> Option<ProgressView> {
    let previous = same_operation(cluster, id);
    if previous is Some && previous->0.phase == "Failed"@ {
        Some(
            ProgressView {
                target: previous->0.current_broker,
                phase: "Failed"@,
                message: previous->0.message,
            },
        )
    } else if is_timed_out(cluster, id, elapsed) {
        Some(
            ProgressView {
                target: previous->0.current_broker,
                phase: "Failed"@,
                message: "rollout exceeded its "@ + text::dec(
                    cluster.spec.rollout.timeout_seconds as nat,
                ) + " second timeout; change retryNonce or request rollback"@,
            },
        )
    } else {
        None
    }
}

/// How far a rollout has come, where that needs no look at the brokers. The
/// broker it names, if any, is to be resumed.
pub fn failed_rollout(cluster: &RustQueue, id: &str, elapsed: Option<u64>) -> (r: Option<Progress>)
    ensures
        match r {
            Some(p) => failed_progress(*cluster, id@, elapsed) == Some(p@),
            None => failed_progress(*cluster, id@, elapsed) is None,
        },
{
    let previous = match find_operation(cluster, id) {
        Some(o) => o,
        None => {
            return None;
        },
    };
    if text::str_eq(previous.phase.as_str(), "Failed") {
        return Some(
            Progress {
                target: text::clone_opt(&previous.current_broker),
                phase: "Failed".to_owned(),
                message: previous.message.clone(),
            },
        );
    }
    let over = match elapsed {
        Some(seconds) => seconds >= cluster.spec.rollout.timeout_seconds,
        None => false,
    };
    if over && rollout_phase_can_timeout(previous.phase.as_str()) {
        let mut m = "rollout exceeded its ".to_owned();
        m.append(text::decimal(cluster.spec.rollout.timeout_seconds).as_str());
        m.append(" second timeout; change retryNonce or request rollback");
        return Some(
            Progress {
                target: text::clone_opt(&previous.current_broker),
                phase: "Failed".to_owned(),
                message: m,
            },
        );
    }
    None
}

/// What a rollout has come to, where that needs no look at the brokers.
pub open spec fn progress_view(p: Option<Progress>) -> Option<ProgressView> {
    match p {
        Some(p) => Some(p@),
        None => None,
    }
}

/// The whole seconds that a rollout has taken at a time. There are none where it has no start
/// that can be read.
pub open spec fn rollout_elapsed(cluster: RustQueue, id: Seq<char>, now: (i64, u32)) -> Option<
    u64,
> {
    match clock_start(cluster, id) {
        Some(started) => status::elapsed(started, now),
        None => None,
    }
}

/// How far a rollout has come at a time, where that needs no look at the brokers.
pub open spec fn overdue_at(cluster: RustQueue, id: Seq<char>, now: (i64, u32)) -> Option<
    ProgressView,
> {
    failed_progress(cluster, id, rollout_elapsed(cluster, id, now))
}

/// How far a rollout has come at a time, where that needs no look at the brokers. The broker
/// it names, if any, is to be resumed.
pub fn overdue_rollout_at(cluster: &RustQueue, id: &str, now: (i64, u32)) -> (r: Option<Progress>)
    ensures
        progress_view(r) == overdue_at(*cluster, id@, now),
{
    let elapsed = match rollout_clock(cluster, id) {
        Some(started) => status::elapsed_seconds_at(started.as_str(), now),
        None => None,
    };
    failed_rollout(cluster, id, elapsed)
}

/// How far a rollout has come by the clock, where that needs no look at the brokers. The
/// broker it names, if any, is to be resumed.
pub fn overdue_rollout(cluster: &RustQueue, id: &str) -> (r: Option<Progress>)
    ensures
        exists|now: (i64, u32)| progress_view(r) == #[trigger] overdue_at(*cluster, id@, now),
{
    overdue_rollout_at(cluster, id, status::moment_now())
}

/// The image before the rollout: the recorded one, or that of the brokers.
pub open spec fn image_before(
    cluster: RustQueue,
    id: Seq<char>,
    observed: Option<Seq<char>>,
) -> Option<Seq<char>> {
    let previous = same_operation(cluster, id);
    if previous is Some && previous->0.previous_image is Some {
        previous->0.previous_image
    } else {
        observed
    }
}

/// The image before the rollout.
pub fn rollout_previous_image(cluster: &RustQueue, id: &str, observed: Option<String>) -> (r: Option<
    String,
>)
    ensures
        text::opt_text(r) == image_before(*cluster, id@, text::opt_text(observed)),
{
    match find_operation(cluster, id) {
        Some(o) => match &o.previous_image {
            Some(image) => Some(image.clone()),
            None => observed,
        },
        None => observed,
    }
}

/// The phase of a cluster in a phase of its rollout.
pub open spec fn phase_of_rollout(progress: Seq<char>) -> Seq<char> {
    if progress == "Completed"@ {
        "Ready"@
    } else if progress == "Blocked"@ {
        "RolloutBlocked"@
    } else if progress == "Failed"@ {
        "RolloutFailed"@
    } else if progress == "Paused"@ {
        "RolloutPaused"@
    } else if progress == "AwaitingCanaryApproval"@ {
        "RolloutAwaitingApproval"@
    } else {
        "Rolling"@
    }
}

fn cluster_phase(progress: &str) -> (r: String)
    ensures
        r@ == phase_of_rollout(progress@),
{
    let phase = if text::str_eq(progress, "Completed") {
        "Ready"
    } else if text::str_eq(progress, "Blocked") {
        "RolloutBlocked"
    } else if text::str_eq(progress, "Failed") {
        "RolloutFailed"
    } else if text::str_eq(progress, "Paused") {
        "RolloutPaused"
    } else if text::str_eq(progress, "AwaitingCanaryApproval") {
        "RolloutAwaitingApproval"
    } else {
        "Rolling"
    };
    phase.to_owned()
}

/// The report of a rollout.
pub open spec fn rolled(
    cluster: RustQueue,
    id: Seq<char>,
    progress: ProgressView,
    previous_image: Option<Seq<char>>,
    revision: Seq<char>,
    image: Seq<char>,
) -> ReportView {
    ReportView {
        phase: phase_of_rollout(progress.phase),
        message: progress.message,
        operation: Some(
            PendingView {
                id,
                kind: rollout_kind(cluster),
                phase: progress.phase,
                target: image,
                revision,
                message: progress.message,
                previous_image,
                current_broker: progress.target,
            },
        ),
    }
}

/// The report of a rollout.
pub fn reconcile_rollout(
    cluster: &RustQueue,
    id: String,
    progress: Progress,
    previous_image: Option<String>,
    revision: &str,
    effective_image: &str,
) -> (r: Report)
    ensures
        r@ == rolled(
            *cluster,
            id@,
            progress@,
            text::opt_text(previous_image),
            revision@,
            effective_image@,
        ),
{
    let kind = if cluster.spec.rollout.rollback_to_image.is_some() {
        "Rollback"
    } else {
        "Rollout"
    };
    Report {
        phase: cluster_phase(progress.phase.as_str()),
        message: progress.message.clone(),
        operation: Some(
            PendingOperation {
                id,
                kind: kind.to_owned(),
                phase: progress.phase,
                target: effective_image.to_owned(),
                revision: revision.to_owned(),
                message: progress.message,
                previous_image,
                current_broker: progress.target,
            },
        ),
    }
}

/// A rollout that failed stays failed until its target, its revision or the retry
/// nonce changes.
pub proof fn law_failed_rollout_stays_failed(
    cluster: RustQueue,
    revision: Seq<char>,
    image: Seq<char>,
    elapsed: Option<u64>,
)
    requires
        same_operation(cluster, rollout_tag(cluster, revision, image)) is Some,
        same_operation(cluster, rollout_tag(cluster, revision, image))->0.phase == "Failed"@,
    ensures
        ({
            let p = failed_progress(cluster, rollout_tag(cluster, revision, image), elapsed);
            p is Some && p->0.phase == "Failed"@
        }),
{
}

/// Neither a rollout that is over nor one that waits for a person times out.
pub proof fn law_settled_rollouts_do_not_time_out(
    cluster: RustQueue,
    id: Seq<char>,
    elapsed: Option<u64>,
)
    requires
        same_operation(cluster, id) is Some,
        !can_time_out(same_operation(cluster, id)->0.phase),
    ensures
        !is_timed_out(cluster, id, elapsed),
{
}

/// Each step is taken in exactly one situation: without nodes for the brokers nothing is done;
/// a maintenance comes before a change of size, a change of size before a rollout; and what
/// takes a broker away waits until it may.
pub proof fn law_steps_are_taken_in_their_situation(
    cluster: RustQueue,
    eligible: usize,
    desired: i32,
    current: i32,
    revision: Seq<char>,
    may: bool,
)
    ensures
        ({
            let step = next_step(cluster, eligible, desired, current, revision, may);
            let lacking = eligible < desired || desired < cluster.spec.min_brokers || desired < 0;
            let asked = cluster.spec.maintenance is Some && cluster.spec.maintenance->0.enabled;
            let free = !lacking && !asked;
            &&& step is InsufficientNodes <==> lacking
            &&& step is Maintain <==> !lacking && asked && may
            &&& step is ScaleDown <==> free && current > desired && may
            &&& step is WaitForCutover <==> !lacking && !may && (asked || current > desired)
            &&& step is Report <==> free && (current < desired || (current == desired && desired
                == 0))
            &&& step is Hold <==> free && current == desired && desired != 0 && !may
            &&& step is Roll <==> free && current == desired && desired != 0 && may
            &&& step matches OperationStepView::Report(r) ==> (current < desired ==> r.phase
                == "Scaling"@ && r.operation is Some && r.operation->0.kind == "ScaleUp"@
                && r.operation->0.target == text::dec_int(desired as int)
                && r.operation->0.revision == revision && r.operation->0.phase
                == "WaitingForReady"@) && (current == desired ==> r.phase == "Ready"@
                && r.operation is None)
        }),
{
}

/// A broker is resumed first exactly where its maintenance was asked for and is over, and there
/// are nodes for the brokers.
pub proof fn law_brokers_come_back_after_maintenance(
    cluster: RustQueue,
    eligible: usize,
    desired: i32,
)
    ensures
        ({
            let r = resumed_first(cluster, eligible, desired);
            let lacking = eligible < desired || desired < cluster.spec.min_brokers || desired < 0;
            &&& r is Some <==> !lacking && cluster.spec.maintenance is Some
                && !cluster.spec.maintenance->0.enabled
            &&& r is Some ==> r->0 == cluster.spec.maintenance->0.broker@
        }),
{
}

/// A maintenance is reported with the progress that it made, as blocked where it is, and as
/// over where it is no longer asked for; its operation names the broker.
pub proof fn law_maintenances_are_reported(
    request: BrokerMaintenance,
    progress: ProgressView,
    revision: Seq<char>,
)
    ensures
        ({
            let r = maintained(request, progress, revision);
            let o = r.operation->0;
            &&& progress.phase == "Blocked"@ ==> r.phase == "MaintenanceBlocked"@
            &&& progress.phase != "Blocked"@ && request.enabled ==> r.phase == "Maintenance"@
            &&& progress.phase != "Blocked"@ && !request.enabled ==> r.phase == "Ready"@
            &&& r.message == progress.message
            &&& r.operation is Some
            &&& o.kind == "Maintenance"@ && o.phase == progress.phase && o.revision == revision
            &&& o.message == progress.message && o.current_broker == Some(request.broker@)
            &&& progress.target is Some ==> o.target == progress.target->0
            &&& progress.target is None ==> o.target == request.broker@
            &&& o.previous_image is None
        }),
{
}

/// While brokers are taken away the last of them is named, also before its drain has begun.
pub proof fn law_scaling_down_names_the_last_broker(
    cluster: Seq<char>,
    progress: ProgressView,
    current: i32,
    desired: i32,
    revision: Seq<char>,
)
    ensures
        ({
            let r = scaled_down(cluster, progress, current, desired, revision);
            let o = r.operation->0;
            &&& r.phase == "Draining"@ && r.message == progress.message
            &&& r.operation is Some
            &&& o.kind == "ScaleDown"@ && o.phase == progress.phase && o.revision == revision
            &&& o.current_broker == progress.target
            &&& progress.target is Some ==> o.target == progress.target->0
            &&& progress.target is None ==> o.target == cluster + "-"@ + text::dec_int(current - 1)
        }),
{
}

/// A rollout has failed exactly where it failed before, or where it is under way and has taken
/// the time that it may take; one that waits for somebody has all the time.
pub proof fn law_rollouts_fail_when_their_time_is_over(
    cluster: RustQueue,
    id: Seq<char>,
    elapsed: Option<u64>,
)
    ensures
        ({
            let r = failed_progress(cluster, id, elapsed);
            let o = current_operation(cluster)->0;
            let known = current_operation(cluster) is Some && o.id == id;
            let under_way = o.phase != "Completed"@ && o.phase != "Failed"@ && o.phase
                != "Blocked"@ && o.phase != "Paused"@ && o.phase != "AwaitingCanaryApproval"@;
            let late = elapsed is Some && elapsed->0 >= cluster.spec.rollout.timeout_seconds;
            &&& r is Some <==> known && (o.phase == "Failed"@ || (under_way && late))
            &&& r is Some ==> r->0.phase == "Failed"@ && r->0.target == o.current_broker
            &&& r is Some && o.phase == "Failed"@ ==> r->0.message == o.message
        }),
{
}

/// The clock of a rollout is read exactly while it is under way, from its start on.
pub proof fn law_clocks_run_while_rollouts_do(cluster: RustQueue, id: Seq<char>)
    ensures
        ({
            let r = clock_start(cluster, id);
            let o = current_operation(cluster)->0;
            let known = current_operation(cluster) is Some && o.id == id;
            &&& r is Some <==> known && o.phase != "Completed"@ && o.phase != "Failed"@
                && o.phase != "Blocked"@ && o.phase != "Paused"@ && o.phase
                != "AwaitingCanaryApproval"@
            &&& r is Some ==> r->0 == o.started_at
        }),
{
}

/// The image from before a rollout is the one that was recorded when it began.
pub proof fn law_the_image_before_is_remembered(
    cluster: RustQueue,
    id: Seq<char>,
    observed: Option<Seq<char>>,
)
    ensures
        ({
            let o = current_operation(cluster);
            let known = o is Some && o->0.id == id && o->0.previous_image is Some;
            &&& known ==> image_before(cluster, id, observed) == o->0.previous_image
            &&& !known ==> image_before(cluster, id, observed) == observed
        }),
{
}

/// A rollout is reported under its ID, with the progress that it made; the phase of the cluster
/// follows from that, and is `Ready` for completed rollouts alone.
pub proof fn law_rollouts_are_reported(
    cluster: RustQueue,
    id: Seq<char>,
    progress: ProgressView,
    previous_image: Option<Seq<char>>,
    revision: Seq<char>,
    image: Seq<char>,
)
    ensures
        ({
            let r = rolled(cluster, id, progress, previous_image, revision, image);
            let o = r.operation->0;
            let at = progress.phase;
            &&& r.phase == "Ready"@ <==> at == "Completed"@
            &&& at == "Blocked"@ ==> r.phase == "RolloutBlocked"@
            &&& at == "Failed"@ ==> r.phase == "RolloutFailed"@
            &&& at == "Paused"@ ==> r.phase == "RolloutPaused"@
            &&& at == "AwaitingCanaryApproval"@ ==> r.phase == "RolloutAwaitingApproval"@
            &&& at != "Completed"@ && at != "Blocked"@ && at != "Failed"@ && at != "Paused"@ && at
                != "AwaitingCanaryApproval"@ ==> r.phase == "Rolling"@
            &&& r.message == progress.message
            &&& r.operation is Some
            &&& o.id == id && o.phase == at && o.target == image && o.revision == revision
            &&& o.message == progress.message && o.previous_image == previous_image
            &&& o.current_broker == progress.target
            &&& o.kind == if cluster.spec.rollout.rollback_to_image is Some {
                "Rollback"@
            } else {
                "Rollout"@
            }
        }),
{
    reveal_strlit("Ready");
    reveal_strlit("RolloutBlocked");
    reveal_strlit("RolloutFailed");
    reveal_strlit("RolloutPaused");
    reveal_strlit("RolloutAwaitingApproval");
    reveal_strlit("Rolling");
    reveal_strlit("Completed");
    reveal_strlit("Blocked");
    reveal_strlit("Failed");
    reveal_strlit("Paused");
    reveal_strlit("AwaitingCanaryApproval");
    assert("Ready"@.len() == 5 && "RolloutBlocked"@.len() == 14 && "RolloutFailed"@.len() == 13
        && "RolloutPaused"@.len() == 13 && "RolloutAwaitingApproval"@.len() == 23
        && "Rolling"@.len() == 7);
    assert("Completed"@.len() == 9 && "Blocked"@.len() == 7 && "Failed"@.len() == 6
        && "Failed"@[0] == 'F' && "Paused"@[0] == 'P' && "AwaitingCanaryApproval"@.len() == 22);
}

/// An operation that is recorded has what is pending, began when it first had its ID, and is
/// over exactly where its phase is `Completed`, `Failed` or `Blocked`.
pub proof fn law_pending_operations_are_recorded(
    current: Option<OperationView>,
    p: PendingView,
    time: Seq<char>,
)
    ensures
        ({
            let r = recorded(current, p, time);
            let over = p.phase == "Completed"@ || p.phase == "Failed"@ || p.phase == "Blocked"@;
            let goes_on = current is Some && current->0.id == p.id;
            &&& r.id == p.id && r.kind == p.kind && r.phase == p.phase && r.target == p.target
            &&& r.revision == p.revision && r.message == p.message
            &&& r.previous_image == p.previous_image && r.current_broker == p.current_broker
            &&& r.updated_at == time
            &&& goes_on ==> r.started_at == current->0.started_at
            &&& !goes_on ==> r.started_at == time
            &&& r.completed_at is Some <==> over
            &&& over && !(goes_on && current->0.phase == p.phase) ==> r.completed_at == Some(time)
            &&& over && goes_on && current->0.phase == p.phase && current->0.completed_at is Some
                ==> r.completed_at == current->0.completed_at
        }),
{
}

/// An operation is written down anew exactly where its ID or its phase has changed.
pub proof fn law_changes_of_operations_are_audited(
    o: PendingOperation,
    cluster: RustQueue,
    r: bool,
)
    requires
        call_ensures(PendingOperation::audit, (&o, &cluster), r),
    ensures
        ({
            let before = current_operation(cluster);
            r <==> before is None || before->0.id != o.id@ || before->0.phase != o.phase@
        }),
{
}

/// Where no broker may be disrupted, the cluster is ready if all brokers are
/// current, and waits for the cutover otherwise; nothing is under way.
pub proof fn law_held_clusters_are_ready_or_wait(current_and_ready: bool, r: Report)
    requires
        call_ensures(held_report, (current_and_ready,), r),
    ensures
        current_and_ready ==> r@.phase == "Ready"@,
        !current_and_ready ==> r@.phase == "WaitingForKodoCutover"@,
        r@.operation is None,
{
}

} // verus!
