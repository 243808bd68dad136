//! The course of a reconciliation: what is checked in which order, and what is
//! reported at its end.
use crate::operator::controller::kodo::{KodoPlan, KodoRuntimeRecovery};
use crate::operator::controller::nodes::BrokerHealth;
use crate::operator::controller::operations::{self, PendingOperation, PendingView};
use crate::operator::controller::preflight::{Outcome, OutcomeView};
use crate::operator::controller::status::{self, Stamp, StatusBuilder};
use crate::operator::controller::storage::{StorageReport, StorageState, StorageView};
use crate::operator::crd::{
    KodoCompatibility, OperationStatus, OperationView, QueueStatusView, RustQueue, RustQueueSpec,
    RustQueueStatus,
};
use crate::operator::resources::BuildInput;
use crate::text;
use crate::text_list;
use vstd::prelude::*;
use vstd::string::*;

verus! {

/// What a reconciliation has learnt so far.
pub struct Findings<'a> {
    pub decommission_blocked: bool,
    pub current_brokers: i32,
    pub target_image: Option<&'a Outcome>,
    pub brokers: Option<&'a Outcome>,
    pub storage: Option<StorageState>,
}

/// What a reconciliation does next.
#[derive(Clone, Copy, Debug, PartialEq, Eq, Structural)]
pub enum Step {
    /// Keep what runs, and report that the gateways may not go.
    RetainGateways,
    /// Check what the target image can do.
    CheckTargetImage,
    /// Report what the check of the target image found, keeping what runs.
    ReportTargetImage { recover: bool },
    /// Check what the running brokers can do.
    CheckBrokers,
    /// Keep what runs, and report what the check of the brokers found.
    ReportBrokers,
    /// Check the volumes.
    CheckStorage,
    /// Report what the check of the volumes found, keeping what runs.
    ReportStorage { recover: bool },
    /// Apply the resources.
    Apply,
}

impl Step {
    /// Whether what runs is kept before the step is reported.
    pub fn recovers(self) -> (r: bool)
        ensures
            r == match self {
                Step::RetainGateways => true,
                Step::ReportBrokers => true,
                Step::ReportTargetImage { recover } => recover,
                Step::ReportStorage { recover } => recover,
                _ => false,
            },
    {
        match self {
            Step::RetainGateways => true,
            Step::ReportBrokers => true,
            Step::ReportTargetImage { recover } => recover,
            Step::ReportStorage { recover } => recover,
            _ => false,
        }
    }

    /// The feature level that the step is reported with: the one that was found once every
    /// broker was asked, and else the recorded one.
    pub fn reported_level(self, recorded: u32, found: u32) -> (r: u32)
        ensures
            r == if self is ReportStorage {
                found
            } else {
                recorded
            },
    {
        match self {
            Step::ReportStorage { recover: _ } => found,
            _ => recorded,
        }
    }
}

/// What a reconciliation does next.
pub open spec fn step_after(f: Findings<'_>) -> Step {
    if f.decommission_blocked {
        Step::RetainGateways
    } else if f.target_image is None {
        Step::CheckTargetImage
    } else if !(f.target_image->0 is Ready) {
        Step::ReportTargetImage { recover: f.current_brokers > 0 }
    } else if f.current_brokers > 0 && f.brokers is None {
        Step::CheckBrokers
    } else if f.current_brokers > 0 && !(f.brokers->0 is Ready) {
        Step::ReportBrokers
    } else if f.storage is None {
        Step::CheckStorage
    } else if f.storage != Some(StorageState::Ready) {
        Step::ReportStorage { recover: f.current_brokers > 0 }
    } else {
        Step::Apply
    }
}

/// What a reconciliation does next.
pub fn next_step(f: &Findings<'_>) -> (r: Step)
    ensures
        r == step_after(*f),
{
    if f.decommission_blocked {
        return Step::RetainGateways;
    }
    match f.target_image {
        None => {
            return Step::CheckTargetImage;
        },
        Some(Outcome::Ready { active_feature_level: _ }) => {},
        Some(_) => {
            return Step::ReportTargetImage { recover: f.current_brokers > 0 };
        },
    }
    if f.current_brokers > 0 {
        match f.brokers {
            None => {
                return Step::CheckBrokers;
            },
            Some(Outcome::Ready { active_feature_level: _ }) => {},
            Some(_) => {
                return Step::ReportBrokers;
            },
        }
    }
    match f.storage {
        None => Step::CheckStorage,
        Some(StorageState::Ready) => Step::Apply,
        Some(_) => Step::ReportStorage { recover: f.current_brokers > 0 },
    }
}

/// Resources are applied only when no decommission is blocked, the target image
/// and the running brokers passed their checks, and the volumes are ready.
pub proof fn law_resources_are_applied_only_after_every_check(f: Findings<'_>)
    requires
        step_after(f) == Step::Apply,
    ensures
        !f.decommission_blocked,
        f.target_image is Some,
        f.target_image->0 is Ready,
        f.current_brokers > 0 ==> f.brokers is Some && f.brokers->0 is Ready,
        f.storage == Some(StorageState::Ready),
{
}

/// The replicas that the brokers get at once: a set that grows or starts gets
/// what is wanted, one that shrinks keeps what it has.
pub fn applied_replicas(current: i32, desired: i32) -> (r: i32)
    ensures
        r == if current == 0 || desired > current {
            desired
        } else {
            current
        },
{
    if current == 0 || desired > current {
        desired
    } else {
        current
    }
}

/// What the resources of a cluster are built from before it is known how far its gateways
/// have come: without them, and keeping those that have to go but still run.
pub fn staged_input<'a>(
    cluster: &'a RustQueue,
    replicas: i32,
    gateways_active: bool,
    image: &'a str,
    claim_template_size: &'a str,
    secret_name: &'a str,
    mounted_secret_revision: &'a str,
) -> (r: BuildInput<'a>)
    ensures
        r == (BuildInput {
            cluster,
            replicas,
            kodo_gateway_replicas: 0,
            advertise_kodo_gateways: false,
            discovery_service_kodo: Some(false),
            activate_kodo_cleanup: false,
            retain_existing_kodo_resources: !cluster.spec.kodo_compatibility.enabled
                && gateways_active,
            image,
            claim_template_size,
            secret_name,
            mounted_secret_revision,
        }),
{
    BuildInput {
        cluster,
        replicas,
        kodo_gateway_replicas: 0,
        advertise_kodo_gateways: false,
        discovery_service_kodo: Some(false),
        activate_kodo_cleanup: false,
        retain_existing_kodo_resources: !cluster.spec.kodo_compatibility.enabled
            && gateways_active,
        image,
        claim_template_size,
        secret_name,
        mounted_secret_revision,
    }
}

/// What the resources of a cluster are built from once it is known how far its gateways have
/// come.
pub fn planned_input<'a>(staged: BuildInput<'a>, p: &KodoPlan) -> (r: BuildInput<'a>)
    ensures
        r == (BuildInput {
            kodo_gateway_replicas: p.gateway_replicas,
            advertise_kodo_gateways: p.advertise_gateways,
            discovery_service_kodo: p.service_kodo,
            activate_kodo_cleanup: p.activate_cleanup,
            retain_existing_kodo_resources: p.retain_existing,
            ..staged
        }),
{
    BuildInput {
        kodo_gateway_replicas: p.gateway_replicas,
        advertise_kodo_gateways: p.advertise_gateways,
        discovery_service_kodo: p.service_kodo,
        activate_kodo_cleanup: p.activate_cleanup,
        retain_existing_kodo_resources: p.retain_existing,
        ..staged
    }
}

/// What the resources of a cluster are built from while it is only kept running.
pub fn recovery_input<'a>(
    staged: BuildInput<'a>,
    recovery: &KodoRuntimeRecovery,
    cleanup_requested: bool,
) -> (r: BuildInput<'a>)
    ensures
        r == (BuildInput {
            kodo_gateway_replicas: recovery.gateway_replicas,
            advertise_kodo_gateways: recovery.advertise_gateways,
            discovery_service_kodo: Some(recovery.discovery_service_kodo),
            activate_kodo_cleanup: cleanup_requested,
            retain_existing_kodo_resources: recovery.retain_gateways,
            ..staged
        }),
{
    BuildInput {
        kodo_gateway_replicas: recovery.gateway_replicas,
        advertise_kodo_gateways: recovery.advertise_gateways,
        discovery_service_kodo: Some(recovery.discovery_service_kodo),
        activate_kodo_cleanup: cleanup_requested,
        retain_existing_kodo_resources: recovery.retain_gateways,
        ..staged
    }
}

/// The smaller of two counts.
pub open spec fn at_most(a: i32, b: i32) -> i32 {
    if a <= b {
        a
    } else {
        b
    }
}

/// The brokers that are reported as ready: no more than there are to be.
pub fn reported_ready(ready: i32, current: i32) -> (r: i32)
    ensures
        r == at_most(ready, current),
{
    if ready <= current {
        ready
    } else {
        current
    }
}

// Reports that end a reconciliation early.

/// What is said where the gateways may not go.
pub open spec fn decommission_text() -> Seq<char> {
    "Kodo Gateway decommission is blocked: stop every Kodo workload using this Discovery service, then set spec.kodoCompatibility.decommissionConfirmed=true"@
}

/// The status where the gateways may not go.
pub open spec fn decommission_status(s: QueueStatusView, at: Stamp) -> QueueStatusView {
    let m = decommission_text();
    s.summarised("KodoDecommissionBlocked"@, m).said(
        at,
        "Ready"@,
        false,
        "KodoDecommissionBlocked"@,
        m,
    ).said(at, "Progressing"@, false, "KodoDecommissionBlocked"@, m).said(
        at,
        "Degraded"@,
        true,
        "KodoDecommissionBlocked"@,
        m,
    ).said(
        at,
        "KodoGatewaysActive"@,
        true,
        "RetainedForSafety"@,
        "Kodo Gateways and their existing Discovery route remain active"@,
    ).said(at, "KodoDecommissionConfirmed"@, false, "ConfirmationRequired"@, m)
}

/// The status where the gateways may not go.
pub fn decommission_blocked_status(builder: StatusBuilder<'_>) -> (r: RustQueueStatus)
    ensures
        r@ == decommission_status(builder.status@, builder.stamp()),
{
    let m =
        "Kodo Gateway decommission is blocked: stop every Kodo workload using this Discovery service, then set spec.kodoCompatibility.decommissionConfirmed=true";
    builder.summary("KodoDecommissionBlocked", m).condition(
        "Ready",
        false,
        "KodoDecommissionBlocked",
        m,
    ).condition("Progressing", false, "KodoDecommissionBlocked", m).condition(
        "Degraded",
        true,
        "KodoDecommissionBlocked",
        m,
    ).condition(
        "KodoGatewaysActive",
        true,
        "RetainedForSafety",
        "Kodo Gateways and their existing Discovery route remain active",
    ).condition("KodoDecommissionConfirmed", false, "ConfirmationRequired", m).build()
}

/// The status while the volumes are not ready.
pub open spec fn storage_status(s: QueueStatusView, at: Stamp, r: StorageView) -> QueueStatusView {
    let blocked = r.state == StorageState::Blocked;
    let phase = if blocked {
        "StorageBlocked"@
    } else {
        "StorageResizing"@
    };
    QueueStatusView {
        orphaned_pvcs: r.orphaned_pvcs,
        ..s.summarised(phase, r.message).said(at, "Ready"@, false, phase, r.message).said(
            at,
            "Progressing"@,
            !blocked,
            phase,
            r.message,
        ).said(at, "Degraded"@, blocked, phase, r.message).said(
            at,
            "StorageReady"@,
            false,
            phase,
            r.message,
        ).said(
            at,
            "Upgradeable"@,
            true,
            "PreflightPassed"@,
            "binary compatibility checks passed"@,
        )
    }
}

/// The status while the volumes are not ready.
pub fn storage_pending_status(builder: StatusBuilder<'_>, storage: StorageReport) -> (r:
    RustQueueStatus)
    ensures
        r@ == storage_status(builder.status@, builder.stamp(), storage@),
{
    let blocked = storage.state == StorageState::Blocked;
    let phase = if blocked {
        "StorageBlocked"
    } else {
        "StorageResizing"
    };
    let m = storage.message.as_str();
    builder.summary(phase, m).condition("Ready", false, phase, m).condition(
        "Progressing",
        !blocked,
        phase,
        m,
    ).condition("Degraded", blocked, phase, m).condition(
        "StorageReady",
        false,
        phase,
        m,
    ).condition(
        "Upgradeable",
        true,
        "PreflightPassed",
        "binary compatibility checks passed",
    ).orphaned_pvcs(storage.orphaned_pvcs).build()
}

/// The status after a failure.
pub open spec fn error_status(s: QueueStatusView, at: Stamp, m: Seq<char>) -> QueueStatusView {
    s.summarised("ReconcileError"@, m).said(at, "Ready"@, false, "ReconcileError"@, m).said(
        at,
        "Progressing"@,
        false,
        "ReconcileError"@,
        m,
    ).said(at, "Degraded"@, true, "ReconcileError"@, m)
}

/// The counts that are reported after a failure: those recorded, or the fewest
/// brokers and none ready.
pub fn counts_after_error(cluster: &RustQueue) -> (r: (i32, i32))
    ensures
        r == match cluster.status {
            Some(s) => (s.desired_brokers, s.ready_brokers),
            None => (cluster.spec.min_brokers, 0i32),
        },
{
    match &cluster.status {
        Some(s) => (s.desired_brokers, s.ready_brokers),
        None => (cluster.spec.min_brokers, 0),
    }
}

/// The status after a failure.
pub fn reconcile_error_status(builder: StatusBuilder<'_>, error: &str) -> (r: RustQueueStatus)
    ensures
        r@ == error_status(builder.status@, builder.stamp(), "reconciliation failed: "@ + error@),
{
    let mut message = "reconciliation failed: ".to_owned();
    message.append(error);
    let m = message.as_str();
    builder.summary("ReconcileError", m).condition("Ready", false, "ReconcileError", m).condition(
        "Progressing",
        false,
        "ReconcileError",
        m,
    ).condition("Degraded", true, "ReconcileError", m).build()
}

/// The recorded operation, if it is the rollout of an image.
pub open spec fn rollout_of(cluster: RustQueue, image: Seq<char>) -> Option<OperationView> {
    match operations::current_operation(cluster) {
        Some(o) => if o.kind == operations::rollout_kind(cluster) && o.target == image {
            Some(o)
        } else {
            None
        },
        None => None,
    }
}

fn find_rollout<'a>(cluster: &'a RustQueue, kind: &str, image: &str) -> (r: Option<
    &'a OperationStatus,
>)
    requires
        kind@ == operations::rollout_kind(*cluster),
    ensures
        match r {
            Some(o) => rollout_of(*cluster, image@) == Some(o@),
            None => rollout_of(*cluster, image@) is None,
        },
{
    match &cluster.status {
        Some(s) => match &s.current_operation {
            Some(o) => if text::str_eq(o.kind.as_str(), kind) && text::str_eq(
                o.target.as_str(),
                image,
            ) {
                Some(o)
            } else {
                None
            },
            None => None,
        },
        None => None,
    }
}

/// The revision of a rollout that is still being checked.
pub open spec fn preflight_revision(cluster: RustQueue) -> Seq<char> {
    "preflight:"@ + text::dec(cluster.spec.storage_feature_level as nat) + ":"@
        + cluster.spec.rollout.retry_nonce@
}

/// The operation of a check.
pub open spec fn preflight_operation(
    cluster: RustQueue,
    image: Seq<char>,
    message: Seq<char>,
    blocked: bool,
) -> PendingView {
    let existing = rollout_of(cluster, image);
    let revision = match existing {
        Some(o) => o.revision,
        None => preflight_revision(cluster),
    };
    PendingView {
        id: match existing {
            Some(o) => o.id,
            None => status::operation_tag(operations::rollout_stem(cluster), image, revision),
        },
        kind: operations::rollout_kind(cluster),
        phase: if blocked {
            "Blocked"@
        } else {
            "Preflight"@
        },
        target: image,
        revision,
        message,
        previous_image: if existing is Some && existing->0.previous_image is Some {
            existing->0.previous_image
        } else if cluster.spec.rollout.rollback_to_image is Some {
            Some(cluster.spec.image@)
        } else {
            None
        },
        current_broker: None,
    }
}

/// The status while a check waits or fails.
pub open spec fn checked_status(
    s: QueueStatusView,
    at: Stamp,
    cluster: RustQueue,
    image: Seq<char>,
    message: Seq<char>,
    blocked: bool,
) -> QueueStatusView {
    let phase = if blocked {
        "PreflightBlocked"@
    } else {
        "Preflight"@
    };
    let operation = preflight_operation(cluster, image, message, blocked);
    QueueStatusView {
        current_operation: Some(operations::recorded(s.current_operation, operation, at.time)),
        operation_history: status::with_replaced(
            s.operation_history,
            s.current_operation,
            operation.id,
        ),
        ..s.summarised(phase, message).said(at, "Ready"@, false, phase, message).said(
            at,
            "Progressing"@,
            !blocked,
            phase,
            message,
        ).said(at, "Degraded"@, blocked, phase, message).said(
            at,
            "Upgradeable"@,
            false,
            phase,
            message,
        )
    }
}

/// The operation of a check that waits or fails.
fn check_operation(cluster: &RustQueue, target_image: &str, message: &str, blocked: bool) -> (r:
    PendingOperation)
    ensures
        r@ == preflight_operation(*cluster, target_image@, message@, blocked),
{
    let rollback = cluster.spec.rollout.rollback_to_image.is_some();
    let kind = if rollback {
        "Rollback"
    } else {
        "Rollout"
    };
    let stem = if rollback {
        "rollback"
    } else {
        "rollout"
    };
    let fallback_image = if rollback {
        Some(cluster.spec.image.clone())
    } else {
        None
    };
    let existing = find_rollout(cluster, kind, target_image);
    let revision = match existing {
        Some(o) => o.revision.clone(),
        None => {
            let mut r = "preflight:".to_owned();
            r.append(text::decimal(cluster.spec.storage_feature_level as u64).as_str());
            r.append(":");
            r.append(cluster.spec.rollout.retry_nonce.as_str());
            r
        },
    };
    let id = match existing {
        Some(o) => o.id.clone(),
        None => status::operation_id(stem, target_image, revision.as_str()),
    };
    let previous_image = match existing {
        Some(o) => match &o.previous_image {
            Some(image) => Some(image.clone()),
            None => fallback_image,
        },
        None => fallback_image,
    };
    PendingOperation {
        id,
        kind: kind.to_owned(),
        phase: if blocked {
            "Blocked".to_owned()
        } else {
            "Preflight".to_owned()
        },
        target: target_image.to_owned(),
        revision,
        message: message.to_owned(),
        previous_image,
        current_broker: None,
    }
}

/// The status while a check waits or fails; there is none where it passed.
pub fn preflight_status(builder: StatusBuilder<'_>, target_image: &str, outcome: &Outcome) -> (r:
    Option<RustQueueStatus>)
    ensures
        match outcome@ {
            OutcomeView::Ready { active_feature_level: _ } => r is None,
            OutcomeView::Pending(m) => r is Some && r->0@ == checked_status(
                builder.status@,
                builder.stamp(),
                *builder.cluster,
                target_image@,
                m,
                false,
            ),
            OutcomeView::Blocked(m) => r is Some && r->0@ == checked_status(
                builder.status@,
                builder.stamp(),
                *builder.cluster,
                target_image@,
                m,
                true,
            ),
        },
{
    let (message, blocked) = match outcome {
        Outcome::Ready { active_feature_level: _ } => {
            return None;
        },
        Outcome::Pending(m) => (m, false),
        Outcome::Blocked(m) => (m, true),
    };
    let phase = if blocked {
        "PreflightBlocked"
    } else {
        "Preflight"
    };
    let m = message.as_str();
    let operation = check_operation(builder.cluster, target_image, m, blocked);
    let builder = builder.summary(phase, m).condition("Ready", false, phase, m).condition(
        "Progressing",
        !blocked,
        phase,
        m,
    ).condition("Degraded", blocked, phase, m).condition("Upgradeable", false, phase, m);
    Some(operation.apply(builder).build())
}

// The end of a reconciliation.

/// Whether the gateways are as they are to be.
pub open spec fn gateways_ready(k: KodoCompatibility, p: KodoPlan, ready_gateways: i32) -> bool {
    !k.enabled || (p.gateways_active && ready_gateways == 3)
}

/// Whether the grace after the advertisement has passed.
pub open spec fn cutover_ready(k: KodoCompatibility, p: KodoPlan) -> bool {
    !k.enabled || (p.gateways_ready && p.gateways_advertised && p.cutover_elapsed)
}

/// What is said of the gateways.
pub open spec fn gateways_text(ready_gateways: i32) -> Seq<char> {
    text::dec_int(ready_gateways as int) + " of 3 Kodo publish gateways are Ready"@
}

/// What is said while the gateways are kept though Kodo is switched off.
pub open spec fn disabling_text(k: KodoCompatibility, p: KodoPlan) -> Seq<char> {
    if !p.inventory_safe {
        "at least three direct Brokers are required before Kodo Gateways can be removed"@
    } else if !p.direct_brokers_advertised {
        "waiting for Discovery to advertise direct Broker addresses"@
    } else {
        "waiting "@ + text::dec(k.cutover_grace_seconds as nat)
            + " seconds before removing the previous Kodo Gateways"@
    }
}

/// The phase and message of a cluster whose operations leave it in a phase: one
/// that would be ready waits for what is missing for Kodo, the first such thing
/// first.
pub open spec fn phase_for_kodo(
    k: KodoCompatibility,
    p: KodoPlan,
    ready_gateways: i32,
    phase: Seq<char>,
    message: Seq<char>,
) -> (Seq<char>, Seq<char>) {
    let only_restart = k.enabled && p.gateways_ready && p.gateways_advertised && p.cutover_elapsed
        && !p.restart_confirmed;
    if phase == "Ready"@ && !gateways_ready(k, p, ready_gateways) {
        ("WaitingForKodoGateways"@, gateways_text(ready_gateways))
    } else if phase == "Ready"@ && k.enabled && !p.gateways_advertised {
        (
            "WaitingForKodoAdvertisement"@,
            "waiting for the replacement Discovery set to become Ready"@,
        )
    } else if phase == "Ready"@ && !cutover_ready(k, p) {
        (
            "WaitingForKodoCutover"@,
            "waiting "@ + text::dec(k.cutover_grace_seconds as nat)
                + " seconds for the Gateway Discovery cutover to remain stable"@,
        )
    } else if k.enabled && !p.restart_confirmed && (phase == "Ready"@ || (phase
        == "WaitingForKodoCutover"@ && only_restart)) {
        (
            "WaitingForKodoProducerRestart"@,
            "restart every Kodo publisher after Gateway advertisement, then change spec.kodoCompatibility.producerRestartNonce"@,
        )
    } else if phase == "Ready"@ && p.retain_existing {
        ("DisablingKodo"@, disabling_text(k, p))
    } else {
        (phase, message)
    }
}

/// The phase and message of a cluster, once Kodo is taken into account.
pub fn settle_phase(
    k: &KodoCompatibility,
    p: &KodoPlan,
    ready_gateways: i32,
    phase: String,
    message: String,
) -> (r: (String, String))
    ensures
        (r.0@, r.1@) == phase_for_kodo(*k, *p, ready_gateways, phase@, message@),
{
    let ready = text::str_eq(phase.as_str(), "Ready");
    let gateways = !k.enabled || (p.gateways_active && ready_gateways == 3);
    if ready && !gateways {
        let mut m = text::decimal_i64(ready_gateways as i64);
        m.append(" of 3 Kodo publish gateways are Ready");
        return ("WaitingForKodoGateways".to_owned(), m);
    }
    if ready && k.enabled && !p.gateways_advertised {
        return (
            "WaitingForKodoAdvertisement".to_owned(),
            "waiting for the replacement Discovery set to become Ready".to_owned(),
        );
    }
    let cutover = !k.enabled || (p.gateways_ready && p.gateways_advertised && p.cutover_elapsed);
    if ready && !cutover {
        let mut m = "waiting ".to_owned();
        m.append(text::decimal(k.cutover_grace_seconds).as_str());
        m.append(" seconds for the Gateway Discovery cutover to remain stable");
        return ("WaitingForKodoCutover".to_owned(), m);
    }
    let only_restart = k.enabled && p.gateways_ready && p.gateways_advertised && p.cutover_elapsed
        && !p.restart_confirmed;
    if k.enabled && !p.restart_confirmed && (ready || (text::str_eq(
        phase.as_str(),
        "WaitingForKodoCutover",
    ) && only_restart)) {
        return (
            "WaitingForKodoProducerRestart".to_owned(),
            "restart every Kodo publisher after Gateway advertisement, then change spec.kodoCompatibility.producerRestartNonce".to_owned(),
        );
    }
    if ready && p.retain_existing {
        let m = if !p.inventory_safe {
            "at least three direct Brokers are required before Kodo Gateways can be removed".to_owned()
        } else if !p.direct_brokers_advertised {
            "waiting for Discovery to advertise direct Broker addresses".to_owned()
        } else {
            let mut m = "waiting ".to_owned();
            m.append(text::decimal(k.cutover_grace_seconds).as_str());
            m.append(" seconds before removing the previous Kodo Gateways");
            m
        };
        return ("DisablingKodo".to_owned(), m);
    }
    (phase, message)
}

/// A cluster is called ready only when nothing is missing for Kodo: the gateways
/// run and are advertised, the grace has passed, the producers were restarted,
/// and no gateway is left over.
pub proof fn law_ready_means_nothing_is_missing_for_kodo(
    k: KodoCompatibility,
    p: KodoPlan,
    ready_gateways: i32,
    phase: Seq<char>,
    message: Seq<char>,
)
    requires
        phase_for_kodo(k, p, ready_gateways, phase, message).0 == "Ready"@,
    ensures
        phase == "Ready"@,
        gateways_ready(k, p, ready_gateways),
        k.enabled ==> p.gateways_advertised && p.cutover_elapsed && p.restart_confirmed,
        !p.retain_existing,
{
    reveal_strlit("Ready");
    reveal_strlit("WaitingForKodoGateways");
    reveal_strlit("WaitingForKodoAdvertisement");
    reveal_strlit("WaitingForKodoCutover");
    reveal_strlit("WaitingForKodoProducerRestart");
    reveal_strlit("DisablingKodo");
    let r = phase_for_kodo(k, p, ready_gateways, phase, message).0;
    assert(r.len() == 5);
}

/// What the end of a reconciliation reports on.
pub struct Ending<'a> {
    pub desired: i32,
    pub phase: &'a str,
    pub message: &'a str,
    pub plan: &'a KodoPlan,
    pub ready_gateways: i32,
    pub brokers: &'a BrokerHealth,
    pub storage: &'a StorageReport,
}

/// Whether a cluster is ready.
pub open spec fn is_ready(s: RustQueueSpec, e: Ending<'_>) -> bool {
    let k = s.kodo_compatibility;
    &&& e.phase@ == "Ready"@
    &&& e.brokers.ready == e.desired
    &&& gateways_ready(k, *e.plan, e.ready_gateways)
    &&& (!k.enabled || e.plan.gateways_advertised)
    &&& cutover_ready(k, *e.plan)
    &&& (!k.enabled || e.plan.restart_confirmed)
    &&& !e.plan.retain_existing
}

/// Whether a phase is one that needs help.
pub open spec fn is_degraded(phase: Seq<char>) -> bool {
    phase == "InsufficientNodes"@ || phase == "MaintenanceBlocked"@ || phase == "RolloutBlocked"@
        || phase == "RolloutFailed"@
}

/// Whether a cluster is on its way.
pub open spec fn is_progressing(s: RustQueueSpec, e: Ending<'_>) -> bool {
    !is_ready(s, e) && !is_degraded(e.phase@) && e.phase@ != "Maintenance"@
}

/// Whether a broker is to be held in maintenance.
pub open spec fn in_maintenance(s: RustQueueSpec) -> bool {
    s.maintenance is Some && s.maintenance->0.enabled
}

/// The status with the conditions that do not concern Kodo.
#[verifier::opaque]
pub open spec fn general_conditions(
    v: QueueStatusView,
    at: Stamp,
    s: RustQueueSpec,
    e: Ending<'_>,
) -> QueueStatusView {
    let m = in_maintenance(s);
    let orphans = e.storage.orphaned_pvcs@.len() > 0;
    let down = e.brokers.unavailable@.len() > 0;
    v.summarised(e.phase@, e.message@).said(at, "Ready"@, is_ready(s, e), e.phase@, e.message@).said(
        at,
        "Progressing"@,
        is_progressing(s, e),
        e.phase@,
        e.message@,
    ).said(at, "Degraded"@, is_degraded(e.phase@), e.phase@, e.message@).said(
        at,
        "StorageReady"@,
        true,
        "CapacityReady"@,
        e.storage.message@,
    ).said(
        at,
        "Upgradeable"@,
        true,
        "PreflightPassed"@,
        "binary compatibility checks passed"@,
    ).said(
        at,
        "Maintenance"@,
        m,
        if m {
            "Requested"@
        } else {
            "NotRequested"@
        },
        if m {
            "a Broker is intentionally drained"@
        } else {
            "no Broker maintenance is requested"@
        },
    ).said(
        at,
        "OrphanedPVCs"@,
        orphans,
        if orphans {
            "RetainedAfterScaleDown"@
        } else {
            "None"@
        },
        if orphans {
            "retained PVCs require an explicit operator decision"@
        } else {
            "no retained orphan PVCs"@
        },
    ).said(
        at,
        "BrokersAvailable"@,
        !down,
        if down {
            "PodsUnavailable"@
        } else {
            "AllReady"@
        },
        if down {
            text_list::joined(text::texts(e.brokers.unavailable@), "; "@)
        } else {
            "all Broker Pods are Ready"@
        },
    )
}

/// The status with the conditions on the gateways.
#[verifier::opaque]
pub open spec fn gateway_conditions(
    v: QueueStatusView,
    at: Stamp,
    s: RustQueueSpec,
    e: Ending<'_>,
) -> QueueStatusView {
    let k = s.kodo_compatibility;
    let p = *e.plan;
    let ready = gateways_ready(k, p, e.ready_gateways);
    let off = "Kodo compatibility is disabled"@;
    v.said(
        at,
        "KodoGatewaysActive"@,
        p.gateways_active,
        if !k.enabled {
            "Disabled"@
        } else if p.gateways_active {
            "Active"@
        } else {
            "WaitingForBrokers"@
        },
        if !k.enabled {
            off
        } else if p.gateways_active {
            "Kodo publish gateway replicas are activated"@
        } else {
            "waiting for two Ready Brokers before starting Kodo Gateways"@
        },
    ).said(
        at,
        "KodoGatewaysReady"@,
        k.enabled && ready,
        if !k.enabled {
            "Disabled"@
        } else if ready {
            "AllReady"@
        } else {
            "PodsUnavailable"@
        },
        if !k.enabled {
            off
        } else {
            gateways_text(e.ready_gateways)
        },
    ).said(
        at,
        "KodoGatewaysAdvertised"@,
        p.gateways_advertised,
        if !k.enabled {
            "Disabled"@
        } else if p.gateways_advertised {
            "Advertised"@
        } else {
            "WaitingForGateways"@
        },
        if !k.enabled {
            off
        } else if p.gateways_advertised {
            "Discovery advertises the stable Kodo Gateway addresses"@
        } else {
            "Discovery Service has not switched to the stable Kodo Gateway addresses"@
        },
    )
}

/// The status with the conditions on the cutover.
#[verifier::opaque]
pub open spec fn cutover_conditions(
    v: QueueStatusView,
    at: Stamp,
    s: RustQueueSpec,
    e: Ending<'_>,
) -> QueueStatusView {
    let k = s.kodo_compatibility;
    let p = *e.plan;
    let ready = cutover_ready(k, p);
    let off = "Kodo compatibility is disabled"@;
    v.said(
        at,
        "KodoCutoverReady"@,
        k.enabled && ready,
        if !k.enabled {
            "Disabled"@
        } else if ready {
            "DiscoveryGraceElapsed"@
        } else {
            "WaitingForDiscoveryGrace"@
        },
        if !k.enabled {
            off
        } else if ready {
            "Kodo Gateway Discovery stability grace has elapsed"@
        } else {
            "waiting "@ + text::dec(k.cutover_grace_seconds as nat)
                + " seconds after Gateway advertisement"@
        },
    ).said(
        at,
        "KodoProducerRestartConfirmed"@,
        k.enabled && p.restart_confirmed,
        if !k.enabled {
            "Disabled"@
        } else if p.restart_confirmed {
            "NonceChangedAfterAdvertisement"@
        } else if p.gateways_advertised {
            "WaitingForRestart"@
        } else {
            "WaitingForAdvertisement"@
        },
        if !k.enabled {
            off
        } else if p.restart_confirmed {
            "Kodo producer restart was explicitly confirmed after Gateway advertisement"@
        } else if p.gateways_advertised {
            "restart every Kodo publisher, wait for it to become Ready, then change producerRestartNonce"@
        } else {
            "producer restart confirmation is accepted only after Gateway advertisement"@
        },
    )
}

/// The status with the conditions on leaving Kodo.
#[verifier::opaque]
pub open spec fn leaving_conditions(
    v: QueueStatusView,
    at: Stamp,
    s: RustQueueSpec,
    e: Ending<'_>,
) -> QueueStatusView {
    let k = s.kodo_compatibility;
    let p = *e.plan;
    v.said(
        at,
        "KodoDirectBrokersAdvertised"@,
        p.direct_brokers_advertised,
        if k.enabled {
            "GatewayMode"@
        } else if p.direct_brokers_advertised {
            "Advertised"@
        } else {
            "WaitingForSafeInventory"@
        },
        if k.enabled {
            "Discovery advertises Kodo Gateway addresses"@
        } else if p.direct_brokers_advertised {
            "Discovery advertises direct Broker addresses"@
        } else if !p.inventory_safe {
            "fewer than three direct Brokers would be visible to Kodo"@
        } else {
            "Discovery has not completed its direct Broker cutover"@
        },
    ).said(
        at,
        "KodoCleanupActive"@,
        false,
        if !k.enabled {
            "Disabled"@
        } else {
            "NotRequested"@
        },
        if !k.enabled {
            "Kodo compatibility is disabled"@
        } else {
            "Kodo automatic cleanup is disabled"@
        },
    ).said(
        at,
        "KodoDecommissionConfirmed"@,
        !k.enabled && k.decommission_confirmed,
        if k.enabled {
            "CompatibilityActive"@
        } else if k.decommission_confirmed {
            "Confirmed"@
        } else {
            "NotRequired"@
        },
        if k.enabled {
            "Kodo compatibility is active"@
        } else if k.decommission_confirmed {
            "all Kodo workloads were explicitly confirmed stopped"@
        } else {
            "no Kodo Gateway decommission is in progress"@
        },
    )
}

/// The status at the end of a reconciliation.
pub open spec fn ended_status(
    v: QueueStatusView,
    at: Stamp,
    s: RustQueueSpec,
    e: Ending<'_>,
    baseline: Option<Seq<char>>,
    operation: Option<PendingView>,
) -> QueueStatusView {
    let said = QueueStatusView {
        orphaned_pvcs: text::texts(e.storage.orphaned_pvcs@),
        kodo_producer_restart_baseline_nonce: baseline,
        ..leaving_conditions(
            cutover_conditions(
                gateway_conditions(general_conditions(v, at, s, e), at, s, e),
                at,
                s,
                e,
            ),
            at,
            s,
            e,
        )
    };
    match operation {
        Some(o) => QueueStatusView {
            current_operation: Some(operations::recorded(said.current_operation, o, at.time)),
            operation_history: status::with_replaced(
                said.operation_history,
                said.current_operation,
                o.id,
            ),
            ..said
        },
        None => said,
    }
}

fn say_general<'a>(builder: StatusBuilder<'a>, e: &Ending<'_>) -> (r: StatusBuilder<'a>)
    ensures
        r.status@ == general_conditions(
            builder.status@,
            builder.stamp(),
            builder.cluster.spec,
            *e,
        ),
        r.time == builder.time,
        r.cluster == builder.cluster,
{
    reveal(general_conditions);
    let k = &builder.cluster.spec.kodo_compatibility;
    let p = e.plan;
    let gateways = !k.enabled || (p.gateways_active && e.ready_gateways == 3);
    let cutover = !k.enabled || (p.gateways_ready && p.gateways_advertised && p.cutover_elapsed);
    let ready = text::str_eq(e.phase, "Ready") && e.brokers.ready == e.desired && gateways && (
    !k.enabled || p.gateways_advertised) && cutover && (!k.enabled || p.restart_confirmed)
        && !p.retain_existing;
    let degraded = text::str_eq(e.phase, "InsufficientNodes") || text::str_eq(
        e.phase,
        "MaintenanceBlocked",
    ) || text::str_eq(e.phase, "RolloutBlocked") || text::str_eq(e.phase, "RolloutFailed");
    let progressing = !ready && !degraded && !text::str_eq(e.phase, "Maintenance");
    let maintenance = match &builder.cluster.spec.maintenance {
        Some(m) => m.enabled,
        None => false,
    };
    let orphans = e.storage.orphaned_pvcs.len() > 0;
    let down = e.brokers.unavailable.len() > 0;
    let availability = if down {
        text_list::join(&e.brokers.unavailable, "; ")
    } else {
        "all Broker Pods are Ready".to_owned()
    };
    builder.summary(e.phase, e.message).condition("Ready", ready, e.phase, e.message).condition(
        "Progressing",
        progressing,
        e.phase,
        e.message,
    ).condition("Degraded", degraded, e.phase, e.message).condition(
        "StorageReady",
        true,
        "CapacityReady",
        e.storage.message.as_str(),
    ).condition(
        "Upgradeable",
        true,
        "PreflightPassed",
        "binary compatibility checks passed",
    ).condition(
        "Maintenance",
        maintenance,
        if maintenance {
            "Requested"
        } else {
            "NotRequested"
        },
        if maintenance {
            "a Broker is intentionally drained"
        } else {
            "no Broker maintenance is requested"
        },
    ).condition(
        "OrphanedPVCs",
        orphans,
        if orphans {
            "RetainedAfterScaleDown"
        } else {
            "None"
        },
        if orphans {
            "retained PVCs require an explicit operator decision"
        } else {
            "no retained orphan PVCs"
        },
    ).condition(
        "BrokersAvailable",
        !down,
        if down {
            "PodsUnavailable"
        } else {
            "AllReady"
        },
        availability.as_str(),
    )
}

fn say_gateways<'a>(builder: StatusBuilder<'a>, e: &Ending<'_>) -> (r: StatusBuilder<'a>)
    ensures
        r.status@ == gateway_conditions(
            builder.status@,
            builder.stamp(),
            builder.cluster.spec,
            *e,
        ),
        r.time == builder.time,
        r.cluster == builder.cluster,
{
    reveal(gateway_conditions);
    let enabled = builder.cluster.spec.kodo_compatibility.enabled;
    let p = e.plan;
    let ready = !enabled || (p.gateways_active && e.ready_gateways == 3);
    let off = "Kodo compatibility is disabled";
    let mut count = text::decimal_i64(e.ready_gateways as i64);
    count.append(" of 3 Kodo publish gateways are Ready");
    builder.condition(
        "KodoGatewaysActive",
        p.gateways_active,
        if !enabled {
            "Disabled"
        } else if p.gateways_active {
            "Active"
        } else {
            "WaitingForBrokers"
        },
        if !enabled {
            off
        } else if p.gateways_active {
            "Kodo publish gateway replicas are activated"
        } else {
            "waiting for two Ready Brokers before starting Kodo Gateways"
        },
    ).condition(
        "KodoGatewaysReady",
        enabled && ready,
        if !enabled {
            "Disabled"
        } else if ready {
            "AllReady"
        } else {
            "PodsUnavailable"
        },
        if !enabled {
            off
        } else {
            count.as_str()
        },
    ).condition(
        "KodoGatewaysAdvertised",
        p.gateways_advertised,
        if !enabled {
            "Disabled"
        } else if p.gateways_advertised {
            "Advertised"
        } else {
            "WaitingForGateways"
        },
        if !enabled {
            off
        } else if p.gateways_advertised {
            "Discovery advertises the stable Kodo Gateway addresses"
        } else {
            "Discovery Service has not switched to the stable Kodo Gateway addresses"
        },
    )
}

fn say_cutover<'a>(builder: StatusBuilder<'a>, e: &Ending<'_>) -> (r: StatusBuilder<'a>)
    ensures
        r.status@ == cutover_conditions(
            builder.status@,
            builder.stamp(),
            builder.cluster.spec,
            *e,
        ),
        r.time == builder.time,
        r.cluster == builder.cluster,
{
    reveal(cutover_conditions);
    let enabled = builder.cluster.spec.kodo_compatibility.enabled;
    let p = e.plan;
    let ready = !enabled || (p.gateways_ready && p.gateways_advertised && p.cutover_elapsed);
    let off = "Kodo compatibility is disabled";
    let mut wait = "waiting ".to_owned();
    wait.append(
        text::decimal(builder.cluster.spec.kodo_compatibility.cutover_grace_seconds).as_str(),
    );
    wait.append(" seconds after Gateway advertisement");
    builder.condition(
        "KodoCutoverReady",
        enabled && ready,
        if !enabled {
            "Disabled"
        } else if ready {
            "DiscoveryGraceElapsed"
        } else {
            "WaitingForDiscoveryGrace"
        },
        if !enabled {
            off
        } else if ready {
            "Kodo Gateway Discovery stability grace has elapsed"
        } else {
            wait.as_str()
        },
    ).condition(
        "KodoProducerRestartConfirmed",
        enabled && p.restart_confirmed,
        if !enabled {
            "Disabled"
        } else if p.restart_confirmed {
            "NonceChangedAfterAdvertisement"
        } else if p.gateways_advertised {
            "WaitingForRestart"
        } else {
            "WaitingForAdvertisement"
        },
        if !enabled {
            off
        } else if p.restart_confirmed {
            "Kodo producer restart was explicitly confirmed after Gateway advertisement"
        } else if p.gateways_advertised {
            "restart every Kodo publisher, wait for it to become Ready, then change producerRestartNonce"
        } else {
            "producer restart confirmation is accepted only after Gateway advertisement"
        },
    )
}

fn say_leaving<'a>(builder: StatusBuilder<'a>, e: &Ending<'_>) -> (r: StatusBuilder<'a>)
    ensures
        r.status@ == leaving_conditions(
            builder.status@,
            builder.stamp(),
            builder.cluster.spec,
            *e,
        ),
        r.time == builder.time,
        r.cluster == builder.cluster,
{
    reveal(leaving_conditions);
    let k = &builder.cluster.spec.kodo_compatibility;
    let enabled = k.enabled;
    let confirmed = k.decommission_confirmed;
    let p = e.plan;
    builder.condition(
        "KodoDirectBrokersAdvertised",
        p.direct_brokers_advertised,
        if enabled {
            "GatewayMode"
        } else if p.direct_brokers_advertised {
            "Advertised"
        } else {
            "WaitingForSafeInventory"
        },
        if enabled {
            "Discovery advertises Kodo Gateway addresses"
        } else if p.direct_brokers_advertised {
            "Discovery advertises direct Broker addresses"
        } else if !p.inventory_safe {
            "fewer than three direct Brokers would be visible to Kodo"
        } else {
            "Discovery has not completed its direct Broker cutover"
        },
    ).condition(
        "KodoCleanupActive",
        false,
        if !enabled {
            "Disabled"
        } else {
            "NotRequested"
        },
        if !enabled {
            "Kodo compatibility is disabled"
        } else {
            "Kodo automatic cleanup is disabled"
        },
    ).condition(
        "KodoDecommissionConfirmed",
        !enabled && confirmed,
        if enabled {
            "CompatibilityActive"
        } else if confirmed {
            "Confirmed"
        } else {
            "NotRequired"
        },
        if enabled {
            "Kodo compatibility is active"
        } else if confirmed {
            "all Kodo workloads were explicitly confirmed stopped"
        } else {
            "no Kodo Gateway decommission is in progress"
        },
    )
}

/// The status at the end of a reconciliation.
pub fn final_status(
    builder: StatusBuilder<'_>,
    e: &Ending<'_>,
    baseline_nonce: Option<String>,
    operation: Option<&PendingOperation>,
) -> (r: RustQueueStatus)
    ensures
        r@ == ended_status(
            builder.status@,
            builder.stamp(),
            builder.cluster.spec,
            *e,
            text::opt_text(baseline_nonce),
            match operation {
                Some(o) => Some(o@),
                None => None,
            },
        ),
{
    let builder = say_leaving(say_cutover(say_gateways(say_general(builder, e), e), e), e);
    let builder = builder.orphaned_pvcs(
        text::clone_texts(&e.storage.orphaned_pvcs),
    ).kodo_producer_restart_baseline_nonce(baseline_nonce);
    match operation {
        Some(o) => o.apply(builder).build(),
        None => builder.build(),
    }
}

// The namespace.

/// The namespace that is watched: the one that is set, else that of the service
/// account, else `default`.
pub open spec fn namespace_of(set: Option<Seq<char>>, account: Option<Seq<char>>) -> Seq<char> {
    if set is Some && !text::is_blank(set->0) {
        text::trimmed(set->0)
    } else if account is Some {
        text::trimmed(account->0)
    } else {
        "default"@
    }
}

/// The namespace that is watched.
pub fn watch_namespace(set: Option<String>, account: Option<String>) -> (r: String)
    ensures
        r@ == namespace_of(text::opt_text(set), text::opt_text(account)),
{
    if let Some(s) = &set {
        if !text::blank(s.as_str()) {
            return text::trim(s.as_str());
        }
    }
    match account {
        Some(s) => text::trim(s.as_str()),
        None => "default".to_owned(),
    }
}

proof fn lemma_types_differ()
    ensures
        "Ready"@.len() == 5,
        "Progressing"@.len() == 11,
        "Degraded"@.len() == 8,
        "StorageReady"@.len() == 12,
        "Upgradeable"@.len() == 11,
        "Maintenance"@.len() == 11,
        "OrphanedPVCs"@.len() == 12,
        "BrokersAvailable"@.len() == 16,
        "KodoGatewaysActive"@.len() == 18,
        "KodoGatewaysReady"@.len() == 17,
        "KodoGatewaysAdvertised"@.len() == 22,
        "KodoCutoverReady"@.len() == 16,
        "KodoProducerRestartConfirmed"@.len() == 28,
        "KodoDirectBrokersAdvertised"@.len() == 27,
        "KodoCleanupActive"@.len() == 17,
        "KodoDecommissionConfirmed"@.len() == 25,
        "Progressing"@[0] == 'P',
        "Upgradeable"@[0] == 'U',
        "Maintenance"@[0] == 'M',
        "StorageReady"@[0] == 'S',
        "OrphanedPVCs"@[0] == 'O',
        "BrokersAvailable"@[0] == 'B',
        "KodoCutoverReady"@[0] == 'K',
        "KodoGatewaysReady"@[4] == 'G',
        "KodoCleanupActive"@[4] == 'C',
{
    reveal_strlit("Ready");
    reveal_strlit("Progressing");
    reveal_strlit("Degraded");
    reveal_strlit("StorageReady");
    reveal_strlit("Upgradeable");
    reveal_strlit("Maintenance");
    reveal_strlit("OrphanedPVCs");
    reveal_strlit("BrokersAvailable");
    reveal_strlit("KodoGatewaysActive");
    reveal_strlit("KodoGatewaysReady");
    reveal_strlit("KodoGatewaysAdvertised");
    reveal_strlit("KodoCutoverReady");
    reveal_strlit("KodoProducerRestartConfirmed");
    reveal_strlit("KodoDirectBrokersAdvertised");
    reveal_strlit("KodoCleanupActive");
    reveal_strlit("KodoDecommissionConfirmed");
}

/// The next step of a reconciliation is the first of its checks that has not been made or has
/// not been passed; what runs is kept wherever there is something that runs.
pub proof fn law_checks_are_made_in_their_order(f: Findings<'_>)
    ensures
        ({
            let image = f.target_image is Some && f.target_image->0 is Ready;
            let brokers = f.current_brokers <= 0 || (f.brokers is Some && f.brokers->0 is Ready);
            let go = !f.decommission_blocked;
            let step = step_after(f);
            &&& step is RetainGateways <==> f.decommission_blocked
            &&& step is CheckTargetImage <==> go && f.target_image is None
            &&& step is ReportTargetImage <==> go && f.target_image is Some && !image
            &&& step is CheckBrokers <==> go && image && !brokers && f.brokers is None
            &&& step is ReportBrokers <==> go && image && !brokers && f.brokers is Some
            &&& step is CheckStorage <==> go && image && brokers && f.storage is None
            &&& step is ReportStorage <==> go && image && brokers && f.storage is Some
                && f.storage->0 != StorageState::Ready
            &&& step is Apply <==> go && image && brokers && f.storage is Some && f.storage->0
                == StorageState::Ready
            &&& step matches Step::ReportTargetImage { recover } ==> recover == (f.current_brokers
                > 0)
            &&& step matches Step::ReportStorage { recover } ==> recover == (f.current_brokers > 0)
        }),
{
}

/// No broker is taken away by applying the resources: those that run stay, and those that are
/// wanted are added.
pub proof fn law_applying_takes_no_broker_away(current: i32, desired: i32, r: i32)
    requires
        call_ensures(applied_replicas, (current, desired), r),
    ensures
        r == current || r == desired,
        r >= desired,
        current > 0 ==> r >= current,
        current == 0 ==> r == desired,
{
}

/// Planning changes only what concerns Kodo, and goes by the plan; before there is a plan no
/// gateway is asked for, and none is taken away while it is still needed.
pub proof fn law_inputs_differ_in_what_concerns_kodo(
    staged: BuildInput<'_>,
    p: KodoPlan,
    recovery: KodoRuntimeRecovery,
    cleanup: bool,
    planned: BuildInput<'_>,
    kept: BuildInput<'_>,
)
    requires
        call_ensures(planned_input, (staged, &p), planned),
        call_ensures(recovery_input, (staged, &recovery, cleanup), kept),
    ensures
        planned.cluster == staged.cluster && kept.cluster == staged.cluster,
        planned.replicas == staged.replicas && kept.replicas == staged.replicas,
        planned.image == staged.image && kept.image == staged.image,
        planned.claim_template_size == staged.claim_template_size && kept.claim_template_size
            == staged.claim_template_size,
        planned.secret_name == staged.secret_name && kept.secret_name == staged.secret_name,
        planned.mounted_secret_revision == staged.mounted_secret_revision
            && kept.mounted_secret_revision == staged.mounted_secret_revision,
        planned.kodo_gateway_replicas == p.gateway_replicas && kept.kodo_gateway_replicas
            == recovery.gateway_replicas,
        planned.advertise_kodo_gateways == p.advertise_gateways && kept.advertise_kodo_gateways
            == recovery.advertise_gateways,
        planned.discovery_service_kodo == p.service_kodo && kept.discovery_service_kodo == Some(
            recovery.discovery_service_kodo,
        ),
        planned.retain_existing_kodo_resources == p.retain_existing
            && kept.retain_existing_kodo_resources == recovery.retain_gateways,
        planned.activate_kodo_cleanup == p.activate_cleanup && kept.activate_kodo_cleanup
            == cleanup,
{
}

/// A cluster that is ready but for Kodo is told as waiting for the first thing that Kodo lacks;
/// other phases stay as they are.
pub proof fn law_phases_name_what_kodo_lacks(
    k: KodoCompatibility,
    p: KodoPlan,
    n: i32,
    phase: Seq<char>,
    message: Seq<char>,
)
    ensures
        ({
            let r = phase_for_kodo(k, p, n, phase, message);
            let ready = phase == "Ready"@;
            let served = p.gateways_active && n == 3;
            let switched = p.gateways_ready && p.cutover_elapsed;
            &&& !ready && phase != "WaitingForKodoCutover"@ ==> r == (phase, message)
            &&& !k.enabled && !p.retain_existing ==> r == (phase, message)
            &&& ready && !k.enabled && p.retain_existing ==> r.0 == "DisablingKodo"@
            &&& ready && k.enabled && !served ==> r.0 == "WaitingForKodoGateways"@
            &&& ready && k.enabled && served && !p.gateways_advertised ==> r.0
                == "WaitingForKodoAdvertisement"@
            &&& ready && k.enabled && served && p.gateways_advertised && !switched ==> r.0
                == "WaitingForKodoCutover"@
            &&& ready && k.enabled && served && p.gateways_advertised && switched
                && !p.restart_confirmed ==> r.0 == "WaitingForKodoProducerRestart"@
            &&& ready && k.enabled && served && p.gateways_advertised && switched
                && p.restart_confirmed && !p.retain_existing ==> r == (phase, message)
            &&& phase == "WaitingForKodoCutover"@ && k.enabled && p.gateways_advertised && switched
                && !p.restart_confirmed ==> r.0 == "WaitingForKodoProducerRestart"@
            &&& phase == "WaitingForKodoCutover"@ && (p.restart_confirmed || !switched
                || !p.gateways_advertised) ==> r == (phase, message)
        }),
{
    reveal_strlit("Ready");
    reveal_strlit("WaitingForKodoCutover");
    assert("Ready"@.len() == 5 && "WaitingForKodoCutover"@.len() == 21);
}

/// While gateways may not go, the cluster is told as degraded and not as ready, and the
/// gateways as active.
pub proof fn law_blocked_decommissions_are_told(s: QueueStatusView, at: Stamp)
    ensures
        ({
            let r = decommission_status(s, at);
            &&& r.phase == "KodoDecommissionBlocked"@
            &&& status::tells(r.conditions, "Ready"@, false)
            &&& status::tells(r.conditions, "Progressing"@, false)
            &&& status::tells(r.conditions, "Degraded"@, true)
            &&& status::tells(r.conditions, "KodoGatewaysActive"@, true)
            &&& status::tells(r.conditions, "KodoDecommissionConfirmed"@, false)
            &&& r.orphaned_pvcs == s.orphaned_pvcs && r.current_operation == s.current_operation
        }),
{
    lemma_types_differ();
    let m = decommission_text();
    let p = "KodoDecommissionBlocked"@;
    let a = s.summarised(p, m);
    status::lemma_said(a, at, "Ready"@, false, p, m);
    let a = a.said(at, "Ready"@, false, p, m);
    status::lemma_said(a, at, "Progressing"@, false, p, m);
    let a = a.said(at, "Progressing"@, false, p, m);
    status::lemma_said(a, at, "Degraded"@, true, p, m);
    let a = a.said(at, "Degraded"@, true, p, m);
    let w = "RetainedForSafety"@;
    let t = "Kodo Gateways and their existing Discovery route remain active"@;
    status::lemma_said(a, at, "KodoGatewaysActive"@, true, w, t);
    let a = a.said(at, "KodoGatewaysActive"@, true, w, t);
    status::lemma_said(a, at, "KodoDecommissionConfirmed"@, false, "ConfirmationRequired"@, m);
    let c = decommission_status(s, at).conditions;
    assert(status::shows(c, "Ready"@, false, p, m));
    assert(status::shows(c, "Progressing"@, false, p, m));
    assert(status::shows(c, "Degraded"@, true, p, m));
    assert(status::shows(c, "KodoGatewaysActive"@, true, w, t));
    assert(status::shows(c, "KodoDecommissionConfirmed"@, false, "ConfirmationRequired"@, m));
}

/// Volumes that cannot be had are told as a degradation, volumes that are on their way as
/// progress; either way the cluster is not ready, for the reason that the volumes give.
pub proof fn law_volumes_are_told_as_they_are(s: QueueStatusView, at: Stamp, v: StorageView)
    ensures
        ({
            let r = storage_status(s, at, v);
            let stuck = v.state == StorageState::Blocked;
            &&& r.phase == if stuck {
                "StorageBlocked"@
            } else {
                "StorageResizing"@
            }
            &&& r.message == v.message
            &&& r.orphaned_pvcs == v.orphaned_pvcs
            &&& status::shows(r.conditions, "Ready"@, false, r.phase, v.message)
            &&& status::shows(r.conditions, "Progressing"@, !stuck, r.phase, v.message)
            &&& status::shows(r.conditions, "Degraded"@, stuck, r.phase, v.message)
            &&& status::shows(r.conditions, "StorageReady"@, false, r.phase, v.message)
            &&& status::tells(r.conditions, "Upgradeable"@, true)
        }),
{
    lemma_types_differ();
    let stuck = v.state == StorageState::Blocked;
    let p = storage_status(s, at, v).phase;
    let m = v.message;
    let a = s.summarised(p, m);
    status::lemma_said(a, at, "Ready"@, false, p, m);
    let a = a.said(at, "Ready"@, false, p, m);
    status::lemma_said(a, at, "Progressing"@, !stuck, p, m);
    let a = a.said(at, "Progressing"@, !stuck, p, m);
    status::lemma_said(a, at, "Degraded"@, stuck, p, m);
    let a = a.said(at, "Degraded"@, stuck, p, m);
    status::lemma_said(a, at, "StorageReady"@, false, p, m);
    let a = a.said(at, "StorageReady"@, false, p, m);
    let w = "PreflightPassed"@;
    let t = "binary compatibility checks passed"@;
    status::lemma_said(a, at, "Upgradeable"@, true, w, t);
    assert(status::shows(storage_status(s, at, v).conditions, "Upgradeable"@, true, w, t));
}

/// A reconciliation that fails is told with its error, as a degradation.
pub proof fn law_errors_are_told(s: QueueStatusView, at: Stamp, m: Seq<char>)
    ensures
        ({
            let r = error_status(s, at, m);
            &&& r.phase == "ReconcileError"@ && r.message == m
            &&& status::shows(r.conditions, "Ready"@, false, "ReconcileError"@, m)
            &&& status::shows(r.conditions, "Progressing"@, false, "ReconcileError"@, m)
            &&& status::shows(r.conditions, "Degraded"@, true, "ReconcileError"@, m)
            &&& r.current_operation == s.current_operation && r.orphaned_pvcs == s.orphaned_pvcs
        }),
{
    lemma_types_differ();
    let p = "ReconcileError"@;
    let a = s.summarised(p, m);
    status::lemma_said(a, at, "Ready"@, false, p, m);
    let a = a.said(at, "Ready"@, false, p, m);
    status::lemma_said(a, at, "Progressing"@, false, p, m);
    let a = a.said(at, "Progressing"@, false, p, m);
    status::lemma_said(a, at, "Degraded"@, true, p, m);
}

/// What a check of images or brokers found is told: that it blocks as a degradation, that it is
/// still under way as progress; the operation is the one that rolls the image out, under the ID
/// that it has already.
pub proof fn law_checks_are_told(
    s: QueueStatusView,
    at: Stamp,
    cluster: RustQueue,
    image: Seq<char>,
    m: Seq<char>,
    blocked: bool,
)
    ensures
        ({
            let r = checked_status(s, at, cluster, image, m, blocked);
            let o = r.current_operation->0;
            let back = cluster.spec.rollout.rollback_to_image;
            let before = operations::current_operation(cluster);
            let kind = if back is Some {
                "Rollback"@
            } else {
                "Rollout"@
            };
            let goes_on = before is Some && before->0.kind == kind && before->0.target == image;
            &&& r.phase == if blocked {
                "PreflightBlocked"@
            } else {
                "Preflight"@
            }
            &&& r.message == m
            &&& status::shows(r.conditions, "Ready"@, false, r.phase, m)
            &&& status::shows(r.conditions, "Progressing"@, !blocked, r.phase, m)
            &&& status::shows(r.conditions, "Degraded"@, blocked, r.phase, m)
            &&& status::shows(r.conditions, "Upgradeable"@, false, r.phase, m)
            &&& r.current_operation is Some
            &&& o.phase == if blocked {
                "Blocked"@
            } else {
                "Preflight"@
            }
            &&& o.target == image && o.message == m && o.kind == kind
            &&& o.current_broker is None
            &&& goes_on ==> o.id == before->0.id && o.revision == before->0.revision
            &&& goes_on && before->0.previous_image is Some ==> o.previous_image
                == before->0.previous_image
            &&& !goes_on && back is Some ==> o.previous_image == Some(cluster.spec.image@)
            &&& !goes_on && back is None ==> o.previous_image is None
        }),
{
    lemma_types_differ();
    let p = checked_status(s, at, cluster, image, m, blocked).phase;
    let a = s.summarised(p, m);
    status::lemma_said(a, at, "Ready"@, false, p, m);
    let a = a.said(at, "Ready"@, false, p, m);
    status::lemma_said(a, at, "Progressing"@, !blocked, p, m);
    let a = a.said(at, "Progressing"@, !blocked, p, m);
    status::lemma_said(a, at, "Degraded"@, blocked, p, m);
    let a = a.said(at, "Degraded"@, blocked, p, m);
    status::lemma_said(a, at, "Upgradeable"@, false, p, m);
}

/// What the conditions on the cluster as a whole show.
proof fn lemma_general(
    v: QueueStatusView,
    at: Stamp,
    s: RustQueueSpec,
    e: Ending<'_>,
)
    ensures
        ({
            let c = general_conditions(v, at, s, e).conditions;
            &&& status::shows(c, "Ready"@, is_ready(s, e), e.phase@, e.message@)
            &&& status::shows(c, "Progressing"@, is_progressing(s, e), e.phase@, e.message@)
            &&& status::shows(c, "Degraded"@, is_degraded(e.phase@), e.phase@, e.message@)
            &&& status::shows(c, "StorageReady"@, true, "CapacityReady"@, e.storage.message@)
            &&& status::tells(c, "Upgradeable"@, true)
            &&& status::tells(c, "Maintenance"@, in_maintenance(s))
            &&& status::tells(c, "OrphanedPVCs"@, e.storage.orphaned_pvcs@.len() > 0)
            &&& e.brokers.unavailable@.len() == 0 ==> status::tells(c, "BrokersAvailable"@, true)
            &&& e.brokers.unavailable@.len() > 0 ==> status::shows(
                c,
                "BrokersAvailable"@,
                false,
                "PodsUnavailable"@,
                text_list::joined(text::texts(e.brokers.unavailable@), "; "@),
            )
        }),
{
    reveal(general_conditions);
    lemma_types_differ();
    let orphans = e.storage.orphaned_pvcs@.len() > 0;
    let down = e.brokers.unavailable@.len() > 0;
    let a = v.summarised(e.phase@, e.message@);
    let (b, r, m) = (is_ready(s, e), e.phase@, e.message@);
    status::lemma_said(a, at, "Ready"@, b, r, m);
    let a = a.said(at, "Ready"@, b, r, m);
    let (b, r, m) = (is_progressing(s, e), e.phase@, e.message@);
    status::lemma_said(a, at, "Progressing"@, b, r, m);
    let a = a.said(at, "Progressing"@, b, r, m);
    let (b, r, m) = (is_degraded(e.phase@), e.phase@, e.message@);
    status::lemma_said(a, at, "Degraded"@, b, r, m);
    let a = a.said(at, "Degraded"@, b, r, m);
    let (b, r, m) = (true, "CapacityReady"@, e.storage.message@);
    status::lemma_said(a, at, "StorageReady"@, b, r, m);
    let a = a.said(at, "StorageReady"@, b, r, m);
    let (b, r, m) = (true, "PreflightPassed"@, "binary compatibility checks passed"@);
    status::lemma_said(a, at, "Upgradeable"@, b, r, m);
    let a = a.said(at, "Upgradeable"@, b, r, m);
    let (b, r, m) = (in_maintenance(s), if in_maintenance(s) {
        "Requested"@
    } else {
        "NotRequested"@
    }, if in_maintenance(s) {
        "a Broker is intentionally drained"@
    } else {
        "no Broker maintenance is requested"@
    });
    status::lemma_said(a, at, "Maintenance"@, b, r, m);
    let a = a.said(at, "Maintenance"@, b, r, m);
    let (b, r, m) = (orphans, if orphans {
        "RetainedAfterScaleDown"@
    } else {
        "None"@
    }, if orphans {
        "retained PVCs require an explicit operator decision"@
    } else {
        "no retained orphan PVCs"@
    });
    status::lemma_said(a, at, "OrphanedPVCs"@, b, r, m);
    let a = a.said(at, "OrphanedPVCs"@, b, r, m);
    let (b, r, m) = (!down, if down {
        "PodsUnavailable"@
    } else {
        "AllReady"@
    }, if down {
        text_list::joined(text::texts(e.brokers.unavailable@), "; "@)
    } else {
        "all Broker Pods are Ready"@
    });
    status::lemma_said(a, at, "BrokersAvailable"@, b, r, m);
    let a = a.said(at, "BrokersAvailable"@, b, r, m);
    let c = a.conditions;
    assert(c == general_conditions(v, at, s, e).conditions);
    assert(status::shows(
        c,
        "Upgradeable"@,
        true,
        "PreflightPassed"@,
        "binary compatibility checks passed"@,
    ));
    assert(status::shows(
        c,
        "Maintenance"@,
        in_maintenance(s),
        if in_maintenance(s) {
            "Requested"@
        } else {
            "NotRequested"@
        },
        if in_maintenance(s) {
            "a Broker is intentionally drained"@
        } else {
            "no Broker maintenance is requested"@
        },
    ));
    assert(status::shows(
        c,
        "OrphanedPVCs"@,
        orphans,
        if orphans {
            "RetainedAfterScaleDown"@
        } else {
            "None"@
        },
        if orphans {
            "retained PVCs require an explicit operator decision"@
        } else {
            "no retained orphan PVCs"@
        },
    ));
}

proof fn lemma_gateways(
    v: QueueStatusView,
    at: Stamp,
    s: RustQueueSpec,
    e: Ending<'_>,
)
    ensures
        ({
            let c = gateway_conditions(v, at, s, e).conditions;
            &&& status::tells(c, "KodoGatewaysActive"@, e.plan.gateways_active)
            &&& status::tells(c, "KodoGatewaysReady"@, s.kodo_compatibility.enabled && e.plan.gateways_active && e.ready_gateways
                == 3)
            &&& status::tells(c, "KodoGatewaysAdvertised"@, e.plan.gateways_advertised)
            &&& forall|o: Seq<char>, b: bool, r: Seq<char>, m: Seq<char>|
                #![trigger status::shows(c, o, b, r, m)]
                o != "KodoGatewaysActive"@ && o != "KodoGatewaysReady"@ && o != "KodoGatewaysAdvertised"@ && status::shows(
                    v.conditions,
                    o,
                    b,
                    r,
                    m,
                ) ==> status::shows(c, o, b, r, m)
        }),
{
    reveal(gateway_conditions);
    lemma_types_differ();
    let k = s.kodo_compatibility;
    let p = *e.plan;
    let ready = gateways_ready(k, p, e.ready_gateways);
    let off = "Kodo compatibility is disabled"@;
    let a0 = v;
    let (b0, r0, m0) = (p.gateways_active, if !k.enabled {
            "Disabled"@
        } else if p.gateways_active {
            "Active"@
        } else {
            "WaitingForBrokers"@
        }, if !k.enabled {
            off
        } else if p.gateways_active {
            "Kodo publish gateway replicas are activated"@
        } else {
            "waiting for two Ready Brokers before starting Kodo Gateways"@
        });
    let a1 = a0.said(at, "KodoGatewaysActive"@, b0, r0, m0);
    status::lemma_said(a0, at, "KodoGatewaysActive"@, b0, r0, m0);
    let (b1, r1, m1) = (k.enabled && ready, if !k.enabled {
            "Disabled"@
        } else if ready {
            "AllReady"@
        } else {
            "PodsUnavailable"@
        }, if !k.enabled {
            off
        } else {
            gateways_text(e.ready_gateways)
        });
    let a2 = a1.said(at, "KodoGatewaysReady"@, b1, r1, m1);
    status::lemma_said(a1, at, "KodoGatewaysReady"@, b1, r1, m1);
    let (b2, r2, m2) = (p.gateways_advertised, if !k.enabled {
            "Disabled"@
        } else if p.gateways_advertised {
            "Advertised"@
        } else {
            "WaitingForGateways"@
        }, if !k.enabled {
            off
        } else if p.gateways_advertised {
            "Discovery advertises the stable Kodo Gateway addresses"@
        } else {
            "Discovery Service has not switched to the stable Kodo Gateway addresses"@
        });
    let a3 = a2.said(at, "KodoGatewaysAdvertised"@, b2, r2, m2);
    status::lemma_said(a2, at, "KodoGatewaysAdvertised"@, b2, r2, m2);
    let c = a3.conditions;
    assert(c == gateway_conditions(v, at, s, e).conditions);
    assert(status::shows(c, "KodoGatewaysActive"@, b0, r0, m0));
    assert(status::shows(c, "KodoGatewaysReady"@, b1, r1, m1));
    assert(status::shows(c, "KodoGatewaysAdvertised"@, b2, r2, m2));
    assert forall|o: Seq<char>, b: bool, r: Seq<char>, m: Seq<char>|
        #![trigger status::shows(c, o, b, r, m)]
        o != "KodoGatewaysActive"@ && o != "KodoGatewaysReady"@ && o != "KodoGatewaysAdvertised"@ && status::shows(
            v.conditions,
            o,
            b,
            r,
            m,
        ) implies status::shows(c, o, b, r, m) by {
        assert(status::shows(a1.conditions, o, b, r, m));
        assert(status::shows(a2.conditions, o, b, r, m));
        assert(status::shows(a3.conditions, o, b, r, m));
    }
}

proof fn lemma_cutover(
    v: QueueStatusView,
    at: Stamp,
    s: RustQueueSpec,
    e: Ending<'_>,
)
    ensures
        ({
            let c = cutover_conditions(v, at, s, e).conditions;
            &&& status::tells(c, "KodoCutoverReady"@, s.kodo_compatibility.enabled && e.plan.gateways_ready
                && e.plan.gateways_advertised && e.plan.cutover_elapsed)
            &&& status::tells(c, "KodoProducerRestartConfirmed"@, s.kodo_compatibility.enabled
                && e.plan.restart_confirmed)
            &&& forall|o: Seq<char>, b: bool, r: Seq<char>, m: Seq<char>|
                #![trigger status::shows(c, o, b, r, m)]
                o != "KodoCutoverReady"@ && o != "KodoProducerRestartConfirmed"@ && status::shows(
                    v.conditions,
                    o,
                    b,
                    r,
                    m,
                ) ==> status::shows(c, o, b, r, m)
        }),
{
    reveal(cutover_conditions);
    lemma_types_differ();
    let k = s.kodo_compatibility;
    let p = *e.plan;
    let ready = cutover_ready(k, p);
    let off = "Kodo compatibility is disabled"@;
    let a0 = v;
    let (b0, r0, m0) = (k.enabled && ready, if !k.enabled {
            "Disabled"@
        } else if ready {
            "DiscoveryGraceElapsed"@
        } else {
            "WaitingForDiscoveryGrace"@
        }, if !k.enabled {
            off
        } else if ready {
            "Kodo Gateway Discovery stability grace has elapsed"@
        } else {
            "waiting "@ + text::dec(k.cutover_grace_seconds as nat)
                + " seconds after Gateway advertisement"@
        });
    let a1 = a0.said(at, "KodoCutoverReady"@, b0, r0, m0);
    status::lemma_said(a0, at, "KodoCutoverReady"@, b0, r0, m0);
    let (b1, r1, m1) = (k.enabled && p.restart_confirmed, if !k.enabled {
            "Disabled"@
        } else if p.restart_confirmed {
            "NonceChangedAfterAdvertisement"@
        } else if p.gateways_advertised {
            "WaitingForRestart"@
        } else {
            "WaitingForAdvertisement"@
        }, if !k.enabled {
            off
        } else if p.restart_confirmed {
            "Kodo producer restart was explicitly confirmed after Gateway advertisement"@
        } else if p.gateways_advertised {
            "restart every Kodo publisher, wait for it to become Ready, then change producerRestartNonce"@
        } else {
            "producer restart confirmation is accepted only after Gateway advertisement"@
        });
    let a2 = a1.said(at, "KodoProducerRestartConfirmed"@, b1, r1, m1);
    status::lemma_said(a1, at, "KodoProducerRestartConfirmed"@, b1, r1, m1);
    let c = a2.conditions;
    assert(c == cutover_conditions(v, at, s, e).conditions);
    assert(status::shows(c, "KodoCutoverReady"@, b0, r0, m0));
    assert(status::shows(c, "KodoProducerRestartConfirmed"@, b1, r1, m1));
    assert forall|o: Seq<char>, b: bool, r: Seq<char>, m: Seq<char>|
        #![trigger status::shows(c, o, b, r, m)]
        o != "KodoCutoverReady"@ && o != "KodoProducerRestartConfirmed"@ && status::shows(
            v.conditions,
            o,
            b,
            r,
            m,
        ) implies status::shows(c, o, b, r, m) by {
        assert(status::shows(a1.conditions, o, b, r, m));
        assert(status::shows(a2.conditions, o, b, r, m));
    }
}

proof fn lemma_leaving(
    v: QueueStatusView,
    at: Stamp,
    s: RustQueueSpec,
    e: Ending<'_>,
)
    ensures
        ({
            let c = leaving_conditions(v, at, s, e).conditions;
            &&& status::tells(c, "KodoDirectBrokersAdvertised"@, e.plan.direct_brokers_advertised)
            &&& status::tells(c, "KodoCleanupActive"@, false)
            &&& status::tells(c, "KodoDecommissionConfirmed"@, !s.kodo_compatibility.enabled
                && s.kodo_compatibility.decommission_confirmed)
            &&& forall|o: Seq<char>, b: bool, r: Seq<char>, m: Seq<char>|
                #![trigger status::shows(c, o, b, r, m)]
                o != "KodoDirectBrokersAdvertised"@ && o != "KodoCleanupActive"@ && o != "KodoDecommissionConfirmed"@ && status::shows(
                    v.conditions,
                    o,
                    b,
                    r,
                    m,
                ) ==> status::shows(c, o, b, r, m)
        }),
{
    reveal(leaving_conditions);
    lemma_types_differ();
    let k = s.kodo_compatibility;
    let p = *e.plan;
    let a0 = v;
    let (b0, r0, m0) = (p.direct_brokers_advertised, if k.enabled {
            "GatewayMode"@
        } else if p.direct_brokers_advertised {
            "Advertised"@
        } else {
            "WaitingForSafeInventory"@
        }, if k.enabled {
            "Discovery advertises Kodo Gateway addresses"@
        } else if p.direct_brokers_advertised {
            "Discovery advertises direct Broker addresses"@
        } else if !p.inventory_safe {
            "fewer than three direct Brokers would be visible to Kodo"@
        } else {
            "Discovery has not completed its direct Broker cutover"@
        });
    let a1 = a0.said(at, "KodoDirectBrokersAdvertised"@, b0, r0, m0);
    status::lemma_said(a0, at, "KodoDirectBrokersAdvertised"@, b0, r0, m0);
    let (b1, r1, m1) = (false, if !k.enabled {
            "Disabled"@
        } else {
            "NotRequested"@
        }, if !k.enabled {
            "Kodo compatibility is disabled"@
        } else {
            "Kodo automatic cleanup is disabled"@
        });
    let a2 = a1.said(at, "KodoCleanupActive"@, b1, r1, m1);
    status::lemma_said(a1, at, "KodoCleanupActive"@, b1, r1, m1);
    let (b2, r2, m2) = (!k.enabled && k.decommission_confirmed, if k.enabled {
            "CompatibilityActive"@
        } else if k.decommission_confirmed {
            "Confirmed"@
        } else {
            "NotRequired"@
        }, if k.enabled {
            "Kodo compatibility is active"@
        } else if k.decommission_confirmed {
            "all Kodo workloads were explicitly confirmed stopped"@
        } else {
            "no Kodo Gateway decommission is in progress"@
        });
    let a3 = a2.said(at, "KodoDecommissionConfirmed"@, b2, r2, m2);
    status::lemma_said(a2, at, "KodoDecommissionConfirmed"@, b2, r2, m2);
    let c = a3.conditions;
    assert(c == leaving_conditions(v, at, s, e).conditions);
    assert(status::shows(c, "KodoDirectBrokersAdvertised"@, b0, r0, m0));
    assert(status::shows(c, "KodoCleanupActive"@, b1, r1, m1));
    assert(status::shows(c, "KodoDecommissionConfirmed"@, b2, r2, m2));
    assert forall|o: Seq<char>, b: bool, r: Seq<char>, m: Seq<char>|
        #![trigger status::shows(c, o, b, r, m)]
        o != "KodoDirectBrokersAdvertised"@ && o != "KodoCleanupActive"@ && o != "KodoDecommissionConfirmed"@ && status::shows(
            v.conditions,
            o,
            b,
            r,
            m,
        ) implies status::shows(c, o, b, r, m) by {
        assert(status::shows(a1.conditions, o, b, r, m));
        assert(status::shows(a2.conditions, o, b, r, m));
        assert(status::shows(a3.conditions, o, b, r, m));
    }
}

/// At the end of a reconciliation the cluster is told as ready exactly where its phase is, all
/// the brokers that are wanted are, and Kodo, where it is served, lacks nothing; it is told as
/// degraded where it cannot go on by itself; and what is told of Kodo is what was found.
pub proof fn law_final_statuses_tell_what_was_found(
    v: QueueStatusView,
    at: Stamp,
    s: RustQueueSpec,
    e: Ending<'_>,
    baseline: Option<Seq<char>>,
    operation: Option<PendingView>,
)
    ensures
        ({
            let r = ended_status(v, at, s, e, baseline, operation);
            let k = s.kodo_compatibility;
            let p = *e.plan;
            let served = k.enabled ==> p.gateways_active && e.ready_gateways == 3
                && p.gateways_ready && p.gateways_advertised && p.cutover_elapsed
                && p.restart_confirmed;
            let ready = e.phase@ == "Ready"@ && e.brokers.ready == e.desired && served
                && !p.retain_existing;
            let stuck = e.phase@ == "InsufficientNodes"@ || e.phase@ == "MaintenanceBlocked"@
                || e.phase@ == "RolloutBlocked"@ || e.phase@ == "RolloutFailed"@;
            &&& r.phase == e.phase@ && r.message == e.message@
            &&& r.orphaned_pvcs == text::texts(e.storage.orphaned_pvcs@)
            &&& r.kodo_producer_restart_baseline_nonce == baseline
            &&& r.observed_generation == v.observed_generation
            &&& r.desired_brokers == v.desired_brokers && r.ready_brokers == v.ready_brokers
            &&& r.active_storage_feature_level == v.active_storage_feature_level
            &&& operation is None ==> r.current_operation == v.current_operation
                && r.operation_history == v.operation_history
            &&& operation is Some ==> r.current_operation is Some && r.current_operation->0.id
                == operation->0.id && r.current_operation->0.phase == operation->0.phase
            &&& status::shows(r.conditions, "Ready"@, ready, e.phase@, e.message@)
            &&& status::shows(r.conditions, "Degraded"@, stuck, e.phase@, e.message@)
            &&& status::shows(
                r.conditions,
                "Progressing"@,
                !ready && !stuck && e.phase@ != "Maintenance"@,
                e.phase@,
                e.message@,
            )
        }),
{
    lemma_types_differ();
    reveal(general_conditions);
    reveal(gateway_conditions);
    reveal(cutover_conditions);
    reveal(leaving_conditions);
    lemma_general(v, at, s, e);
    let a = general_conditions(v, at, s, e);
    lemma_gateways(a, at, s, e);
    let a = gateway_conditions(a, at, s, e);
    lemma_cutover(a, at, s, e);
    let a = cutover_conditions(a, at, s, e);
    lemma_leaving(a, at, s, e);
}

/// At the end of a reconciliation the conditions on volumes, maintenance and Kodo say what was
/// found.
pub proof fn law_final_conditions_tell_what_was_found(
    v: QueueStatusView,
    at: Stamp,
    s: RustQueueSpec,
    e: Ending<'_>,
    baseline: Option<Seq<char>>,
    operation: Option<PendingView>,
)
    ensures
        ({
            let c = ended_status(v, at, s, e, baseline, operation).conditions;
            let k = s.kodo_compatibility;
            let p = *e.plan;
            &&& status::shows(c, "StorageReady"@, true, "CapacityReady"@, e.storage.message@)
            &&& status::tells(c, "Upgradeable"@, true)
            &&& status::tells(
                c,
                "Maintenance"@,
                s.maintenance is Some && s.maintenance->0.enabled,
            )
            &&& status::tells(c, "OrphanedPVCs"@, e.storage.orphaned_pvcs@.len() > 0)
            &&& status::tells(c, "BrokersAvailable"@, e.brokers.unavailable@.len() == 0)
            &&& status::tells(c, "KodoGatewaysActive"@, p.gateways_active)
            &&& status::tells(
                c,
                "KodoGatewaysReady"@,
                k.enabled && p.gateways_active && e.ready_gateways == 3,
            )
            &&& status::tells(c, "KodoGatewaysAdvertised"@, p.gateways_advertised)
            &&& status::tells(
                c,
                "KodoCutoverReady"@,
                k.enabled && p.gateways_ready && p.gateways_advertised && p.cutover_elapsed,
            )
            &&& status::tells(
                c,
                "KodoProducerRestartConfirmed"@,
                k.enabled && p.restart_confirmed,
            )
            &&& status::tells(c, "KodoDirectBrokersAdvertised"@, p.direct_brokers_advertised)
            &&& status::tells(c, "KodoCleanupActive"@, false)
            &&& status::tells(
                c,
                "KodoDecommissionConfirmed"@,
                !k.enabled && k.decommission_confirmed,
            )
        }),
{
    lemma_types_differ();
    lemma_general(v, at, s, e);
    let a = general_conditions(v, at, s, e);
    lemma_gateways(a, at, s, e);
    let g = gateway_conditions(a, at, s, e);
    lemma_cutover(g, at, s, e);
    let u = cutover_conditions(g, at, s, e);
    lemma_leaving(u, at, s, e);
    let c = leaving_conditions(u, at, s, e).conditions;
    assert(ended_status(v, at, s, e, baseline, operation).conditions == c);
    assert forall|o: Seq<char>, b: bool|
        o.len() <= 16 && o != "KodoCutoverReady"@ && status::tells(
            a.conditions,
            o,
            b,
        ) implies #[trigger] status::tells(c, o, b) by {
        let (r, m) = choose|r: Seq<char>, m: Seq<char>| #[trigger]
            status::shows(a.conditions, o, b, r, m);
        assert(status::shows(g.conditions, o, b, r, m));
        assert(status::shows(u.conditions, o, b, r, m));
        assert(status::shows(c, o, b, r, m));
    }
    assert forall|o: Seq<char>, b: bool|
        (o == "KodoGatewaysActive"@ || o == "KodoGatewaysReady"@ || o == "KodoGatewaysAdvertised"@)
            && status::tells(g.conditions, o, b) implies #[trigger] status::tells(c, o, b) by {
        let (r, m) = choose|r: Seq<char>, m: Seq<char>| #[trigger]
            status::shows(g.conditions, o, b, r, m);
        assert(status::shows(u.conditions, o, b, r, m));
        assert(status::shows(c, o, b, r, m));
    }
    assert forall|o: Seq<char>, b: bool|
        (o == "KodoCutoverReady"@ || o == "KodoProducerRestartConfirmed"@) && status::tells(
            u.conditions,
            o,
            b,
        ) implies #[trigger] status::tells(c, o, b) by {
        let (r, m) = choose|r: Seq<char>, m: Seq<char>| #[trigger]
            status::shows(u.conditions, o, b, r, m);
        assert(status::shows(c, o, b, r, m));
    }
    if e.brokers.unavailable@.len() > 0 {
        assert(status::tells(a.conditions, "BrokersAvailable"@, false));
    }
}

/// The namespace that is set wins over that of the account, unless it is blank, and spaces round
/// either do not count.
pub proof fn law_the_set_namespace_wins(set: Seq<char>, account: Option<Seq<char>>)
    ensures
        !text::is_blank(set) ==> namespace_of(Some(set), account) == text::trimmed(set),
        text::is_blank(set) ==> namespace_of(Some(set), account) == namespace_of(None, account),
        account is Some ==> namespace_of(None, account) == text::trimmed(account->0),
        namespace_of(None, None) == "default"@,
{
}

/// What is said where the gateways may not go names the setting that lets them.
pub proof fn law_blocked_decommissions_name_the_setting(s: QueueStatusView, at: Stamp)
    ensures
        text::ends(
            decommission_status(s, at).message,
            "spec.kodoCompatibility.decommissionConfirmed=true"@,
        ),
{
    reveal_strlit(
        "Kodo Gateway decommission is blocked: stop every Kodo workload using this Discovery service, then set spec.kodoCompatibility.decommissionConfirmed=true",
    );
    reveal_strlit("spec.kodoCompatibility.decommissionConfirmed=true");
    let t = decommission_text();
    let e = "spec.kodoCompatibility.decommissionConfirmed=true"@;
    assert(t.len() == 151 && e.len() == 49);
    assert(t.skip(t.len() - e.len()) =~= e);
}

} // verus!
