//! Serving Kodo: when the gateways run, when Discovery advertises them, and when
//! they may go again.
use crate::operator::controller::kodo_cutover::{self, ProducerRestartFence};
use crate::operator::controller::status;
use crate::operator::crd::{RustQueue, RustQueueCondition, RustQueueSpec};
use crate::operator::kube::{self, Container, Deployment, EnvVar, Service, StatefulSet};
use crate::string_map;
use crate::text;
use vstd::prelude::*;
use vstd::string::*;

verus! {

/// What runs while a reconciliation is blocked.
#[derive(Clone, Copy, Debug, PartialEq, Eq, Structural)]
pub struct KodoRuntimeRecovery {
    pub gateway_replicas: i32,
    pub advertise_gateways: bool,
    pub discovery_service_kodo: bool,
    pub retain_gateways: bool,
}

/// What is seen of the gateways and of Discovery.
#[derive(Clone, Copy, Debug)]
pub struct KodoRuntimeSignals {
    pub gateway_active: bool,
    pub discovery_mode: Option<bool>,
    pub discovery_route: Option<bool>,
    pub previously_active: bool,
    pub previously_advertised: bool,
}

impl Default for KodoRuntimeSignals {
    fn default() -> (r: Self)
        ensures
            !r.gateway_active,
            r.discovery_mode is None,
            r.discovery_route is None,
            !r.previously_active,
            !r.previously_advertised,
    {
        KodoRuntimeSignals {
            gateway_active: false,
            discovery_mode: None,
            discovery_route: None,
            previously_active: false,
            previously_advertised: false,
        }
    }
}

/// Whether enough brokers run to start the gateways.
pub open spec fn can_activate(current_brokers: i32, ready_brokers: i32) -> bool {
    current_brokers >= 2 && ready_brokers >= 2
}

/// Whether enough brokers run to start the gateways.
pub fn kodo_gateway_activation_ready(current_brokers: i32, ready_brokers: i32) -> (r: bool)
    ensures
        r == can_activate(current_brokers, ready_brokers),
{
    current_brokers >= 2 && ready_brokers >= 2
}

/// What runs while a reconciliation is blocked: Discovery stays as it is, and the
/// gateways stay where anything shows that they are in use.
pub open spec fn recovered(
    enabled: bool,
    current_brokers: i32,
    ready_brokers: i32,
    s: KodoRuntimeSignals,
) -> KodoRuntimeRecovery {
    let seen = s.gateway_active || s.previously_active || s.previously_advertised;
    let advertise = match s.discovery_mode {
        Some(mode) => mode,
        None => match s.discovery_route {
            Some(route) => route,
            None => seen,
        },
    };
    let route = match s.discovery_route {
        Some(route) => route,
        None => advertise,
    };
    let used = seen || advertise || route;
    KodoRuntimeRecovery {
        gateway_replicas: if used || (enabled && can_activate(current_brokers, ready_brokers)) {
            3
        } else {
            0
        },
        advertise_gateways: advertise,
        discovery_service_kodo: route,
        retain_gateways: !enabled && used,
    }
}

/// What runs while a reconciliation is blocked.
pub fn kodo_runtime_recovery(
    enabled: bool,
    current_brokers: i32,
    ready_brokers: i32,
    signals: KodoRuntimeSignals,
) -> (r: KodoRuntimeRecovery)
    ensures
        r == recovered(enabled, current_brokers, ready_brokers, signals),
{
    let seen = signals.gateway_active || signals.previously_active
        || signals.previously_advertised;
    let advertise_gateways = match signals.discovery_mode {
        Some(mode) => mode,
        None => match signals.discovery_route {
            Some(route) => route,
            None => seen,
        },
    };
    let discovery_service_kodo = match signals.discovery_route {
        Some(route) => route,
        None => advertise_gateways,
    };
    let used = seen || advertise_gateways || discovery_service_kodo;
    let gateway_replicas: i32 = if used || (enabled && kodo_gateway_activation_ready(
        current_brokers,
        ready_brokers,
    )) {
        3
    } else {
        0
    };
    KodoRuntimeRecovery {
        gateway_replicas,
        advertise_gateways,
        discovery_service_kodo,
        retain_gateways: !enabled && used,
    }
}

/// A blocked reconciliation changes neither the mode nor the route of Discovery,
/// and takes no gateway away that Discovery points to or that is known to run.
pub proof fn law_recovery_moves_nothing(
    enabled: bool,
    current_brokers: i32,
    ready_brokers: i32,
    s: KodoRuntimeSignals,
)
    ensures
        ({
            let r = recovered(enabled, current_brokers, ready_brokers, s);
            &&& s.discovery_mode is Some ==> r.advertise_gateways == s.discovery_mode->0
            &&& s.discovery_route is Some ==> r.discovery_service_kodo == s.discovery_route->0
            &&& (s.gateway_active || r.advertise_gateways || r.discovery_service_kodo)
                ==> r.gateway_replicas == 3
        }),
{
}

// Workloads.

/// Whether a stateful set has replicas.
pub fn statefulset_has_replicas(set: Option<&StatefulSet>) -> (r: bool)
    ensures
        r == (set is Some && set->0.replicas is Some && set->0.replicas->0 > 0),
{
    match set {
        Some(s) => match s.replicas {
            Some(n) => n > 0,
            None => false,
        },
        None => false,
    }
}

/// The image that the brokers of a stateful set run.
pub fn statefulset_broker_image(set: Option<&StatefulSet>) -> (r: Option<String>)
    ensures
        text::opt_text(r) == match set {
            Some(s) => kube::image_of(s.containers@, "broker"@),
            None => None,
        },
{
    match set {
        Some(s) => kube::container_image(&s.containers, "broker"),
        None => None,
    }
}

/// Whether gateways run that may not be taken away: Kodo is switched off, and
/// nobody has confirmed that it is stopped.
pub fn kodo_decommission_blocked(enabled: bool, confirmed: bool, gateways_active: bool) -> (r: bool)
    ensures
        r == (gateways_active && !enabled && !confirmed),
{
    gateways_active && !enabled && !confirmed
}

/// Whether all three gateways run the rolled out revision and the configured one.
pub fn complete_kodo_gateway_set(updated: i32, configured: i32) -> (r: bool)
    ensures
        r == (updated == 3 && configured == 3),
{
    updated == 3 && configured == 3
}

/// Whether the gateways stay while Kodo is switched off: the brokers that replace
/// them are not ready, or too few.
pub open spec fn holds_for_disable(
    enabled: bool,
    gateways_active: bool,
    target_brokers_ready: bool,
    direct_inventory_safe: bool,
) -> bool {
    !enabled && gateways_active && (!target_brokers_ready || !direct_inventory_safe)
}

/// Whether the gateways stay while Kodo is switched off.
pub fn should_hold_kodo_for_disable(
    enabled: bool,
    gateways_active: bool,
    target_brokers_ready: bool,
    direct_inventory_safe: bool,
) -> (r: bool)
    ensures
        r == holds_for_disable(
            enabled,
            gateways_active,
            target_brokers_ready,
            direct_inventory_safe,
        ),
{
    !enabled && gateways_active && (!target_brokers_ready || !direct_inventory_safe)
}

/// The first condition of a type that is true, from `k` on.
pub open spec fn first_true(v: Seq<RustQueueCondition>, type_: Seq<char>, k: int) -> Option<int>
    decreases v.len() - k,
{
    if k < 0 || k >= v.len() {
        None
    } else if v[k].type_@ == type_ && v[k].status@ == "True"@ {
        Some(k)
    } else {
        first_true(v, type_, k + 1)
    }
}

/// Since when a condition is true.
pub open spec fn true_since(cluster: RustQueue, type_: Seq<char>) -> Option<Seq<char>> {
    match cluster.status {
        Some(s) => match first_true(s.conditions@, type_, 0) {
            Some(i) => Some(s.conditions@[i].last_transition_time@),
            None => None,
        },
        None => None,
    }
}

/// Since when a condition is true.
pub fn condition_since(cluster: &RustQueue, type_: &str) -> (r: Option<String>)
    ensures
        text::opt_text(r) == true_since(*cluster, type_@),
{
    match &cluster.status {
        Some(s) => {
            let mut i: usize = 0;
            while i < s.conditions.len()
                invariant
                    i <= s.conditions@.len(),
                    cluster.status == Some(*s),
                    first_true(s.conditions@, type_@, 0) == first_true(
                        s.conditions@,
                        type_@,
                        i as int,
                    ),
                decreases s.conditions@.len() - i,
            {
                if text::str_eq(s.conditions[i].type_.as_str(), type_) && text::str_eq(
                    s.conditions[i].status.as_str(),
                    "True",
                ) {
                    return Some(s.conditions[i].last_transition_time.clone());
                }
                i += 1;
            }
            None
        },
        None => None,
    }
}

/// Whether a condition is true.
pub fn condition_true(cluster: &RustQueue, type_: &str) -> (r: bool)
    ensures
        r == true_since(*cluster, type_@) is Some,
{
    condition_since(cluster, type_).is_some()
}

/// Whether enough time passed, given the seconds that did.
pub fn long_enough(elapsed: Option<u64>, seconds: u64) -> (r: bool)
    ensures
        r == (elapsed is Some && elapsed->0 >= seconds),
{
    match elapsed {
        Some(n) => n >= seconds,
        None => false,
    }
}

/// Whether a condition has been true for some seconds, given those that passed since its last
/// change.
pub open spec fn true_for(
    cluster: RustQueue,
    type_: Seq<char>,
    seconds: u64,
    elapsed: Option<u64>,
) -> bool {
    true_since(cluster, type_) is Some && elapsed is Some && elapsed->0 >= seconds
}

/// Whether a condition has been true for some seconds, given those that passed since its last
/// change.
pub fn condition_true_after(
    cluster: &RustQueue,
    type_: &str,
    seconds: u64,
    elapsed: Option<u64>,
) -> (r: bool)
    ensures
        r == true_for(*cluster, type_@, seconds, elapsed),
{
    condition_true(cluster, type_) && long_enough(elapsed, seconds)
}

/// Whether a condition has been true for some seconds at a time. It is not where it is not
/// true, nor where the time of its last change cannot be read.
pub open spec fn true_at(
    cluster: RustQueue,
    type_: Seq<char>,
    seconds: u64,
    now: (i64, u32),
) -> bool {
    true_since(cluster, type_) matches Some(since) && true_for(
        cluster,
        type_,
        seconds,
        status::elapsed(since, now),
    )
}

/// Whether a condition has been true for some seconds at a time.
pub fn condition_true_at(
    cluster: &RustQueue,
    type_: &str,
    seconds: u64,
    now: (i64, u32),
) -> (r: bool)
    ensures
        r == true_at(*cluster, type_@, seconds, now),
{
    match condition_since(cluster, type_) {
        Some(since) => condition_true_after(
            cluster,
            type_,
            seconds,
            status::elapsed_seconds_at(since.as_str(), now),
        ),
        None => false,
    }
}

/// Whether a condition has been true for some seconds now.
pub fn condition_true_for(cluster: &RustQueue, type_: &str, seconds: u64) -> (r: bool)
    ensures
        r ==> true_since(*cluster, type_@) is Some && status::rfc3339_moment(
            true_since(*cluster, type_@)->0,
        ) is Some,
        exists|now: (i64, u32)| r == #[trigger] true_at(*cluster, type_@, seconds, now),
{
    condition_true_at(cluster, type_, seconds, status::moment_now())
}

// Deployments.

/// The value of the first variable with a name, from `k` on.
pub open spec fn variable(env: Seq<EnvVar>, name: Seq<char>, k: int) -> Option<Seq<char>>
    decreases env.len() - k,
{
    if k < 0 || k >= env.len() {
        None
    } else if env[k].name@ == name {
        text::opt_text(env[k].value)
    } else {
        variable(env, name, k + 1)
    }
}

/// The value of a variable in the first container that gives it one, from `k` on.
pub open spec fn env_value(containers: Seq<Container>, name: Seq<char>, k: int) -> Option<Seq<char>>
    decreases containers.len() - k,
{
    if k < 0 || k >= containers.len() {
        None
    } else if variable(containers[k].env@, name, 0) is Some {
        variable(containers[k].env@, name, 0)
    } else {
        env_value(containers, name, k + 1)
    }
}

fn find_variable(env: &Vec<EnvVar>, name: &str) -> (r: Option<String>)
    ensures
        text::opt_text(r) == variable(env@, name@, 0),
{
    let mut i: usize = 0;
    while i < env.len()
        invariant
            i <= env@.len(),
            variable(env@, name@, 0) == variable(env@, name@, i as int),
        decreases env@.len() - i,
    {
        if text::str_eq(env[i].name.as_str(), name) {
            return text::clone_opt(&env[i].value);
        }
        i += 1;
    }
    None
}

/// The value of a variable in a deployment.
pub fn deployment_env_value(deployment: Option<&Deployment>, name: &str) -> (r: Option<String>)
    ensures
        text::opt_text(r) == match deployment {
            Some(d) => env_value(d.containers@, name@, 0),
            None => None,
        },
{
    match deployment {
        Some(d) => {
            let mut i: usize = 0;
            while i < d.containers.len()
                invariant
                    i <= d.containers@.len(),
                    deployment == Some(d),
                    env_value(d.containers@, name@, 0) == env_value(
                        d.containers@,
                        name@,
                        i as int,
                    ),
                decreases d.containers@.len() - i,
            {
                let value = find_variable(&d.containers[i].env, name);
                if value.is_some() {
                    return value;
                }
                i += 1;
            }
            None
        },
        None => None,
    }
}

/// Whether a variable of a deployment is `true`.
pub open spec fn is_on(deployment: Option<&Deployment>, name: Seq<char>) -> bool {
    deployment is Some && env_value(deployment->0.containers@, name, 0) == Some("true"@)
}

/// Whether Discovery is configured to publish the gateways.
pub fn deployment_requests_kodo_mode(deployment: Option<&Deployment>) -> (r: bool)
    ensures
        r == is_on(deployment, "RUSTQUEUE_KODO_COMPATIBILITY_ENABLED"@),
{
    text::opt_is(
        &deployment_env_value(deployment, "RUSTQUEUE_KODO_COMPATIBILITY_ENABLED"),
        "true",
    )
}

/// Whether Discovery is configured to announce cleanup.
pub fn deployment_requests_kodo_cleanup(deployment: Option<&Deployment>) -> (r: bool)
    ensures
        r == is_on(deployment, "RUSTQUEUE_KODO_CLEANUP_ENABLED"@),
{
    text::opt_is(&deployment_env_value(deployment, "RUSTQUEUE_KODO_CLEANUP_ENABLED"), "true")
}

/// The name of a mode of Discovery.
pub open spec fn mode_name(kodo: bool) -> Seq<char> {
    if kodo {
        "kodo"@
    } else {
        "direct"@
    }
}

/// Whether the pods of a deployment are labelled with a mode.
pub open spec fn is_labelled(deployment: Option<&Deployment>, kodo: bool) -> bool {
    deployment is Some && string_map::lookup(
        deployment->0.template_labels@,
        "rustqueue.io/discovery-publisher-mode"@,
    ) == Some(mode_name(kodo))
}

/// Whether the pods of a deployment are labelled with a mode.
pub fn deployment_template_has_discovery_mode(deployment: Option<&Deployment>, kodo: bool) -> (r:
    bool)
    ensures
        r == is_labelled(deployment, kodo),
{
    match deployment {
        Some(d) => d.template_labels.holds(
            "rustqueue.io/discovery-publisher-mode",
            if kodo {
                "kodo"
            } else {
                "direct"
            },
        ),
        None => false,
    }
}

/// Which pods the Discovery service selects: those that publish the gateways,
/// those that publish brokers, or both.
pub open spec fn route_of(service: Option<&Service>) -> Option<bool> {
    match service {
        Some(s) => match string_map::lookup(
            s.selector@,
            "rustqueue.io/discovery-publisher-mode"@,
        ) {
            Some(mode) => if mode == "kodo"@ {
                Some(true)
            } else if mode == "direct"@ {
                Some(false)
            } else {
                None
            },
            None => None,
        },
        None => None,
    }
}

/// Which pods the Discovery service selects.
pub fn discovery_service_kodo_route(service: Option<&Service>) -> (r: Option<bool>)
    ensures
        r == route_of(service),
{
    match service {
        Some(s) => match s.selector.get("rustqueue.io/discovery-publisher-mode") {
            Some(mode) => if text::str_eq(mode.as_str(), "kodo") {
                Some(true)
            } else if text::str_eq(mode.as_str(), "direct") {
                Some(false)
            } else {
                None
            },
            None => None,
        },
        None => None,
    }
}

/// A count, or zero.
pub open spec fn or_zero(n: Option<i32>) -> i32 {
    match n {
        Some(x) => x,
        None => 0,
    }
}

/// A generation, or zero.
pub open spec fn or_none(n: Option<i64>) -> i64 {
    match n {
        Some(x) => x,
        None => 0,
    }
}

/// Whether a deployment has come to rest: all its replicas run its latest
/// generation and are ready.
pub open spec fn is_settled(d: Deployment) -> bool {
    let desired = or_zero(d.replicas);
    &&& desired > 0
    &&& or_zero(d.ready_replicas) >= desired
    &&& or_zero(d.updated_replicas) >= desired
    &&& or_zero(d.available_replicas) >= desired
    &&& or_none(d.observed_generation) >= or_none(d.generation)
}

fn count(n: Option<i32>) -> (r: i32)
    ensures
        r == or_zero(n),
{
    match n {
        Some(x) => x,
        None => 0,
    }
}

fn generation(n: Option<i64>) -> (r: i64)
    ensures
        r == or_none(n),
{
    match n {
        Some(x) => x,
        None => 0,
    }
}

/// Whether a deployment has come to rest.
pub fn deployment_is_fully_ready(deployment: Option<&Deployment>) -> (r: bool)
    ensures
        r == (deployment is Some && is_settled(*deployment->0)),
{
    match deployment {
        None => false,
        Some(d) => {
            let desired: i32 = count(d.replicas);
            desired > 0 && count(d.ready_replicas) >= desired && count(d.updated_replicas)
                >= desired && count(d.available_replicas) >= desired && generation(
                d.observed_generation,
            ) >= generation(d.generation)
        },
    }
}

/// Whether a deployment was configured with a revision.
pub fn deployment_matches_revision(deployment: &Deployment, target_revision: &str) -> (r: bool)
    ensures
        r == (string_map::lookup(deployment.template_annotations@, "rustqueue.io/revision"@)
            == Some(target_revision@)),
{
    deployment.template_annotations.holds("rustqueue.io/revision", target_revision)
}

/// Whether Discovery announces cleanup with a revision.
pub fn deployment_advertises_kodo_cleanup(
    deployment: Option<&Deployment>,
    target_revision: &str,
) -> (r: bool)
    ensures
        r == (is_on(deployment, "RUSTQUEUE_KODO_CLEANUP_ENABLED"@) && string_map::lookup(
            deployment->0.template_annotations@,
            "rustqueue.io/revision"@,
        ) == Some(target_revision@) && is_settled(*deployment->0)),
{
    match deployment {
        None => false,
        Some(d) => deployment_requests_kodo_cleanup(deployment) && deployment_matches_revision(
            d,
            target_revision,
        ) && deployment_is_fully_ready(deployment),
    }
}

/// Whether Discovery publishes brokers, on every replica.
pub open spec fn runs_direct(deployment: Option<&Deployment>) -> bool {
    deployment is Some && !is_on(deployment, "RUSTQUEUE_KODO_COMPATIBILITY_ENABLED"@)
        && is_settled(*deployment->0)
}

/// Whether Discovery publishes brokers, on every replica.
pub fn deployment_runs_without_kodo(deployment: Option<&Deployment>) -> (r: bool)
    ensures
        r == runs_direct(deployment),
{
    deployment.is_some() && !deployment_requests_kodo_mode(deployment)
        && deployment_is_fully_ready(deployment)
}

// The mode and route of Discovery.

/// The mode that Discovery is to have, and whether its pods only get labels.
pub open spec fn target_mode(
    desired_kodo: bool,
    gateways_ready: bool,
    has_deployment: bool,
    current_kodo: bool,
    current_route: Option<bool>,
    template_mode_matches: bool,
    deployment_fully_ready: bool,
) -> (bool, bool) {
    let adopting = has_deployment && current_route is None && (!template_mode_matches
        || !deployment_fully_ready);
    (
        if adopting {
            current_kodo
        } else {
            desired_kodo && (current_kodo || gateways_ready)
        },
        adopting,
    )
}

/// The mode that Discovery is to have, and whether its pods only get labels.
/// Pods without labels are labelled first, in the mode that they have.
pub fn discovery_target_mode(
    desired_kodo: bool,
    gateways_ready: bool,
    has_deployment: bool,
    current_kodo: bool,
    current_route: Option<bool>,
    template_mode_matches: bool,
    deployment_fully_ready: bool,
) -> (r: (bool, bool))
    ensures
        r == target_mode(
            desired_kodo,
            gateways_ready,
            has_deployment,
            current_kodo,
            current_route,
            template_mode_matches,
            deployment_fully_ready,
        ),
{
    let adopting = has_deployment && current_route.is_none() && (!template_mode_matches
        || !deployment_fully_ready);
    let target = if adopting {
        current_kodo
    } else {
        desired_kodo && (current_kodo || gateways_ready)
    };
    (target, adopting)
}

/// Which pods the Discovery service is to select.
pub open spec fn target_route(
    has_deployment: bool,
    adopting_labels: bool,
    current_route: Option<bool>,
    current_kodo: bool,
    target_kodo: bool,
    ready: (i32, i32),
    replicas: i32,
) -> Option<bool> {
    if !has_deployment {
        Some(target_kodo)
    } else if adopting_labels {
        None
    } else if ready.0 >= replicas {
        Some(target_kodo)
    } else if current_route == Some(target_kodo) && ready.1 >= replicas {
        Some(!target_kodo)
    } else if current_route is Some {
        current_route
    } else {
        Some(current_kodo)
    }
}

/// Which pods the Discovery service is to select: those of the target mode once
/// all of them are ready, those of the other mode where only they are.
pub fn discovery_target_route(
    has_deployment: bool,
    adopting_labels: bool,
    current_route: Option<bool>,
    current_kodo: bool,
    target_kodo: bool,
    ready: (i32, i32),
    replicas: i32,
) -> (r: Option<bool>)
    ensures
        r == target_route(
            has_deployment,
            adopting_labels,
            current_route,
            current_kodo,
            target_kodo,
            ready,
            replicas,
        ),
{
    let (target_ready, fallback_ready): (i32, i32) = ready;
    if !has_deployment {
        return Some(target_kodo);
    }
    if adopting_labels {
        return None;
    }
    if target_ready >= replicas {
        return Some(target_kodo);
    }
    let at_target = match current_route {
        Some(route) => route == target_kodo,
        None => false,
    };
    if at_target && fallback_ready >= replicas {
        return Some(!target_kodo);
    }
    match current_route {
        Some(route) => Some(route),
        None => Some(current_kodo),
    }
}

/// The Discovery service of a running deployment is switched to another mode only
/// when all pods of that mode are ready.
pub proof fn law_route_switches_only_to_ready_pods(
    adopting_labels: bool,
    current_route: bool,
    current_kodo: bool,
    target_kodo: bool,
    ready: (i32, i32),
    replicas: i32,
)
    ensures
        ({
            let r = target_route(
                true,
                adopting_labels,
                Some(current_route),
                current_kodo,
                target_kodo,
                ready,
                replicas,
            );
            r == Some(!current_route) ==> (if target_kodo != current_route {
                ready.0
            } else {
                ready.1
            }) >= replicas
        }),
{
}

/// Discovery publishes the gateways for the first time only when they are ready.
pub proof fn law_gateways_are_published_only_when_ready(
    desired_kodo: bool,
    gateways_ready: bool,
    has_deployment: bool,
    current_kodo: bool,
    current_route: Option<bool>,
    template_mode_matches: bool,
    deployment_fully_ready: bool,
)
    ensures
        target_mode(
            desired_kodo,
            gateways_ready,
            has_deployment,
            current_kodo,
            current_route,
            template_mode_matches,
            deployment_fully_ready,
        ).0 && !current_kodo ==> gateways_ready && desired_kodo,
{
}

// How many brokers.

/// The number of brokers that the nodes allow, within the limits.
pub open spec fn clamped(eligible: usize, minimum: i32, maximum: i32) -> i32 {
    if eligible < minimum {
        minimum
    } else if eligible > maximum {
        maximum
    } else {
        eligible as i32
    }
}

/// The number of brokers that the nodes allow, within the limits.
pub fn ordinary_desired_brokers(eligible: usize, minimum: i32, maximum: i32) -> (r: i32)
    requires
        minimum <= maximum,
    ensures
        r == clamped(eligible, minimum, maximum),
{
    let n: i32 = if eligible > i32::MAX as usize {
        i32::MAX
    } else {
        eligible as i32
    };
    if n < minimum {
        minimum
    } else if n > maximum {
        maximum
    } else {
        n
    }
}

/// The number of brokers that a cluster is to have: three where it serves Kodo,
/// and at least three while its gateways still run.
pub open spec fn brokers_wanted(s: RustQueueSpec, ordinary: i32, gateways_active: bool) -> i32 {
    if s.kodo_compatibility.enabled {
        3
    } else if gateways_active && !s.kodo_compatibility.decommission_confirmed && ordinary < 3 {
        3
    } else {
        ordinary
    }
}

/// The number of brokers that a cluster is to have.
pub fn desired_brokers(s: &RustQueueSpec, ordinary: i32, gateways_active: bool) -> (r: i32)
    ensures
        r == brokers_wanted(*s, ordinary, gateways_active),
{
    if s.kodo_compatibility.enabled {
        3
    } else if gateways_active && !s.kodo_compatibility.decommission_confirmed && ordinary < 3 {
        3
    } else {
        ordinary
    }
}

// The plan.

/// What is seen before Discovery is decided on.
#[derive(Clone, Copy, Debug)]
pub struct KodoObservation {
    pub current_brokers: i32,
    pub ready_brokers: i32,
    pub ordinary_desired: i32,
    pub gateways_active: bool,
    pub gateways_updated: i32,
    pub gateways_configured: i32,
    pub target_brokers_ready: bool,
    pub has_discovery: bool,
    pub discovery_kodo: bool,
    pub discovery_route: Option<bool>,
    pub discovery_labelled: bool,
    pub discovery_settled: bool,
}

impl KodoObservation {
    /// Whether the gateways that run are complete.
    pub open spec fn gateways_ready(self) -> bool {
        self.gateways_active && self.gateways_updated == 3 && self.gateways_configured == 3
    }

    /// Whether Kodo would see enough brokers without the gateways.
    pub open spec fn inventory_safe(self, s: RustQueueSpec) -> bool {
        s.kodo_compatibility.decommission_confirmed || self.ordinary_desired >= 3
    }

    /// The mode that Discovery is to have, and whether its pods only get labels.
    pub open spec fn mode(self, s: RustQueueSpec) -> (bool, bool) {
        let hold = holds_for_disable(
            s.kodo_compatibility.enabled,
            self.gateways_active,
            self.target_brokers_ready,
            self.inventory_safe(s),
        );
        target_mode(
            s.kodo_compatibility.enabled || hold,
            self.gateways_ready(),
            self.has_discovery,
            self.discovery_kodo,
            self.discovery_route,
            self.discovery_labelled,
            self.discovery_settled,
        )
    }

    /// The mode that Discovery is to have, and whether its pods only get labels.
    pub fn discovery_mode(&self, s: &RustQueueSpec) -> (r: (bool, bool))
        ensures
            r == self.mode(*s),
    {
        let ready = self.gateways_active && complete_kodo_gateway_set(
            self.gateways_updated,
            self.gateways_configured,
        );
        let safe = s.kodo_compatibility.decommission_confirmed || self.ordinary_desired >= 3;
        let hold = should_hold_kodo_for_disable(
            s.kodo_compatibility.enabled,
            self.gateways_active,
            self.target_brokers_ready,
            safe,
        );
        discovery_target_mode(
            s.kodo_compatibility.enabled || hold,
            ready,
            self.has_discovery,
            self.discovery_kodo,
            self.discovery_route,
            self.discovery_labelled,
            self.discovery_settled,
        )
    }
}

/// What is seen of Discovery once its mode is decided, and of the time.
#[derive(Clone, Copy, Debug)]
pub struct CutoverObservation {
    pub ready_target: i32,
    pub ready_fallback: i32,
    pub direct_running: bool,
    pub cutover_elapsed: bool,
    pub direct_elapsed: bool,
    pub cleanup_advertised: bool,
}

/// What is done for Kodo.
#[derive(Clone, Copy, Debug)]
pub struct KodoPlan {
    pub gateways_active: bool,
    pub gateways_ready: bool,
    pub inventory_safe: bool,
    pub advertise_gateways: bool,
    pub service_kodo: Option<bool>,
    pub gateways_advertised: bool,
    pub direct_brokers_advertised: bool,
    pub cutover_elapsed: bool,
    pub restart_confirmed: bool,
    pub retain_existing: bool,
    pub activate_cleanup: bool,
    pub cleanup_advertised: bool,
    pub gateway_replicas: i32,
    pub disruptions_allowed: bool,
}

/// The replicas of Discovery: at least two.
pub open spec fn discovery_replicas(s: RustQueueSpec) -> i32 {
    if s.discovery_replicas >= 2 {
        s.discovery_replicas
    } else {
        2
    }
}

/// What is done for Kodo, given whether the restart of the producers is confirmed
/// once the gateways are advertised.
pub open spec fn planned(
    s: RustQueueSpec,
    o: KodoObservation,
    c: CutoverObservation,
    baseline: Option<Seq<char>>,
) -> KodoPlan {
    let k = s.kodo_compatibility;
    let (advertise, adopting) = o.mode(s);
    let replicas = discovery_replicas(s);
    let route = target_route(
        o.has_discovery,
        adopting,
        o.discovery_route,
        o.discovery_kodo,
        advertise,
        (c.ready_target, c.ready_fallback),
        replicas,
    );
    let advertised = k.enabled && advertise && route == Some(true) && c.ready_target >= replicas;
    let direct = !k.enabled && !advertise && o.discovery_route == Some(false) && c.direct_running
        && c.ready_target >= replicas;
    let confirmed = kodo_cutover::is_confirmed(
        k.enabled,
        advertised,
        k.producer_restart_nonce@,
        baseline,
    );
    let retain = !k.enabled && o.gateways_active && (!o.inventory_safe(s) || !direct || (
    !k.decommission_confirmed && !c.direct_elapsed));
    let active = k.enabled && (o.gateways_active || can_activate(
        o.current_brokers,
        o.ready_brokers,
    ));
    KodoPlan {
        gateways_active: active,
        gateways_ready: o.gateways_ready(),
        inventory_safe: o.inventory_safe(s),
        advertise_gateways: advertise,
        service_kodo: route,
        gateways_advertised: advertised,
        direct_brokers_advertised: direct,
        cutover_elapsed: c.cutover_elapsed,
        restart_confirmed: confirmed,
        retain_existing: retain,
        activate_cleanup: false,
        cleanup_advertised: false,
        gateway_replicas: if active || retain {
            3
        } else {
            0
        },
        disruptions_allowed: if k.enabled {
            o.gateways_ready() && advertised && c.cutover_elapsed && confirmed
        } else if o.gateways_active && direct {
            k.decommission_confirmed || c.direct_elapsed
        } else {
            true
        },
    }
}

/// What is done for Kodo, and the fence for the restart of the producers.
pub fn kodo_plan(
    cluster: &RustQueue,
    o: &KodoObservation,
    c: &CutoverObservation,
) -> (r: (KodoPlan, ProducerRestartFence))
    ensures
        r.0 == planned(
            cluster.spec,
            *o,
            *c,
            status::previous_status(*cluster).kodo_producer_restart_baseline_nonce,
        ),
        text::opt_text(r.1.baseline_nonce) == kodo_cutover::baseline(
            cluster.spec.kodo_compatibility.enabled,
            r.0.gateways_advertised,
            cluster.spec.kodo_compatibility.producer_restart_nonce@,
            status::previous_status(*cluster).kodo_producer_restart_baseline_nonce,
        ),
        r.1.confirmed == r.0.restart_confirmed,
{
    let s = &cluster.spec;
    let k = &s.kodo_compatibility;
    let (advertise, adopting): (bool, bool) = o.discovery_mode(s);
    let replicas: i32 = if s.discovery_replicas >= 2 {
        s.discovery_replicas
    } else {
        2
    };
    let route = discovery_target_route(
        o.has_discovery,
        adopting,
        o.discovery_route,
        o.discovery_kodo,
        advertise,
        (c.ready_target, c.ready_fallback),
        replicas,
    );
    let to_gateways = match route {
        Some(kodo) => kodo,
        None => false,
    };
    let routed_direct = match o.discovery_route {
        Some(kodo) => !kodo,
        None => false,
    };
    let advertised = k.enabled && advertise && to_gateways && c.ready_target >= replicas;
    let direct = !k.enabled && !advertise && routed_direct && c.direct_running && c.ready_target
        >= replicas;
    let recorded = match &cluster.status {
        Some(st) => match &st.kodo_producer_restart_baseline_nonce {
            Some(b) => Some(b.as_str()),
            None => None,
        },
        None => None,
    };
    let fence = kodo_cutover::producer_restart_fence(
        k.enabled,
        advertised,
        k.producer_restart_nonce.as_str(),
        recorded,
    );
    let gateways_ready = o.gateways_active && complete_kodo_gateway_set(
        o.gateways_updated,
        o.gateways_configured,
    );
    let inventory_safe = k.decommission_confirmed || o.ordinary_desired >= 3;
    let retain = !k.enabled && o.gateways_active && (!inventory_safe || !direct || (
    !k.decommission_confirmed && !c.direct_elapsed));
    let active = k.enabled && (o.gateways_active || kodo_gateway_activation_ready(
        o.current_brokers,
        o.ready_brokers,
    ));
    let cleanup = k.enabled && k.effective_cleanup_enabled();
    let disruptions_allowed = if k.enabled {
        gateways_ready && advertised && c.cutover_elapsed && fence.confirmed
    } else if o.gateways_active && direct {
        k.decommission_confirmed || c.direct_elapsed
    } else {
        true
    };
    let plan = KodoPlan {
        gateways_active: active,
        gateways_ready,
        inventory_safe,
        advertise_gateways: advertise,
        service_kodo: route,
        gateways_advertised: advertised,
        direct_brokers_advertised: direct,
        cutover_elapsed: c.cutover_elapsed,
        restart_confirmed: fence.confirmed,
        retain_existing: retain,
        activate_cleanup: cleanup && o.target_brokers_ready,
        cleanup_advertised: cleanup && c.cleanup_advertised,
        gateway_replicas: if active || retain {
            3
        } else {
            0
        },
        disruptions_allowed,
    };
    (plan, fence)
}

/// While a cluster serves Kodo, brokers are disrupted only when the gateways are
/// complete and advertised, the grace has passed, and the producers were
/// restarted.
pub proof fn law_kodo_disruptions_wait_for_every_gate(
    s: RustQueueSpec,
    o: KodoObservation,
    c: CutoverObservation,
    baseline: Option<Seq<char>>,
)
    requires
        s.kodo_compatibility.enabled,
        planned(s, o, c, baseline).disruptions_allowed,
    ensures
        o.gateways_ready(),
        planned(s, o, c, baseline).gateways_advertised,
        c.cutover_elapsed,
        baseline is Some,
        baseline->0 != s.kodo_compatibility.producer_restart_nonce@,
{
}

/// Gateways that run are taken away only when Kodo is switched off, enough
/// brokers are advertised in their place, and that was confirmed or has been so
/// for the grace.
pub proof fn law_gateways_go_only_after_a_safe_handover(
    s: RustQueueSpec,
    o: KodoObservation,
    c: CutoverObservation,
    baseline: Option<Seq<char>>,
)
    requires
        o.gateways_active,
        planned(s, o, c, baseline).gateway_replicas == 0,
    ensures
        !s.kodo_compatibility.enabled,
        planned(s, o, c, baseline).direct_brokers_advertised,
        o.inventory_safe(s),
        s.kodo_compatibility.decommission_confirmed || c.direct_elapsed,
{
}

/// Gateways are asked for in recovery exactly where there is any sign of them, or where Kodo is
/// served and two brokers are ready; what Discovery does is kept as far as it can be seen.
pub proof fn law_recovery_goes_by_the_signs(
    enabled: bool,
    current: i32,
    ready: i32,
    s: KodoRuntimeSignals,
)
    ensures
        ({
            let r = recovered(enabled, current, ready, s);
            let seen = s.gateway_active || s.previously_active || s.previously_advertised;
            let used = seen || s.discovery_mode == Some(true) || s.discovery_route == Some(true);
            &&& r.gateway_replicas == 3 <==> used || (enabled && current >= 2 && ready >= 2)
            &&& r.gateway_replicas == 3 || r.gateway_replicas == 0
            &&& r.retain_gateways <==> !enabled && used
            &&& s.discovery_mode is Some ==> r.advertise_gateways == s.discovery_mode->0
            &&& s.discovery_mode is None && s.discovery_route is Some ==> r.advertise_gateways
                == s.discovery_route->0
            &&& s.discovery_mode is None && s.discovery_route is None ==> r.advertise_gateways
                == seen
            &&& s.discovery_route is Some ==> r.discovery_service_kodo == s.discovery_route->0
            &&& s.discovery_route is None ==> r.discovery_service_kodo == r.advertise_gateways
        }),
{
}

/// Discovery goes on as it is while its labels are taken over; else it names the gateways where
/// Kodo is wanted and they are ready or are named already.
pub proof fn law_discovery_names_gateways_that_are_ready(
    wanted: bool,
    ready: bool,
    deployed: bool,
    kodo: bool,
    route: Option<bool>,
    labelled: bool,
    settled: bool,
)
    ensures
        ({
            let (mode, adopting) = target_mode(
                wanted,
                ready,
                deployed,
                kodo,
                route,
                labelled,
                settled,
            );
            &&& adopting <==> deployed && route is None && !(labelled && settled)
            &&& adopting ==> mode == kodo
            &&& !adopting && !wanted ==> !mode
            &&& !adopting && wanted ==> mode == (kodo || ready)
        }),
{
}

/// The Service of Discovery goes to the replicas that are wanted once all of them are ready,
/// back to the others where only those are, and else stays where it is.
pub proof fn law_routes_go_to_replicas_that_are_ready(
    deployed: bool,
    adopting: bool,
    route: Option<bool>,
    kodo: bool,
    target: bool,
    ready: (i32, i32),
    replicas: i32,
)
    ensures
        ({
            let r = target_route(deployed, adopting, route, kodo, target, ready, replicas);
            &&& r is None <==> deployed && adopting
            &&& !deployed ==> r == Some(target)
            &&& deployed && !adopting && ready.0 >= replicas ==> r == Some(target)
            &&& deployed && !adopting && ready.0 < replicas && route == Some(!target) ==> r
                == Some(!target)
            &&& deployed && !adopting && ready.0 < replicas && route == Some(target) ==> r == Some(
                if ready.1 >= replicas {
                    !target
                } else {
                    target
                },
            )
            &&& deployed && !adopting && ready.0 < replicas && route is None ==> r == Some(kodo)
        }),
{
}

/// As many brokers are wanted as there are nodes for them, within the limits; Kodo has three,
/// and keeps three until it is given up.
pub proof fn law_brokers_are_as_many_as_nodes(
    s: RustQueueSpec,
    eligible: usize,
    minimum: i32,
    maximum: i32,
    active: bool,
)
    requires
        minimum <= maximum,
    ensures
        ({
            let n = clamped(eligible, minimum, maximum);
            let w = brokers_wanted(s, n, active);
            let k = s.kodo_compatibility;
            &&& minimum <= n <= maximum
            &&& n == eligible || n == minimum || n == maximum
            &&& minimum <= eligible <= maximum ==> n == eligible
            &&& eligible < minimum ==> n == minimum
            &&& k.enabled ==> w == 3
            &&& !k.enabled && !active ==> w == n
            &&& !k.enabled && k.decommission_confirmed ==> w == n
            &&& !k.enabled && active && !k.decommission_confirmed ==> w >= 3 && w >= n && (w == 3
                || w == n)
        }),
{
}

/// A deployment has settled exactly where it has replicas and all of them are ready, updated
/// and available, at the generation that was asked for.
pub proof fn law_settled_deployments_are_complete(d: Deployment, r: bool)
    requires
        call_ensures(deployment_is_fully_ready, (Some(&d),), r),
        d.replicas is Some,
        d.ready_replicas is Some,
        d.updated_replicas is Some,
        d.available_replicas is Some,
        d.observed_generation is Some,
        d.generation is Some,
    ensures
        r <==> d.replicas->0 > 0 && d.ready_replicas->0 >= d.replicas->0 && d.updated_replicas->0
            >= d.replicas->0 && d.available_replicas->0 >= d.replicas->0
            && d.observed_generation->0 >= d.generation->0,
{
}

/// A deployment of which nothing is reported has not settled.
pub proof fn law_silent_deployments_have_not_settled(d: Deployment, r: bool)
    requires
        call_ensures(deployment_is_fully_ready, (Some(&d),), r),
        d.replicas is None || d.replicas->0 > 0,
        d.replicas is None || d.ready_replicas is None || d.updated_replicas is None
            || d.available_replicas is None,
    ensures
        !r,
{
}

/// What is done for Kodo while it is served: the gateways run once two brokers are ready and
/// from then on, they count as advertised where the Service names them and Discovery is ready,
/// and brokers may be taken away only when the producers have moved to them.
pub proof fn law_kodo_is_served_step_by_step(
    s: RustQueueSpec,
    o: KodoObservation,
    c: CutoverObservation,
    baseline: Option<Seq<char>>,
)
    requires
        s.kodo_compatibility.enabled,
    ensures
        ({
            let p = planned(s, o, c, baseline);
            let replicas: int = if s.discovery_replicas >= 2 {
                s.discovery_replicas as int
            } else {
                2
            };
            let gateways = o.gateways_active && o.gateways_updated == 3 && o.gateways_configured
                == 3;
            &&& p.gateways_active <==> o.gateways_active || (o.current_brokers >= 2
                && o.ready_brokers >= 2)
            &&& p.gateways_ready <==> gateways
            &&& p.gateway_replicas == if p.gateways_active {
                3int
            } else {
                0
            }
            &&& !p.retain_existing && !p.direct_brokers_advertised
            &&& p.gateways_advertised <==> p.advertise_gateways && p.service_kodo == Some(true)
                && c.ready_target >= replicas
            &&& p.advertise_gateways ==> o.discovery_kodo || gateways
            &&& p.cutover_elapsed == c.cutover_elapsed
            &&& p.restart_confirmed <==> p.gateways_advertised && baseline is Some && baseline->0
                != s.kodo_compatibility.producer_restart_nonce@
            &&& p.disruptions_allowed <==> gateways && p.gateways_advertised && c.cutover_elapsed
                && p.restart_confirmed
            &&& !p.activate_cleanup && !p.cleanup_advertised
        }),
{
}

/// What is done for Kodo when it is no longer served: the gateways stay until the brokers
/// themselves have been advertised for long enough or the workloads are confirmed stopped, and
/// never go while too few brokers would be seen.
pub proof fn law_kodo_is_left_step_by_step(
    s: RustQueueSpec,
    o: KodoObservation,
    c: CutoverObservation,
    baseline: Option<Seq<char>>,
)
    requires
        !s.kodo_compatibility.enabled,
    ensures
        ({
            let p = planned(s, o, c, baseline);
            let k = s.kodo_compatibility;
            let replicas: int = if s.discovery_replicas >= 2 {
                s.discovery_replicas as int
            } else {
                2
            };
            let safe = k.decommission_confirmed || o.ordinary_desired >= 3;
            let direct = p.direct_brokers_advertised;
            &&& !p.gateways_active && !p.gateways_advertised && !p.restart_confirmed
            &&& p.inventory_safe <==> safe
            &&& direct <==> !p.advertise_gateways && o.discovery_route == Some(false)
                && c.direct_running && c.ready_target >= replicas
            &&& p.retain_existing <==> o.gateways_active && !(safe && direct && (
            k.decommission_confirmed || c.direct_elapsed))
            &&& p.gateway_replicas == if p.retain_existing {
                3int
            } else {
                0
            }
            &&& p.disruptions_allowed <==> !o.gateways_active || !direct
                || k.decommission_confirmed || c.direct_elapsed
            &&& !o.gateways_active && (o.discovery_route is Some || !o.has_discovery)
                ==> !p.advertise_gateways
        }),
{
}

/// A condition holds since the time at which the first condition of its type that is true came
/// to be so.
pub proof fn law_conditions_hold_since_their_transition(cluster: RustQueue, type_: Seq<char>)
    ensures
        true_since(cluster, type_) is Some ==> cluster.status is Some && exists|i: int|
            0 <= i < cluster.status->0.conditions@.len() && (
            #[trigger] cluster.status->0.conditions@[i]).type_@ == type_
                && cluster.status->0.conditions@[i].status@ == "True"@
                && cluster.status->0.conditions@[i].last_transition_time@ == true_since(
                cluster,
                type_,
            )->0,
        cluster.status is Some && true_since(cluster, type_) is None ==> forall|i: int|
            0 <= i < cluster.status->0.conditions@.len() && (
            #[trigger] cluster.status->0.conditions@[i]).type_@ == type_
                ==> cluster.status->0.conditions@[i].status@ != "True"@,
{
    if cluster.status is Some {
        lemma_first_true(cluster.status->0.conditions@, type_, 0);
    }
}

proof fn lemma_first_true(v: Seq<RustQueueCondition>, type_: Seq<char>, k: int)
    requires
        k >= 0,
    ensures
        first_true(v, type_, k) matches Some(i) ==> k <= i < v.len() && v[i].type_@ == type_
            && v[i].status@ == "True"@,
        first_true(v, type_, k) is None ==> forall|i: int|
            k <= i < v.len() && (#[trigger] v[i]).type_@ == type_ ==> v[i].status@ != "True"@,
    decreases v.len() - k,
{
    if k < v.len() && !(v[k].type_@ == type_ && v[k].status@ == "True"@) {
        lemma_first_true(v, type_, k + 1);
    }
}

/// A Service goes to the replicas for Kodo, or to the others, as its selector says.
pub proof fn law_routes_are_read_from_the_selector(service: Service)
    ensures
        ({
            let mode = string_map::lookup(
                service.selector@,
                "rustqueue.io/discovery-publisher-mode"@,
            );
            &&& route_of(Some(&service)) == Some(true) <==> mode == Some("kodo"@)
            &&& route_of(Some(&service)) == Some(false) <==> mode == Some("direct"@)
            &&& route_of(None) is None
        }),
{
    reveal_strlit("kodo");
    reveal_strlit("direct");
    assert("kodo"@.len() == 4 && "direct"@.len() == 6);
}

/// Small questions on Kodo are answered by what was observed alone.
pub proof fn law_questions_on_kodo(
    a: bool,
    b: bool,
    c: bool,
    d: bool,
    n: i32,
    m: i32,
    blocked: bool,
    complete: bool,
    hold: bool,
)
    requires
        call_ensures(kodo_decommission_blocked, (a, b, c), blocked),
        call_ensures(complete_kodo_gateway_set, (n, m), complete),
        call_ensures(should_hold_kodo_for_disable, (a, b, c, d), hold),
    ensures
        a || b || !c ==> !blocked,
        !a && !b && c ==> blocked,
        complete ==> n == 3 && m == 3,
        n == 3 && m == 3 ==> complete,
        hold <==> !a && b && !(c && d),
{
}

proof fn lemma_variable(env: Seq<EnvVar>, name: Seq<char>, k: int, j: int)
    requires
        0 <= k <= j < env.len(),
        env[j].name@ == name,
        forall|i: int| k <= i < j ==> (#[trigger] env[i]).name@ != name,
    ensures
        variable(env, name, k) == text::opt_text(env[j].value),
    decreases j - k,
{
    if k < j {
        assert(env[k].name@ != name);
        lemma_variable(env, name, k + 1, j);
    }
}

proof fn lemma_no_variable(env: Seq<EnvVar>, name: Seq<char>, k: int)
    requires
        0 <= k,
        forall|i: int| k <= i < env.len() ==> (#[trigger] env[i]).name@ != name,
    ensures
        variable(env, name, k) is None,
    decreases env.len() - k,
{
    if k < env.len() {
        assert(env[k].name@ != name);
        lemma_no_variable(env, name, k + 1);
    }
}

proof fn lemma_env_value(containers: Seq<Container>, name: Seq<char>, k: int, c: int, j: int)
    requires
        0 <= k <= c < containers.len(),
        0 <= j < containers[c].env@.len(),
        containers[c].env@[j].name@ == name,
        containers[c].env@[j].value is Some,
        forall|i: int| 0 <= i < j ==> (#[trigger] containers[c].env@[i]).name@ != name,
        forall|d: int, i: int|
            k <= d < c && 0 <= i < containers[d].env@.len() ==> (
            #[trigger] containers[d].env@[i]).name@ != name,
    ensures
        env_value(containers, name, k) == Some(containers[c].env@[j].value->0@),
    decreases c - k,
{
    if k < c {
        lemma_no_variable(containers[k].env@, name, 0);
        lemma_env_value(containers, name, k + 1, c, j);
    } else {
        lemma_variable(containers[c].env@, name, 0, j);
    }
}

proof fn lemma_no_env_value(containers: Seq<Container>, name: Seq<char>, k: int)
    requires
        0 <= k,
        forall|d: int, i: int|
            k <= d < containers.len() && 0 <= i < containers[d].env@.len() ==> (
            #[trigger] containers[d].env@[i]).name@ != name,
    ensures
        env_value(containers, name, k) is None,
    decreases containers.len() - k,
{
    if k < containers.len() {
        lemma_no_variable(containers[k].env@, name, 0);
        lemma_no_env_value(containers, name, k + 1);
    }
}

/// A variable of a deployment has the value that its first mention gives it, in
/// whichever container that stands, and none where no container mentions it.
pub proof fn law_variables_are_read_where_they_stand_first(
    deployment: &Deployment,
    name: &str,
    r: Option<String>,
    c: int,
    j: int,
)
    requires
        call_ensures(deployment_env_value, (Some(deployment), name), r),
    ensures
        ({
            let cs = deployment.containers@;
            &&& (0 <= c < cs.len() && 0 <= j < cs[c].env@.len() && cs[c].env@[j].name@ == name@
                && cs[c].env@[j].value is Some && (forall|i: int|
                0 <= i < j ==> (#[trigger] cs[c].env@[i]).name@ != name@) && (forall|
                d: int,
                i: int,
            |
                0 <= d < c && 0 <= i < cs[d].env@.len() ==> (#[trigger] cs[d].env@[i]).name@
                    != name@)) ==> r is Some && r->0@ == cs[c].env@[j].value->0@
            &&& (forall|d: int, i: int|
                0 <= d < cs.len() && 0 <= i < cs[d].env@.len() ==> (#[trigger] cs[d].env@[i]).name@
                    != name@) ==> r is None
        }),
{
    let cs = deployment.containers@;
    if 0 <= c < cs.len() && 0 <= j < cs[c].env@.len() && cs[c].env@[j].name@ == name@
        && cs[c].env@[j].value is Some && (forall|i: int|
        0 <= i < j ==> (#[trigger] cs[c].env@[i]).name@ != name@) && (forall|d: int, i: int|
        0 <= d < c && 0 <= i < cs[d].env@.len() ==> (#[trigger] cs[d].env@[i]).name@ != name@) {
        lemma_env_value(cs, name@, 0, c, j);
    }
    if forall|d: int, i: int|
        0 <= d < cs.len() && 0 <= i < cs[d].env@.len() ==> (#[trigger] cs[d].env@[i]).name@
            != name@ {
        lemma_no_env_value(cs, name@, 0);
    }
}

/// Discovery runs without Kodo where it is there, all its replicas have settled,
/// and none was told to publish gateways.
pub proof fn law_discovery_without_kodo_has_settled(deployment: Option<&Deployment>, r: bool)
    requires
        call_ensures(deployment_runs_without_kodo, (deployment,), r),
    ensures
        r <==> deployment is Some && is_settled(*deployment->0) && env_value(
            deployment->0.containers@,
            "RUSTQUEUE_KODO_COMPATIBILITY_ENABLED"@,
            0,
        ) != Some("true"@),
{
}

} // verus!
