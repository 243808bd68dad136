use rustqueue::operator::controller::auth::{
    create_or_refuse, new_tokens, read_tokens, secret_name, tls_message, tls_revision,
    token_update, validate_distinct_tokens, AuthError, TlsError,
};
use rustqueue::operator::controller::drain::{
    broker_set_current_and_ready, current_addresses, drain_step, draining_candidates,
    exact_broker_pod_set, is_completed, maintenance_message, maintenance_progress,
    maintenance_step, origin, other_brokers_ready, pod_image, pod_ordinal, pod_revision,
    previous_image, replaced_progress, rollout_decision, rollout_outcome, rollout_progress,
    scale_down_check, scale_down_progress, scale_down_target, Decision, DrainGoal, DrainStatus,
    DrainStep, MaintenanceError, MaintenanceStep, Progress, RolloutOptions,
};
use rustqueue::operator::controller::health::HealthState;
use rustqueue::operator::controller::kodo::{
    complete_kodo_gateway_set, condition_since, condition_true, condition_true_after,
    condition_true_at, condition_true_for,
    deployment_advertises_kodo_cleanup, deployment_is_fully_ready, deployment_matches_revision,
    deployment_requests_kodo_cleanup, deployment_requests_kodo_mode,
    deployment_runs_without_kodo, deployment_template_has_discovery_mode, desired_brokers,
    discovery_service_kodo_route, discovery_target_mode, discovery_target_route,
    kodo_decommission_blocked, kodo_gateway_activation_ready, kodo_plan, kodo_runtime_recovery,
    long_enough, ordinary_desired_brokers, should_hold_kodo_for_disable, statefulset_broker_image,
    statefulset_has_replicas, CutoverObservation, KodoObservation, KodoRuntimeRecovery,
    KodoRuntimeSignals,
};
use rustqueue::operator::controller::kodo_cutover::{producer_restart_fence, ProducerRestartFence};
use rustqueue::operator::controller::leadership::{
    acquire_or_renew, desired_lease, renew, Lease, LeaseObserver, LeaseStep,
};
use rustqueue::operator::controller::nodes::{
    broker_health, discovery_selector_of, observed_update_revision, pod_current_and_ready,
    pod_ready, pod_ready_on_revision, pod_unavailable_reason, ready_component,
    ready_component_revision, ready_pods, selector_of,
};
use rustqueue::operator::controller::operations::{
    failed_rollout, finished_maintenance, held_report, insufficient_eligible_nodes,
    insufficient_report, overdue_rollout, overdue_rollout_at, reconcile, reconcile_maintenance, reconcile_rollout,
    reconcile_scale_down, rollout_clock, rollout_id, rollout_phase_can_timeout,
    rollout_previous_image, waiting_for_kodo_cutover, OperationStep,
};
use rustqueue::operator::controller::preflight::{
    is_stale_probe, judge_brokers, judge_capabilities, legacy_maximum_batch_bytes,
    legacy_maximum_message_bytes, names_probes, probe_contract, probe_fingerprint,
    probe_matches, probe_name, probe_name_of, probe_pod, probe_step, required_batch_bytes,
    terminated_message, validate_binary, validate_probe_image, validate_report, waiting_failure, BinaryCapabilities,
    BrokerAnswer, BrokerCheck, CompatibilityReport, CompatibilityState, Outcome, ProbeStep,
    ReportedCapabilities,
};
use rustqueue::operator::controller::status::{
    elapsed_seconds, elapsed_seconds_at, operation_id, operation_id_of, seconds_since,
    OperationUpdate, StatusBuilder, HISTORY_LIMIT,
};
use rustqueue::operator::controller::storage::{
    claim_ordinal, claim_template_size, class_message, cpu_parts, quantity_parts,
    unit_multiplier, CpuUnit, MeasuredClaim, StorageDemand, StorageState,
};
use rustqueue::operator::controller::validation::{
    effective_delivery_limits, effective_image, effective_storage_feature_level,
    has_sha256_digest,
    previous_feature_level, validate, validate_message_storage_contract,
    with_storage_feature_floor, ResourceReadings, SpecError, KODO_BOOTSTRAP_RETENTION_SECONDS,
};
use rustqueue::operator::controller::{plan, storage};
use rustqueue::operator::crd::{
    default_bootstrap_retention, default_broker_cpu_request, default_broker_memory_request,
    default_connection_delivery_inflight_bytes, default_discovery_replicas,
    default_disk_high_watermark, default_disk_low_watermark, default_disk_pressure_grace,
    default_eligible_selector, default_image_pull_policy, default_kodo_allowed_pod_selector,
    default_kodo_cutover_grace, default_maintenance_startup_delay, default_max_brokers,
    default_max_detailed_metric_series, default_max_message_bytes, default_max_publish_workers,
    default_max_topics, default_message_index_cache_bytes, default_min_brokers,
    default_min_free_bytes, default_node_delivery_inflight_bytes,
    default_proxy_tcp_connection_age, default_publish_worker_idle_seconds,
    default_rollout_timeout, default_storage_class, default_storage_feature_level,
    default_storage_size, default_topology_key, enabled, BrokerMaintenance, BrokerScheduling,
    KodoCompatibility, ObjectMeta, OperationStatus, RolloutPolicy, RustQueue, RustQueueCondition,
    RustQueueSpec, RustQueueStatus, WorkloadResources,
};
use rustqueue::operator::kube::{
    controlled_by, Claim, Container, ContainerStatus, Deployment, EnvVar, OwnerRef, Pod,
    PodCondition, Service, StatefulSet, Waiting,
};
use rustqueue::operator::resources::DISCOVERY_MODE_LABEL;
use rustqueue::string_map::StringMap;

// What the tests are about.

fn container(name: &str, image: &str) -> Container {
    Container {
        name: name.into(),
        image: Some(image.into()),
        image_pull_policy: None,
        command: Vec::new(),
        args: Vec::new(),
        env: Vec::new(),
    }
}

fn bare_pod(name: &str) -> Pod {
    Pod {
        name: name.into(),
        given_name: Some(name.into()),
        labels: StringMap::new(),
        annotations: StringMap::new(),
        owners: Vec::new(),
        deleting: false,
        node_name: None,
        containers: Vec::new(),
        phase: None,
        pod_ip: None,
        conditions: Vec::new(),
        container_statuses: Vec::new(),
    }
}

fn readiness(ready: bool) -> PodCondition {
    PodCondition {
        type_: "Ready".into(),
        status: if ready { "True" } else { "False" }.into(),
        reason: None,
        message: None,
    }
}

fn pod(name: &str, revision: &str, ready: bool) -> Pod {
    let mut pod = bare_pod(name);
    pod.annotations.insert("rustqueue.io/revision", revision);
    pod.conditions.push(readiness(ready));
    pod
}

fn options(revision: &str) -> RolloutOptions<'_> {
    RolloutOptions {
        replicas: 3,
        desired_revision: revision,
        paused: false,
        require_canary_approval: false,
        approved_revision: None,
    }
}

fn queue_spec(image: &str) -> RustQueueSpec {
    RustQueueSpec {
        image: image.into(),
        image_pull_policy: default_image_pull_policy(),
        min_brokers: default_min_brokers(),
        max_brokers: default_max_brokers(),
        eligible_node_selector: default_eligible_selector(),
        storage_class_name: default_storage_class(),
        storage_size: default_storage_size(),
        storage_feature_level: default_storage_feature_level(),
        message_index_cache_bytes: default_message_index_cache_bytes(),
        maintenance_startup_delay_seconds: default_maintenance_startup_delay(),
        node_delivery_inflight_bytes: default_node_delivery_inflight_bytes(),
        connection_delivery_inflight_bytes: default_connection_delivery_inflight_bytes(),
        min_free_bytes: default_min_free_bytes(),
        disk_high_watermark_percent: default_disk_high_watermark(),
        disk_low_watermark_percent: default_disk_low_watermark(),
        protective_eviction_enabled: enabled(),
        disk_pressure_grace_seconds: default_disk_pressure_grace(),
        bootstrap_retention_seconds: default_bootstrap_retention(),
        max_message_bytes: default_max_message_bytes(),
        max_topics: default_max_topics(),
        max_publish_workers: default_max_publish_workers(),
        publish_worker_idle_seconds: default_publish_worker_idle_seconds(),
        detailed_queue_metrics: false,
        max_detailed_metric_series: default_max_detailed_metric_series(),
        registry_secret_name: None,
        console_management_enabled: false,
        client_tls_secret_name: None,
        proxy_node_selector: StringMap::new(),
        proxy_tcp_max_connection_age_seconds: default_proxy_tcp_connection_age(),
        discovery_replicas: default_discovery_replicas(),
        kodo_compatibility: KodoCompatibility::default(),
        maintenance: None,
        rollout: RolloutPolicy::default(),
        broker_scheduling: BrokerScheduling::default(),
        broker_resources: WorkloadResources::default(),
    }
}

fn cluster() -> RustQueue {
    RustQueue {
        metadata: ObjectMeta {
            name: "queue".into(),
            namespace: Some("test".into()),
            uid: Some("queue-uid".into()),
            generation: Some(4),
        },
        spec: queue_spec("rustqueue:test"),
        status: None,
    }
}

fn status_with(conditions: Vec<RustQueueCondition>) -> RustQueueStatus {
    RustQueueStatus {
        observed_generation: None,
        desired_brokers: 3,
        ready_brokers: 3,
        phase: "Ready".into(),
        message: "ready".into(),
        active_storage_feature_level: 1,
        conditions,
        current_operation: None,
        operation_history: Vec::new(),
        orphaned_pvcs: Vec::new(),
        desired_storage_size: String::new(),
        kodo_producer_restart_baseline_nonce: None,
    }
}

fn stateful_set() -> StatefulSet {
    StatefulSet {
        generation: None,
        replicas: None,
        containers: Vec::new(),
        claim_templates: Vec::new(),
        observed_generation: None,
        update_revision: None,
    }
}

// Draining.

#[test]
fn replacement_waits_for_the_previous_new_pod_to_be_ready() {
    let pods = vec![
        pod("queue-0", "old", true),
        pod("queue-1", "old", true),
        pod("queue-2", "new", false),
    ];
    assert!(matches!(
        rollout_decision(&pods, &options("new"), &Vec::new()),
        Decision::Wait(_)
    ));
}

#[test]
fn rollout_does_not_compound_an_unready_outdated_broker() {
    let pods = vec![
        pod("queue-0", "old", false),
        pod("queue-1", "old", true),
        pod("queue-2", "old", true),
    ];
    assert!(matches!(
        rollout_decision(&pods, &options("new"), &Vec::new()),
        Decision::Wait(message) if message.contains("refusing")
    ));
}

#[test]
fn rollout_continues_the_one_intentionally_draining_broker() {
    let pods = vec![
        pod("queue-0", "old", true),
        pod("queue-1", "old", true),
        pod("queue-2", "old", false),
    ];
    assert!(matches!(
        rollout_decision(&pods, &options("new"), &vec!["queue-2".into()]),
        Decision::Replace(name) if name == "queue-2"
    ));
}

#[test]
fn rollout_resumes_its_drain_if_another_broker_becomes_unavailable() {
    let pods = vec![
        pod("queue-0", "old", false),
        pod("queue-1", "old", true),
        pod("queue-2", "old", false),
    ];
    assert!(matches!(
        rollout_decision(&pods, &options("new"), &vec!["queue-2".into()]),
        Decision::Resume(names, _) if names == ["queue-2"]
    ));
}

#[test]
fn rollout_resumes_its_drain_if_a_current_broker_becomes_unavailable() {
    let pods = vec![
        pod("queue-0", "new", false),
        pod("queue-1", "old", true),
        pod("queue-2", "old", false),
    ];
    assert!(matches!(
        rollout_decision(&pods, &options("new"), &vec!["queue-2".into()]),
        Decision::Resume(names, _) if names == ["queue-2"]
    ));
}

#[test]
fn maintenance_and_scale_down_require_every_other_broker_to_be_ready() {
    let pods = || {
        vec![
            pod("queue-0", "current", true),
            pod("queue-1", "current", true),
            pod("queue-2", "current", false),
        ]
    };
    assert!(other_brokers_ready(&pods(), "queue-2", 3));
    assert!(!other_brokers_ready(&pods(), "queue-1", 3));
    let mut missing = pods();
    missing.remove(1);
    assert!(!other_brokers_ready(&missing, "queue-2", 3));
    let mut with_stale = pods();
    with_stale.push(pod("queue-3", "old", true));
    assert!(!other_brokers_ready(&with_stale, "queue-2", 3));
}

#[test]
fn rollout_waits_for_stale_or_malformed_broker_pods_to_disappear() {
    let mut extra = vec![
        pod("queue-0", "old", true),
        pod("queue-1", "old", true),
        pod("queue-2", "old", true),
    ];
    extra.push(pod("queue-3", "old", true));
    assert!(matches!(
        rollout_decision(&extra, &options("new"), &Vec::new()),
        Decision::Wait(message) if message.contains("exact")
    ));

    let duplicate = vec![
        pod("queue-0", "old", true),
        pod("another-0", "old", true),
        pod("queue-2", "old", true),
    ];
    assert!(matches!(
        rollout_decision(&duplicate, &options("new"), &Vec::new()),
        Decision::Wait(message) if message.contains("exact")
    ));
    assert!(!exact_broker_pod_set(&duplicate, 3));
}

#[test]
fn canary_requires_explicit_revision_approval() {
    let pods = vec![
        pod("queue-0", "old", true),
        pod("queue-1", "old", true),
        pod("queue-2", "new", true),
    ];
    let mut options = options("new");
    options.require_canary_approval = true;
    assert!(matches!(
        rollout_decision(&pods, &options, &Vec::new()),
        Decision::AwaitingApproval
    ));
    options.approved_revision = Some("new");
    assert!(matches!(
        rollout_decision(&pods, &options, &Vec::new()),
        Decision::Replace(_)
    ));
}

#[test]
fn a_current_single_broker_is_ready_without_a_rollout() {
    let pods = vec![pod("queue-0", "current", true)];
    let mut options = options("current");
    options.replicas = 1;
    assert!(matches!(
        rollout_decision(&pods, &options, &Vec::new()),
        Decision::Completed
    ));
}

#[test]
fn current_revision_is_not_complete_until_every_broker_is_ready() {
    let pods = vec![
        pod("queue-0", "current", true),
        pod("queue-1", "current", false),
        pod("queue-2", "current", true),
    ];
    assert!(matches!(
        rollout_decision(&pods, &options("current"), &Vec::new()),
        Decision::Wait(message) if message.contains("queue-1")
    ));
}

#[test]
fn paused_rollouts_wait_and_the_highest_broker_goes_first() {
    let pods = vec![
        pod("queue-0", "old", true),
        pod("queue-1", "old", true),
        pod("queue-2", "old", true),
    ];
    let mut paused = options("new");
    paused.paused = true;
    assert!(matches!(
        rollout_decision(&pods, &paused, &Vec::new()),
        Decision::Paused
    ));
    assert!(matches!(
        rollout_decision(&pods, &options("new"), &Vec::new()),
        Decision::Replace(name) if name == "queue-2"
    ));
    let progress = rollout_progress(Decision::Paused, &paused);
    assert_eq!(progress.phase, "Paused");
    let progress = rollout_progress(Decision::Completed, &options("new"));
    assert_eq!(progress.phase, "Completed");
    assert_eq!(
        replaced_progress("queue-2").target,
        Some("queue-2".to_owned())
    );
}

#[test]
fn brokers_are_replaced_once_they_are_drained() {
    let replace = || Decision::Replace("queue-2".into());
    let draining = rollout_outcome(replace(), false, &options("new"));
    assert_eq!(draining.phase, "Draining");
    assert_eq!(
        draining.message,
        "waiting for outdated broker queue-2 to drain"
    );
    let replaced = rollout_outcome(replace(), true, &options("new"));
    assert_eq!(replaced.phase, "Replacing");
    assert_eq!(replaced.target, Some("queue-2".to_owned()));
    assert!(!is_completed(&replaced));
    assert!(is_completed(&rollout_outcome(
        Decision::Completed,
        false,
        &options("new")
    )));
    assert!(matches!(
        drain_step(None, DrainGoal::Empty),
        DrainStep::Done
    ));
    assert!(matches!(
        drain_step(Some(None), DrainGoal::Empty),
        DrainStep::Wait
    ));
    assert!(matches!(
        drain_step(Some(Some("10.0.0.1".into())), DrainGoal::Quiesced),
        DrainStep::Tell { ip, freeze_deliveries: true } if ip == "10.0.0.1"
    ));
    assert!(matches!(
        drain_step(Some(Some("10.0.0.1".into())), DrainGoal::Empty),
        DrainStep::Tell {
            freeze_deliveries: false,
            ..
        }
    ));
}

#[test]
fn numeric_ordinal_sorting_selects_the_highest_broker() {
    let mut names = vec!["queue-9", "queue-10", "queue-499", "queue-100"];
    names.sort_by_key(|name| pod_ordinal(name).unwrap());
    assert_eq!(names.pop(), Some("queue-499"));
    assert_eq!(pod_ordinal("queue"), None);
    assert_eq!(pod_ordinal("queue-x"), None);
}

#[test]
fn target_broker_readiness_requires_the_complete_current_revision() {
    let ready = || {
        vec![
            pod("queue-0", "current", true),
            pod("queue-1", "current", true),
            pod("queue-2", "current", true),
        ]
    };
    assert!(broker_set_current_and_ready(&ready(), "current", 3));

    let mut outdated = ready();
    outdated[1] = pod("queue-1", "old", true);
    assert!(!broker_set_current_and_ready(&outdated, "current", 3));

    let mut unready = ready();
    unready[2] = pod("queue-2", "current", false);
    assert!(!broker_set_current_and_ready(&unready, "current", 3));
    let mut two = ready();
    two.pop();
    assert!(!broker_set_current_and_ready(&two, "current", 3));
}

#[test]
fn formats_ipv4_and_ipv6_origins() {
    assert_eq!(origin("10.0.0.1"), "http://10.0.0.1:4151");
    assert_eq!(origin("fd00::1"), "http://[fd00::1]:4151");
}

#[test]
fn rollout_accepts_quiesced_backlog_but_scale_down_does_not() {
    let status = DrainStatus {
        draining: true,
        drained: false,
        quiesced: Some(true),
        delivery_frozen: Some(true),
        empty: Some(false),
    };
    assert!(status.satisfies(DrainGoal::Quiesced));
    assert!(!status.satisfies(DrainGoal::Empty));
}

#[test]
fn rollout_requires_an_older_v7_broker_to_be_fully_drained() {
    let status = DrainStatus {
        draining: true,
        drained: false,
        quiesced: None,
        delivery_frozen: None,
        empty: None,
    };
    assert!(!status.satisfies(DrainGoal::Quiesced));
    assert!(!status.satisfies(DrainGoal::Empty));

    let status = DrainStatus {
        draining: true,
        drained: true,
        quiesced: None,
        delivery_frozen: None,
        empty: None,
    };
    assert!(status.satisfies(DrainGoal::Quiesced));
}

#[test]
fn rollout_rejects_a_new_broker_without_a_delivery_freeze() {
    let status = DrainStatus {
        draining: true,
        drained: false,
        quiesced: Some(true),
        delivery_frozen: Some(false),
        empty: None,
    };
    assert!(!status.satisfies(DrainGoal::Quiesced));
}

#[test]
fn drains_concern_pods_of_an_older_revision_with_an_address() {
    let mut old = pod("queue-0", "old", false);
    old.pod_ip = Some("10.0.0.1".into());
    old.containers.push(container("broker", "rustqueue:v1"));
    let mut current = pod("queue-1", "new", true);
    current.pod_ip = Some("10.0.0.2".into());
    let pods = vec![old, current];
    assert_eq!(
        previous_image(&pods, "new"),
        Some("rustqueue:v1".to_owned())
    );
    assert_eq!(previous_image(&pods, "old"), None);
    assert_eq!(current_addresses(&pods, "new"), vec!["10.0.0.2".to_owned()]);
    assert_eq!(draining_candidates(&pods, "new"), vec![0]);
    assert_eq!(pod_revision(&pods[0]), Some("old".to_owned()));
    assert_eq!(pod_image(&pods[0]), Some("rustqueue:v1".to_owned()));
    assert_eq!(pod_image(&pods[1]), None);
}

#[test]
fn scale_down_drains_the_last_broker_when_the_others_are_ready() {
    assert_eq!(scale_down_target("queue", 3), "queue-2");
    let mut pods = vec![
        pod("queue-0", "r", true),
        pod("queue-1", "r", true),
        pod("queue-2", "r", true),
    ];
    assert!(scale_down_check(&pods, "queue-2", 3).is_none());
    pods[0] = pod("queue-0", "r", false);
    let waiting = scale_down_check(&pods, "queue-2", 3).unwrap();
    assert_eq!(waiting.target, Some("queue-2".to_owned()));
    let draining = scale_down_progress("queue-2", 3, false);
    let drained = scale_down_progress("queue-2", 3, true);
    assert_ne!(draining.phase, drained.phase);
}

#[test]
fn maintenance_needs_a_broker_of_the_cluster_with_an_address() {
    let pods = vec![
        pod("queue-0", "r", true),
        pod("queue-1", "r", true),
        pod("queue-2", "r", true),
    ];
    assert!(matches!(
        maintenance_step("queue", "other-0", true, &pods, 3),
        Err(MaintenanceError::NotABroker)
    ));
    assert!(matches!(
        maintenance_step("queue", "queue-7", true, &pods, 3),
        Err(MaintenanceError::Missing)
    ));
    assert!(matches!(
        maintenance_step("queue", "queue-1", true, &pods, 3),
        Err(MaintenanceError::NoAddress)
    ));
    let mut pods = pods;
    pods[1].pod_ip = Some("10.0.0.9".into());
    match maintenance_step("queue", "queue-1", true, &pods, 3) {
        Ok(MaintenanceStep::SetDrain(address)) => assert!(address.contains("10.0.0.9")),
        other => panic!("{other:?}"),
    }
    pods[0] = pod("queue-0", "r", false);
    assert!(matches!(
        maintenance_step("queue", "queue-1", true, &pods, 3),
        Ok(MaintenanceStep::Resume(_))
    ));
    assert!(maintenance_message(&MaintenanceError::Missing, "queue", "queue-7")
        .contains("queue-7"));
    let done = DrainStatus {
        draining: true,
        drained: true,
        quiesced: None,
        delivery_frozen: None,
        empty: None,
    };
    let progress = maintenance_progress("queue-1", true, done);
    assert_eq!(progress.target, Some("queue-1".to_owned()));
}

// Nodes.

fn labelled(revision: &str, ready: bool) -> Pod {
    let mut pod = bare_pod("queue-kodo-gateway-0");
    pod.labels.insert("controller-revision-hash", revision);
    pod.conditions.push(readiness(ready));
    pod
}

#[test]
fn component_readiness_requires_the_target_revision() {
    assert!(pod_current_and_ready(&labelled("current", true), "current"));
    assert!(!pod_current_and_ready(&labelled("old", true), "current"));
    assert!(!pod_current_and_ready(
        &labelled("current", false),
        "current"
    ));
}

#[test]
fn statefulset_revision_must_observe_its_latest_generation() {
    let mut set = stateful_set();
    set.generation = Some(4);
    set.observed_generation = Some(3);
    set.update_revision = Some("new".into());
    assert_eq!(observed_update_revision(&set), None);
    set.observed_generation = Some(4);
    assert_eq!(observed_update_revision(&set), Some("new".to_owned()));
}

#[test]
fn component_readiness_requires_the_requested_rustqueue_revision() {
    let pod = pod("queue-kodo-gateway-0", "current", true);
    assert!(pod_ready_on_revision(&pod, "current"));
    assert!(!pod_ready_on_revision(&pod, "old"));
}

#[test]
fn components_are_counted_by_readiness_and_revision() {
    let mut set = stateful_set();
    set.generation = Some(1);
    set.observed_generation = Some(1);
    set.update_revision = Some("current".into());
    let pods = vec![
        labelled("current", true),
        labelled("old", true),
        labelled("current", false),
    ];
    assert_eq!(ready_component(&set, &pods), 1);
    assert_eq!(ready_pods(&pods), 2);
    let revised = vec![pod("a-0", "r1", true), pod("a-1", "r2", true)];
    assert_eq!(ready_component_revision(&revised, "r1"), 1);
    assert!(pod_ready(&revised[0]));
    assert!(!pod_ready(&bare_pod("x")));
    assert_eq!(
        selector_of("queue", "broker"),
        "app.kubernetes.io/instance=queue,app.kubernetes.io/component=broker"
    );
    assert!(discovery_selector_of("queue", true).ends_with("kodo"));
    assert!(discovery_selector_of("queue", false).ends_with("direct"));
}

#[test]
fn broker_health_names_what_is_unavailable() {
    let mut waiting = pod("queue-1", "r", false);
    waiting.conditions[0].reason = Some("ContainersNotReady".into());
    let health = broker_health(&vec![pod("queue-0", "r", true), waiting]);
    assert_eq!(health.ready, 1);
    assert_eq!(health.unavailable.len(), 1);
    assert_eq!(health.unavailable[0], "queue-1: Ready ContainersNotReady");
    let mut nameless = pod("", "r", false);
    let health = broker_health(&vec![pod("", "r", false)]);
    assert_eq!(health.unavailable, vec![": Ready"]);
    nameless.given_name = None;
    let health = broker_health(&vec![nameless]);
    assert_eq!(health.unavailable, vec!["unknown: Ready"]);
    assert!(!pod_unavailable_reason(&bare_pod("x")).is_empty());
}

// Kodo.

#[test]
fn existing_gateway_replicas_preserve_activation_without_status() {
    let mut gateway = stateful_set();
    gateway.replicas = Some(3);
    assert!(statefulset_has_replicas(Some(&gateway)));
    assert!(!statefulset_has_replicas(None));
}

#[test]
fn blocked_target_preflight_reuses_the_active_broker_image() {
    let mut brokers = stateful_set();
    brokers.containers.push(container("sidecar", "sidecar:v1"));
    brokers
        .containers
        .push(container("broker", "rustqueue:active"));
    assert_eq!(
        statefulset_broker_image(Some(&brokers)),
        Some("rustqueue:active".to_owned())
    );
    assert_eq!(statefulset_broker_image(None), None);
}

#[test]
fn kodo_decommission_requires_confirmation_only_for_a_live_gateway_set() {
    assert!(kodo_decommission_blocked(false, false, true));
    assert!(!kodo_decommission_blocked(false, true, true));
    assert!(!kodo_decommission_blocked(true, false, true));
    assert!(!kodo_decommission_blocked(false, false, false));
}

#[test]
fn kodo_gateways_can_bootstrap_during_one_broker_outage() {
    assert!(kodo_gateway_activation_ready(3, 2));
    assert!(kodo_gateway_activation_ready(2, 2));
    assert!(!kodo_gateway_activation_ready(3, 1));
    assert!(!kodo_gateway_activation_ready(1, 1));
}

#[test]
fn runtime_recovery_recreates_gateways_without_advancing_discovery() {
    assert_eq!(
        kodo_runtime_recovery(
            true,
            3,
            2,
            KodoRuntimeSignals {
                discovery_mode: Some(false),
                discovery_route: Some(false),
                ..Default::default()
            },
        ),
        KodoRuntimeRecovery {
            gateway_replicas: 3,
            advertise_gateways: false,
            discovery_service_kodo: false,
            retain_gateways: false,
        }
    );
}

#[test]
fn runtime_recovery_preserves_an_in_progress_kodo_disable() {
    assert_eq!(
        kodo_runtime_recovery(
            false,
            3,
            2,
            KodoRuntimeSignals {
                discovery_mode: Some(false),
                discovery_route: Some(true),
                previously_active: true,
                ..Default::default()
            },
        ),
        KodoRuntimeRecovery {
            gateway_replicas: 3,
            advertise_gateways: false,
            discovery_service_kodo: true,
            retain_gateways: true,
        }
    );
}

#[test]
fn runtime_recovery_keeps_live_gateways_advertised_when_discovery_is_missing() {
    assert_eq!(
        kodo_runtime_recovery(
            false,
            3,
            2,
            KodoRuntimeSignals {
                gateway_active: true,
                ..Default::default()
            },
        ),
        KodoRuntimeRecovery {
            gateway_replicas: 3,
            advertise_gateways: true,
            discovery_service_kodo: true,
            retain_gateways: true,
        }
    );
}

#[test]
fn runtime_recovery_does_not_resurrect_a_completed_decommission() {
    assert_eq!(
        kodo_runtime_recovery(false, 3, 2, KodoRuntimeSignals::default()),
        KodoRuntimeRecovery {
            gateway_replicas: 0,
            advertise_gateways: false,
            discovery_service_kodo: false,
            retain_gateways: false,
        }
    );
}

#[test]
fn kodo_gateway_readiness_requires_both_revision_fences() {
    assert!(complete_kodo_gateway_set(3, 3));
    assert!(!complete_kodo_gateway_set(2, 3));
    assert!(!complete_kodo_gateway_set(3, 2));
}

fn variable(name: &str, value: &str) -> EnvVar {
    EnvVar {
        name: name.into(),
        value: Some(value.into()),
    }
}

fn discovery_deployment() -> Deployment {
    let mut labels = StringMap::of("app", "discovery");
    labels.insert("rustqueue.io/discovery-publisher-mode", "kodo");
    let mut discovery = container("discovery", "rustqueue:test");
    discovery
        .env
        .push(variable("RUSTQUEUE_KODO_COMPATIBILITY_ENABLED", "true"));
    discovery.env.push(variable(
        "RUSTQUEUE_KODO_GATEWAY_ADDRESS",
        "queue-kodo-publish.test.svc",
    ));
    discovery
        .env
        .push(variable("RUSTQUEUE_KODO_CLEANUP_ENABLED", "true"));
    Deployment {
        generation: Some(4),
        replicas: Some(2),
        template_labels: labels,
        template_annotations: StringMap::of("rustqueue.io/revision", "current"),
        containers: vec![discovery],
        observed_generation: Some(4),
        ready_replicas: Some(2),
        updated_replicas: Some(2),
        available_replicas: Some(2),
    }
}

#[test]
fn discovery_advertisement_is_recovered_from_the_live_deployment() {
    let deployment = discovery_deployment();
    assert!(deployment_requests_kodo_mode(Some(&deployment)));
    assert!(deployment_requests_kodo_cleanup(Some(&deployment)));
    assert!(deployment_template_has_discovery_mode(
        Some(&deployment),
        true
    ));
    assert!(deployment_advertises_kodo_cleanup(
        Some(&deployment),
        "current"
    ));
    assert!(!deployment_runs_without_kodo(Some(&deployment)));
    let direct_service = Service {
        selector: StringMap::of("rustqueue.io/discovery-publisher-mode", "direct"),
    };
    assert_eq!(
        discovery_service_kodo_route(Some(&direct_service)),
        Some(false)
    );
    let mut kodo_service = direct_service;
    kodo_service.selector.insert(DISCOVERY_MODE_LABEL, "kodo");
    assert_eq!(
        discovery_service_kodo_route(Some(&kodo_service)),
        Some(true)
    );
    assert_eq!(discovery_service_kodo_route(None), None);

    let mut unready = discovery_deployment();
    unready.ready_replicas = Some(1);
    assert!(!deployment_advertises_kodo_cleanup(
        Some(&unready),
        "current"
    ));

    let mut disabled = discovery_deployment();
    disabled.containers[0]
        .env
        .retain(|variable| !variable.name.starts_with("RUSTQUEUE_KODO_"));
    disabled
        .template_labels
        .insert(DISCOVERY_MODE_LABEL, "direct");
    assert!(deployment_runs_without_kodo(Some(&disabled)));
    disabled.updated_replicas = Some(1);
    assert!(!deployment_runs_without_kodo(Some(&disabled)));
    assert!(deployment_is_fully_ready(Some(&discovery_deployment())));
    assert!(deployment_matches_revision(
        &discovery_deployment(),
        "current"
    ));
    assert!(!deployment_matches_revision(&discovery_deployment(), "old"));
}

#[test]
fn discovery_cutover_never_selects_direct_and_kodo_pods_together() {
    assert_eq!(
        discovery_target_mode(true, true, true, false, None, false, true),
        (false, true),
        "legacy unlabeled Pods are first relabeled without changing topology"
    );
    assert_eq!(
        discovery_target_route(true, true, None, false, false, (2, 0), 2),
        None,
        "label adoption keeps the compatibility selector broad"
    );

    let (target, adopting) = discovery_target_mode(true, true, true, false, None, true, true);
    assert_eq!((target, adopting), (true, false));
    assert_eq!(
        discovery_target_route(true, adopting, None, false, target, (0, 2), 2),
        Some(false),
        "Gateway-mode Pods roll out behind the direct-only Service"
    );
    assert_eq!(
        discovery_target_route(true, adopting, Some(false), false, target, (2, 2), 2),
        Some(true),
        "the Service switches only after every Gateway-mode Pod is Ready"
    );
    assert_eq!(
        discovery_target_route(true, adopting, Some(true), true, target, (0, 2), 2),
        Some(false),
        "the Service rolls back when Gateway-mode Pods fail during the soak"
    );

    let (target, adopting) =
        discovery_target_mode(false, false, true, true, Some(true), true, true);
    assert_eq!((target, adopting), (false, false));
    assert_eq!(
        discovery_target_route(true, adopting, Some(true), true, target, (0, 2), 2),
        Some(true)
    );
    assert_eq!(
        discovery_target_route(true, adopting, Some(true), true, target, (2, 2), 2),
        Some(false),
        "disable switches back only after every direct-mode Pod is Ready"
    );
    assert_eq!(
        discovery_target_route(true, adopting, Some(false), false, target, (0, 2), 2),
        Some(true),
        "the Service restores Gateway mode when direct Pods fail during the soak"
    );
}

#[test]
fn kodo_disable_holds_gateways_until_target_brokers_are_safe() {
    assert!(should_hold_kodo_for_disable(false, true, false, true));
    assert!(should_hold_kodo_for_disable(false, true, true, false));
    assert!(!should_hold_kodo_for_disable(false, true, true, true));
    assert!(!should_hold_kodo_for_disable(true, true, false, false));
}

fn advertised(status: &str, since: &str) -> RustQueueCondition {
    RustQueueCondition {
        type_: "KodoGatewaysAdvertised".into(),
        status: status.into(),
        reason: "Advertised".into(),
        message: "ready".into(),
        observed_generation: None,
        last_transition_time: since.into(),
    }
}

#[test]
fn kodo_cutover_grace_uses_the_condition_transition_time() {
    let mut cluster = cluster();
    cluster.status = Some(status_with(vec![advertised(
        "True",
        "2020-01-01T00:00:00Z",
    )]));
    assert!(condition_true_for(&cluster, "KodoGatewaysAdvertised", 630));
    assert!(condition_true(&cluster, "KodoGatewaysAdvertised"));
    cluster.status.as_mut().unwrap().conditions[0].status = "False".into();
    assert!(!condition_true_for(&cluster, "KodoGatewaysAdvertised", 630));
    assert_eq!(condition_since(&cluster, "KodoGatewaysAdvertised"), None);

    cluster.status = Some(status_with(vec![advertised(
        "True",
        "2990-01-01T00:00:00Z",
    )]));
    assert!(!condition_true_for(&cluster, "KodoGatewaysAdvertised", 0));
    cluster.status = Some(status_with(vec![advertised("True", "yesterday")]));
    assert!(!condition_true_for(&cluster, "KodoGatewaysAdvertised", 0));
    assert!(long_enough(Some(630), 630));
    assert!(!long_enough(Some(629), 630));
    assert!(!long_enough(None, 0));

    cluster.status = Some(status_with(vec![advertised("True", "yesterday")]));
    let advertised_for =
        |elapsed| condition_true_after(&cluster, "KodoGatewaysAdvertised", 630, elapsed);
    assert!(advertised_for(Some(630)));
    assert!(!advertised_for(Some(629)));
    assert!(!advertised_for(None));
    assert!(!condition_true_after(&cluster, "Other", 0, Some(1)));

    cluster.status = Some(status_with(vec![advertised(
        "True",
        "2020-01-01T00:00:00.5Z",
    )]));
    let advertised_at =
        |now| condition_true_at(&cluster, "KodoGatewaysAdvertised", 630, now);
    let start: i64 = 1_577_836_800;
    assert!(advertised_at((start + 630, 500_000_000)));
    assert!(!advertised_at((start + 630, 499_999_999)));
    assert!(!advertised_at((start - 1, 0)));
}

#[test]
fn confirmation_requires_a_nonce_change_after_advertisement() {
    let first = producer_restart_fence(true, true, "before", None);
    assert_eq!(
        first,
        ProducerRestartFence {
            baseline_nonce: Some("before".into()),
            confirmed: false,
        }
    );
    assert!(!producer_restart_fence(true, true, "before", Some("before")).confirmed);
    assert!(producer_restart_fence(true, true, "after", Some("before")).confirmed);
}

#[test]
fn losing_advertisement_resets_the_confirmation_fence() {
    assert_eq!(
        producer_restart_fence(true, false, "after", Some("before")),
        ProducerRestartFence {
            baseline_nonce: None,
            confirmed: false,
        }
    );
    assert_eq!(
        producer_restart_fence(false, true, "after", Some("before")),
        ProducerRestartFence {
            baseline_nonce: None,
            confirmed: false,
        }
    );
}

#[test]
fn kodo_plans_wait_for_every_gate() {
    let mut cluster = cluster();
    cluster.spec.kodo_compatibility.enabled = true;
    let mut seen = KodoObservation {
        current_brokers: 3,
        ready_brokers: 3,
        ordinary_desired: 3,
        gateways_active: true,
        gateways_updated: 3,
        gateways_configured: 2,
        target_brokers_ready: true,
        has_discovery: true,
        discovery_kodo: false,
        discovery_route: Some(false),
        discovery_labelled: true,
        discovery_settled: true,
    };
    let mut cutover = CutoverObservation {
        ready_target: 0,
        ready_fallback: 2,
        direct_running: true,
        cutover_elapsed: false,
        direct_elapsed: false,
        cleanup_advertised: false,
    };
    let (plan, fence) = kodo_plan(&cluster, &seen, &cutover);
    assert!(!plan.gateways_ready);
    assert!(!plan.advertise_gateways);
    assert!(!fence.confirmed);

    seen.gateways_configured = 3;
    assert_eq!(seen.discovery_mode(&cluster.spec), (true, false));
    let (plan, _) = kodo_plan(&cluster, &seen, &cutover);
    assert!(plan.gateways_ready);
    assert!(plan.advertise_gateways);
    assert_eq!(plan.service_kodo, Some(false));
    assert!(!plan.gateways_advertised);

    seen.discovery_kodo = true;
    seen.discovery_route = Some(true);
    cutover.ready_target = 2;
    cutover.ready_fallback = 0;
    cutover.direct_running = false;
    let (plan, fence) = kodo_plan(&cluster, &seen, &cutover);
    assert_eq!(plan.service_kodo, Some(true));
    assert!(plan.gateways_advertised);
    assert!(fence.baseline_nonce.is_some());
    assert!(!plan.disruptions_allowed);
    assert!(!plan.activate_cleanup);
}

#[test]
fn ordinary_scaling_honors_the_configured_floor_and_ceiling() {
    assert_eq!(ordinary_desired_brokers(0, 3, 10), 3);
    assert_eq!(ordinary_desired_brokers(7, 3, 10), 7);
    assert_eq!(ordinary_desired_brokers(12, 3, 10), 10);
    assert_eq!(ordinary_desired_brokers(usize::MAX, 3, 10), 10);
    let spec = queue_spec("rustqueue:test");
    assert_eq!(desired_brokers(&spec, 7, false), 7);
    let mut kodo = queue_spec("rustqueue:test");
    kodo.kodo_compatibility.enabled = true;
    assert_eq!(desired_brokers(&kodo, 7, true), 3);
}

// Settings.

#[test]
fn active_storage_feature_level_is_a_monotonic_floor() {
    assert_eq!(effective_storage_feature_level(1, 2), 2);
    assert_eq!(effective_storage_feature_level(2, 1), 2);
    let mut raised = cluster();
    assert_eq!(raised.spec.storage_feature_level, 1);
    raised = with_storage_feature_floor(raised, 2);
    assert_eq!(raised.spec.storage_feature_level, 2);
    assert_eq!(previous_feature_level(&cluster()), 1);
    let mut reported = cluster();
    reported.status = Some(status_with(Vec::new()));
    reported
        .status
        .as_mut()
        .unwrap()
        .active_storage_feature_level = 2;
    assert_eq!(previous_feature_level(&reported), 2);
}

fn parse_cpu_millis(value: &str) -> Result<f64, String> {
    let (number, unit) = cpu_parts(value);
    let number: f64 = number.parse().map_err(|_| value.to_owned())?;
    if !number.is_finite() || number < 0.0 {
        return Err(value.to_owned());
    }
    Ok(number
        * match unit {
            CpuUnit::Cores => 1_000.0,
            CpuUnit::Millis => 1.0,
            CpuUnit::Micros => 0.001,
            CpuUnit::Nanos => 0.000_001,
        })
}

#[test]
fn cpu_quantities_compare_in_millicores() {
    assert_eq!(parse_cpu_millis("1").unwrap(), 1_000.0);
    assert_eq!(parse_cpu_millis("1000m").unwrap(), 1_000.0);
    assert_eq!(parse_cpu_millis("500m").unwrap(), 500.0);
    assert_eq!(parse_cpu_millis("500000u").unwrap(), 500.0);
    assert!(parse_cpu_millis("-1").is_err());
    assert_eq!(cpu_parts(" 5n "), ("5".to_owned(), CpuUnit::Nanos));
}

#[test]
fn feature_two_retains_large_message_delivery_capacity() {
    assert_eq!(
        effective_delivery_limits(2, 20 * 1024 * 1024, 32 * 1024 * 1024, 64 * 1024 * 1024),
        (100 * 1024 * 1024, 200 * 1024 * 1024)
    );
}

#[test]
fn legacy_feature_rejects_messages_that_cross_the_record_bound() {
    let maximum = 71 * 1024 * 1024;
    assert!(validate_message_storage_contract(maximum, 1).is_ok());
    assert!(validate_message_storage_contract(maximum + 1, 1).is_err());
    assert!(validate_message_storage_contract(100 * 1024 * 1024, 2).is_ok());
}

#[test]
fn immutable_image_detection_requires_a_complete_sha256_digest() {
    let digest = "a".repeat(64);
    assert!(has_sha256_digest(&format!(
        "registry/rustqueue@sha256:{digest}"
    )));
    assert!(!has_sha256_digest(&format!(
        "registry/rustqueue@sha256:{}",
        "A".repeat(64)
    )));
    assert!(!has_sha256_digest("registry/rustqueue:latest"));
    assert!(!has_sha256_digest("registry/rustqueue@sha256:abcd"));
}

fn parse_quantity(value: &str) -> Result<u128, String> {
    let (number, unit) = quantity_parts(value);
    if number.is_empty() {
        return Err(value.to_owned());
    }
    let number: f64 = number.parse().map_err(|_| value.to_owned())?;
    let multiplier = unit_multiplier(&unit).ok_or_else(|| value.to_owned())?;
    Ok((number * multiplier as f64) as u128)
}

fn readings(cluster: &RustQueue) -> ResourceReadings {
    let resources = &cluster.spec.broker_resources;
    let cpu_request = parse_cpu_millis(&resources.cpu_request).ok();
    ResourceReadings {
        memory_request: parse_quantity(&resources.memory_request).ok(),
        memory_limit: resources
            .memory_limit
            .as_ref()
            .and_then(|limit| parse_quantity(limit).ok()),
        cpu_request_is_one: cpu_request.map(|millis| millis >= 1_000.0),
        cpu_limit_covers_request: resources
            .cpu_limit
            .as_ref()
            .and_then(|limit| parse_cpu_millis(limit).ok())
            .zip(cpu_request)
            .map(|(limit, request)| limit >= request),
    }
}

fn kodo_cluster() -> RustQueue {
    let mut cluster = cluster();
    let spec = &mut cluster.spec;
    spec.image_pull_policy = "Never".into();
    spec.min_brokers = 3;
    spec.max_brokers = 3;
    spec.storage_feature_level = 2;
    spec.bootstrap_retention_seconds = 180;
    spec.max_message_bytes = 104_857_600;
    spec.connection_delivery_inflight_bytes = 134_217_728;
    spec.node_delivery_inflight_bytes = 536_870_912;
    spec.broker_resources.cpu_request = "1".into();
    spec.broker_resources.memory_request = "2Gi".into();
    spec.kodo_compatibility.enabled = true;
    cluster
}

fn spec_fault(cluster: &RustQueue) -> &'static str {
    validate(cluster, 2, &readings(cluster))
        .unwrap_err()
        .message()
}

#[test]
fn kodo_contract_requires_a_second_lookup_poll_retention_window() {
    let mut cluster = kodo_cluster();
    assert!(validate(&cluster, 2, &readings(&cluster)).is_ok());
    cluster.spec.broker_resources.cpu_request = "999m".into();
    assert!(spec_fault(&cluster).contains("cpuRequest >= 1 CPU"));
    cluster.spec.broker_resources.cpu_request = "1".into();
    cluster.spec.bootstrap_retention_seconds = KODO_BOOTSTRAP_RETENTION_SECONDS - 1;
    assert!(spec_fault(&cluster).contains("bootstrapRetentionSeconds >= 180"));
}

fn fault_after(change: fn(&mut RustQueueSpec)) -> SpecError {
    let mut cluster = kodo_cluster();
    change(&mut cluster.spec);
    let measured = readings(&cluster);
    validate(&cluster, 2, &measured).unwrap_err()
}

#[test]
fn every_fault_of_the_settings_is_found() {
    assert!(matches!(
        fault_after(|s| s.image = " ".into()),
        SpecError::Image
    ));
    assert!(matches!(
        fault_after(|s| s.min_brokers = 0),
        SpecError::BrokerLimits
    ));
    assert!(matches!(
        fault_after(|s| s.storage_class_name = String::new()),
        SpecError::Storage
    ));
    assert!(matches!(
        fault_after(|s| s.storage_feature_level = 0),
        SpecError::FeatureLevel
    ));
    assert!(matches!(
        fault_after(|s| s.disk_low_watermark_percent = 99),
        SpecError::Watermarks
    ));
    assert!(matches!(
        fault_after(|s| s.max_topics = 0),
        SpecError::QueueLimits
    ));
    assert!(matches!(
        fault_after(|s| s.max_brokers = 4),
        SpecError::KodoProfile
    ));
    assert!(matches!(
        fault_after(|s| s.kodo_compatibility.cleanup_enabled = true),
        SpecError::Cleanup
    ));
    assert!(matches!(
        fault_after(|s| s.image_pull_policy = "IfNotPresent".into()),
        SpecError::MutableImage
    ));
    assert!(matches!(
        fault_after(|s| s.broker_resources.memory_request = "x".into()),
        SpecError::MemoryRequestUnreadable
    ));
    assert!(matches!(
        fault_after(|s| s.broker_resources.memory_request = "1Ki".into()),
        SpecError::MemoryRequest
    ));
    assert!(matches!(
        fault_after(|s| s.broker_resources.cpu_request = "x".into()),
        SpecError::CpuRequestUnreadable
    ));
    assert!(matches!(
        fault_after(|s| s.broker_resources.cpu_limit = Some("x".into())),
        SpecError::CpuLimitUnreadable
    ));
    assert!(matches!(
        fault_after(|s| s.broker_resources.cpu_limit = Some("1m".into())),
        SpecError::CpuLimit
    ));
    assert!(matches!(
        fault_after(|s| s.broker_resources.memory_limit = Some("x".into())),
        SpecError::MemoryLimitUnreadable
    ));
    assert!(matches!(
        fault_after(|s| s.broker_resources.memory_limit = Some("1Ki".into())),
        SpecError::MemoryLimit
    ));
    assert!(matches!(
        fault_after(|s| s.rollout.timeout_seconds = 0),
        SpecError::RolloutTimeout
    ));
    assert!(matches!(
        fault_after(|s| s.rollout.rollback_to_image = Some(String::new())),
        SpecError::RollbackImage
    ));
}

#[test]
fn disabling_kodo_also_disables_a_stale_cleanup_request() {
    let mut compatibility = KodoCompatibility {
        cleanup_enabled: true,
        ..KodoCompatibility::default()
    };
    assert!(!compatibility.effective_cleanup_enabled());
    compatibility.enabled = true;
    assert!(!compatibility.effective_cleanup_enabled());
}

#[test]
fn empty_kodo_selector_falls_back_to_the_fail_closed_default() {
    let mut compatibility = KodoCompatibility::default();
    compatibility.allowed_pod_selector.clear();
    assert_eq!(
        compatibility.effective_allowed_pod_selector().entries,
        vec![("app.kubernetes.io/name".to_owned(), "kodo".to_owned())]
    );
    assert_eq!(
        default_kodo_allowed_pod_selector().entries,
        compatibility.effective_allowed_pod_selector().entries
    );
}

#[test]
fn defaults_are_those_of_a_small_cluster() {
    assert_eq!(default_kodo_cutover_grace(), 630);
    assert_eq!(
        default_rollout_timeout(),
        RolloutPolicy::default().timeout_seconds
    );
    assert_eq!(
        default_topology_key(),
        BrokerScheduling::default().topology_key
    );
    assert_eq!(
        default_broker_cpu_request(),
        WorkloadResources::default().cpu_request
    );
    assert_eq!(
        default_broker_memory_request(),
        WorkloadResources::default().memory_request
    );
}

// Operations.

#[test]
fn fixed_three_broker_profile_reports_insufficient_eligible_nodes() {
    assert!(insufficient_eligible_nodes(2, 3, 3));
    assert!(!insufficient_eligible_nodes(3, 3, 3));
    assert!(insufficient_eligible_nodes(0, 0, 1));
}

#[test]
fn terminal_and_human_gated_rollouts_never_time_out() {
    for phase in [
        "Completed",
        "Failed",
        "Blocked",
        "Paused",
        "AwaitingCanaryApproval",
    ] {
        assert!(!rollout_phase_can_timeout(phase), "{phase}");
    }
    for phase in ["Draining", "Replacing", "WaitingForReady"] {
        assert!(rollout_phase_can_timeout(phase), "{phase}");
    }
}

#[test]
fn operations_follow_nodes_maintenance_and_size() {
    let mut queue = cluster();
    assert!(matches!(
        reconcile(&queue, 0, 3, 3, "r", true),
        OperationStep::InsufficientNodes
    ));
    assert!(matches!(
        reconcile(&queue, 3, 3, 3, "r", true),
        OperationStep::Roll
    ));
    assert!(matches!(
        reconcile(&queue, 3, 2, 3, "r", true),
        OperationStep::ScaleDown
    ));
    assert!(matches!(
        reconcile(&queue, 5, 5, 3, "r", true),
        OperationStep::Report(_)
    ));
    queue.spec.maintenance = Some(BrokerMaintenance {
        broker: "queue-1".into(),
        enabled: true,
    });
    assert!(matches!(
        reconcile(&queue, 3, 3, 3, "r", true),
        OperationStep::Maintain
    ));
    assert_eq!(finished_maintenance(&queue, 3, 3), None);
    assert!(insufficient_report(1, 3, 3, &Vec::new())
        .message
        .contains('1'));
    assert!(!waiting_for_kodo_cutover().phase.is_empty());
    assert_ne!(held_report(true).phase, held_report(false).phase);
}

#[test]
fn reports_carry_the_operation() {
    let progress = || Progress {
        target: Some("queue-1".into()),
        phase: "Draining".into(),
        message: "draining".into(),
    };
    let request = BrokerMaintenance {
        broker: "queue-1".into(),
        enabled: true,
    };
    let report = reconcile_maintenance(&request, progress(), "r");
    assert!(report.operation.unwrap().target.contains("queue-1"));
    let report = reconcile_scale_down("queue", progress(), 3, 2, "r");
    assert!(report.operation.is_some());
    let queue = cluster();
    let id = rollout_id(&queue, "r", "rustqueue:test");
    let report = reconcile_rollout(
        &queue,
        id.clone(),
        progress(),
        Some("rustqueue:v1".into()),
        "r",
        "rustqueue:test",
    );
    let operation = report.operation.unwrap();
    assert_eq!(operation.id, id);
    assert_eq!(operation.previous_image, Some("rustqueue:v1".to_owned()));
    assert_eq!(rollout_clock(&queue, &id), None);
    assert!(failed_rollout(&queue, &id, None).is_none());
    assert_eq!(
        rollout_previous_image(&queue, &id, Some("seen".into())),
        Some("seen".to_owned())
    );
}

fn operation(id: &str, phase: &str) -> OperationStatus {
    OperationStatus {
        id: id.into(),
        kind: "Rollout".into(),
        phase: phase.into(),
        target: "queue:v2".into(),
        revision: "r2".into(),
        message: "running".into(),
        started_at: "2000-01-01T00:00:00Z".into(),
        updated_at: "2000-01-01T00:00:00Z".into(),
        completed_at: None,
        previous_image: Some("queue:v1".into()),
        current_broker: None,
    }
}

#[test]
fn rollouts_that_take_too_long_fail_and_stay_failed() {
    let mut queue = cluster();
    let id = rollout_id(&queue, "r2", "queue:v2");
    queue.status = Some(status_with(Vec::new()));
    queue.status.as_mut().unwrap().current_operation = Some(operation(&id, "Draining"));
    assert_eq!(
        rollout_clock(&queue, &id),
        Some("2000-01-01T00:00:00Z".to_owned())
    );
    let limit = queue.spec.rollout.timeout_seconds;
    assert!(failed_rollout(&queue, &id, Some(limit - 1)).is_none());
    assert_eq!(
        failed_rollout(&queue, &id, Some(limit)).unwrap().phase,
        "Failed"
    );
    assert!(failed_rollout(&queue, &id, None).is_none());
    assert_eq!(overdue_rollout(&queue, &id).unwrap().phase, "Failed");
    let start: i64 = 946_684_800;
    let late = start + limit as i64;
    assert!(overdue_rollout_at(&queue, &id, (late - 1, 999_999_999)).is_none());
    assert_eq!(
        overdue_rollout_at(&queue, &id, (late, 0)).unwrap().phase,
        "Failed"
    );
    queue
        .status
        .as_mut()
        .unwrap()
        .current_operation
        .as_mut()
        .unwrap()
        .started_at = "2999-01-01T00:00:00Z".into();
    assert!(overdue_rollout(&queue, &id).is_none());
    queue
        .status
        .as_mut()
        .unwrap()
        .current_operation
        .as_mut()
        .unwrap()
        .started_at = "yesterday".into();
    assert!(overdue_rollout(&queue, &id).is_none());
    queue.status.as_mut().unwrap().current_operation = Some(operation(&id, "Failed"));
    assert_eq!(failed_rollout(&queue, &id, None).unwrap().phase, "Failed");
    queue.status.as_mut().unwrap().current_operation = Some(operation(&id, "Paused"));
    assert!(failed_rollout(&queue, &id, Some(u64::MAX)).is_none());
    assert_eq!(
        rollout_previous_image(&queue, &id, Some("seen".into())),
        Some("queue:v1".to_owned())
    );
}

#[test]
fn times_apart_are_counted_in_whole_seconds() {
    assert_eq!(seconds_since((10, 0), (20, 0)), Some(10));
    assert_eq!(seconds_since((10, 1), (20, 0)), Some(9));
    assert_eq!(seconds_since((10, 0), (10, 0)), Some(0));
    assert_eq!(seconds_since((10, 1), (10, 0)), None);
    assert_eq!(seconds_since((11, 0), (10, 999_999_999)), None);
    assert_eq!(seconds_since((-5, 0), (5, 0)), Some(10));
    assert_eq!(
        elapsed_seconds_at("1970-01-01T01:00:10+01:00", (70, 0)),
        Some(60)
    );
    assert_eq!(elapsed_seconds_at("yesterday", (70, 0)), None);
    assert!(elapsed_seconds("2020-01-01T00:00:00Z").unwrap() > 86_400);
    assert_eq!(elapsed_seconds("2990-01-01T00:00:00Z"), None);

    let leap = chrono::DateTime::parse_from_rfc3339("2016-12-31T12:59:60.25Z").unwrap();
    for later in [
        "2016-12-31T12:59:59Z",
        "2016-12-31T13:00:00Z",
        "2016-12-31T13:00:00.5Z",
        "2017-01-01T12:00:00Z",
        "2017-01-01T13:00:01Z",
    ] {
        let now = chrono::DateTime::parse_from_rfc3339(later).unwrap();
        let expected = now
            .signed_duration_since(leap)
            .to_std()
            .ok()
            .map(|passed| passed.as_secs());
        assert_eq!(
            elapsed_seconds_at(
                "2016-12-31T12:59:60.25Z",
                (now.timestamp(), now.timestamp_subsec_nanos())
            ),
            expected
        );
    }
}

// Checks before a rollout.

fn binary(maximum: u32) -> BinaryCapabilities {
    BinaryCapabilities {
        binary_version: "0.8.0".into(),
        data_format: 7,
        minimum_reader_feature_level: 1,
        maximum_reader_feature_level: maximum,
        maximum_writer_feature_level: maximum,
        maximum_message_bytes: 100 * 1024 * 1024,
        maximum_batch_bytes: 128 * 1024 * 1024,
    }
}

#[test]
fn target_image_must_support_the_requested_feature() {
    assert!(validate_binary(&binary(2), 2, 100 * 1024 * 1024, 128 * 1024 * 1024).is_ok());
    assert!(validate_binary(&binary(1), 2, 20 * 1024 * 1024, 64 * 1024 * 1024).is_err());
}

#[test]
fn target_image_must_support_the_requested_protocol_limits() {
    let legacy: BinaryCapabilities = ReportedCapabilities {
        binary_version: "0.8.0".into(),
        data_format: 7,
        minimum_reader_feature_level: 1,
        maximum_reader_feature_level: 2,
        maximum_writer_feature_level: 2,
        maximum_message_bytes: None,
        maximum_batch_bytes: None,
    }
    .capabilities();
    assert_eq!(legacy.maximum_message_bytes, legacy_maximum_message_bytes());
    assert_eq!(legacy.maximum_batch_bytes, legacy_maximum_batch_bytes());
    assert_eq!(legacy_maximum_message_bytes(), 32 * 1024 * 1024);
    assert_eq!(legacy_maximum_batch_bytes(), 64 * 1024 * 1024);
    assert!(validate_binary(&legacy, 2, 100 * 1024 * 1024, 128 * 1024 * 1024).is_err());
    let mut other = binary(2);
    other.data_format = 6;
    assert!(validate_binary(&other, 1, 1, 1).is_err());
    let told = ReportedCapabilities {
        binary_version: "0.8.0".into(),
        data_format: 7,
        minimum_reader_feature_level: 1,
        maximum_reader_feature_level: 2,
        maximum_writer_feature_level: 2,
        maximum_message_bytes: Some(100 * 1024 * 1024),
        maximum_batch_bytes: Some(128 * 1024 * 1024),
    }
    .capabilities();
    assert!(validate_binary(&told, 2, 100 * 1024 * 1024, 128 * 1024 * 1024).is_ok());
}

#[test]
fn broker_preflight_recovers_the_live_feature_floor() {
    let report = CompatibilityReport {
        binary: binary(2),
        storage: CompatibilityState {
            data_format: 7,
            active_writer_feature_level: 2,
            minimum_reader_feature_level: 2,
        },
    };
    assert!(validate_report(&report, 1, 20 * 1024 * 1024, 64 * 1024 * 1024).is_ok());
    assert_eq!(report.storage.active_writer_feature_level, 2);
}

#[test]
fn running_brokers_are_judged_together() {
    let report = |level: u32| BrokerAnswer::Report(CompatibilityReport {
        binary: binary(2),
        storage: CompatibilityState {
            data_format: 7,
            active_writer_feature_level: level,
            minimum_reader_feature_level: level,
        },
    });
    let check = |name: &str, answer: BrokerAnswer| BrokerCheck {
        name: name.into(),
        answer,
    };
    let queue = cluster();
    assert!(matches!(
        judge_brokers(&queue, &Vec::new()),
        Outcome::Pending(m) if m == "waiting for broker Pods"
    ));
    assert!(matches!(
        judge_brokers(
            &queue,
            &vec![check("queue-0", report(1)), check("queue-1", report(2))]
        ),
        Outcome::Ready {
            active_feature_level: 2
        }
    ));
    assert!(matches!(
        judge_brokers(&queue, &vec![check("queue-1", BrokerAnswer::NoAddress)]),
        Outcome::Pending(m) if m == "broker capability preflight is waiting for queue-1"
    ));
    assert!(matches!(
        judge_brokers(&queue, &vec![check("queue-1", BrokerAnswer::Failed("refused".into()))]),
        Outcome::Pending(m) if m.contains("refused")
    ));
    let mut old = binary(2);
    old.data_format = 6;
    let outdated = BrokerAnswer::Report(CompatibilityReport {
        binary: old,
        storage: CompatibilityState {
            data_format: 7,
            active_writer_feature_level: 1,
            minimum_reader_feature_level: 1,
        },
    });
    assert!(matches!(
        judge_brokers(&queue, &vec![check("queue-1", outdated)]),
        Outcome::Blocked(m) if m.starts_with("broker queue-1: ")
    ));
    assert!(matches!(
        judge_capabilities(&queue, &binary(2)),
        Outcome::Ready { .. }
    ));
    assert!(matches!(
        judge_capabilities(&kodo_cluster(), &binary(1)),
        Outcome::Blocked(_)
    ));
    assert!(required_batch_bytes(&kodo_cluster()) >= 128 * 1024 * 1024);
}

#[test]
fn probe_names_are_dns_bounded() {
    assert!(probe_name(&"q".repeat(80), "registry/rustqueue:v7").len() <= 63);
    let fingerprint = probe_fingerprint("registry/rustqueue:v7");
    assert_eq!(
        probe_name("queue", "registry/rustqueue:v7"),
        probe_name_of("queue", &fingerprint)
    );
    assert_ne!(
        probe_fingerprint("registry/rustqueue:v7"),
        probe_fingerprint("registry/rustqueue:v8")
    );
    assert_ne!(
        probe_contract(&cluster(), "a"),
        probe_contract(&cluster(), "b")
    );
    assert!(names_probes("queue"));
    assert!(names_probes(&"q".repeat(80)));
    assert!(names_probes(&"\u{e9}".repeat(10)));
    assert!(names_probes(&"\u{e9}".repeat(40)));
    assert!(!names_probes(&format!("q{}", "\u{e9}".repeat(10))));
}

fn owner(uid: &str) -> OwnerRef {
    OwnerRef {
        uid: uid.into(),
        controller: true,
    }
}

#[test]
fn probe_cleanup_requires_the_cluster_owner() {
    let mut pod = bare_pod("queue-preflight-old");
    pod.owners.push(owner("queue-uid"));
    assert!(controlled_by(&pod.owners, &Some("queue-uid".into())));
    assert!(!controlled_by(&pod.owners, &Some("other-uid".into())));
    assert!(is_stale_probe(
        &pod,
        "queue-preflight-new",
        &Some("queue-uid".into())
    ));
    assert!(!is_stale_probe(
        &pod,
        "queue-preflight-old",
        &Some("queue-uid".into())
    ));
    assert!(!is_stale_probe(
        &pod,
        "queue-preflight-new",
        &Some("other-uid".into())
    ));
}

#[test]
fn optional_resource_cleanup_requires_the_cluster_owner() {
    let owners = vec![owner("queue-uid")];
    assert!(controlled_by(&owners, &Some("queue-uid".into())));
    assert!(!controlled_by(&owners, &Some("other-uid".into())));
    assert!(!controlled_by(&owners, &None));
    let uncontrolled = vec![OwnerRef {
        uid: "queue-uid".into(),
        controller: false,
    }];
    assert!(!controlled_by(&uncontrolled, &Some("queue-uid".into())));
}

fn finished_probe(image: &str, digest: &str) -> Pod {
    let mut pod = bare_pod("queue-preflight-current");
    pod.annotations
        .insert("rustqueue.io/preflight-contract", "deadbeef");
    pod.containers.push(Container {
        name: "probe".into(),
        image: Some(image.into()),
        image_pull_policy: Some("IfNotPresent".into()),
        command: vec!["rustqueued".into()],
        args: vec![
            "--capabilities-output".into(),
            "/dev/termination-log".into(),
        ],
        env: Vec::new(),
    });
    pod.container_statuses.push(ContainerStatus {
        image_id: format!("docker-pullable://registry/rustqueue@sha256:{digest}"),
        waiting: None,
        terminated_message: None,
    });
    pod
}

#[test]
fn cached_probe_must_match_its_contract_and_have_an_image_identity() {
    let digest = "a".repeat(64);
    let image = format!("registry/rustqueue@sha256:{digest}");
    let pod = finished_probe(&image, &digest);
    assert!(probe_matches(&pod, &image, "IfNotPresent", "deadbeef"));
    assert!(validate_probe_image(&pod).is_ok());
    assert!(!probe_matches(&pod, &image, "IfNotPresent", "stale"));
    assert!(!probe_matches(&pod, &image, "Always", "deadbeef"));
    let mut unknown = finished_probe(&image, &digest);
    unknown.container_statuses[0].image_id = " ".into();
    assert_eq!(
        validate_probe_image(&unknown),
        Err("target image probe has an empty container image identity".to_owned())
    );
    unknown.container_statuses.clear();
    assert_eq!(
        validate_probe_image(&unknown),
        Err("target image probe has no container image identity".to_owned())
    );
}

#[test]
fn probes_are_created_awaited_and_read() {
    let mut queue = cluster();
    let digest = "a".repeat(64);
    let image = format!("registry/rustqueue@sha256:{digest}");
    queue.spec.image_pull_policy = "IfNotPresent".into();
    let step = |pod: Option<&Pod>| probe_step(&queue, &image, "probe", "deadbeef", pod);
    assert!(matches!(step(None), ProbeStep::Create(_)));
    let foreign = finished_probe(&image, &digest);
    assert!(matches!(step(Some(&foreign)), ProbeStep::Report(_)));

    let mut done = finished_probe(&image, &digest);
    done.owners.push(owner("queue-uid"));
    done.phase = Some("Succeeded".into());
    assert!(matches!(step(Some(&done)), ProbeStep::Silent));
    done.container_statuses[0].terminated_message = Some("{}".into());
    assert_eq!(terminated_message(&done), Some("{}".to_owned()));
    assert!(matches!(step(Some(&done)), ProbeStep::Read(text) if text == "{}"));

    let mut stuck = finished_probe(&image, &digest);
    stuck.owners.push(owner("queue-uid"));
    stuck.container_statuses[0].waiting = Some(Waiting {
        reason: Some("ImagePullBackOff".into()),
        message: Some("no such image".into()),
    });
    assert_eq!(
        waiting_failure(&stuck),
        Some("ImagePullBackOff".to_owned())
    );
    assert!(matches!(
        step(Some(&stuck)),
        ProbeStep::Report(Outcome::Blocked(_)) | ProbeStep::Delete(Outcome::Blocked(_))
    ));
    let document = probe_pod(
        &queue,
        "test",
        &image,
        "probe",
        "deadbeef",
        serde_json::Value::Null,
    );
    assert_eq!(document["metadata"]["name"], "probe");
    assert_eq!(
        document["metadata"]["annotations"]["rustqueue.io/preflight-contract"],
        "deadbeef"
    );
}

// Status.

#[test]
fn preserves_transition_time_for_an_unchanged_condition() {
    let mut resource = cluster();
    let first = StatusBuilder::new(&resource, 3, 2, 1)
        .condition("Ready", false, "Reconciling", "waiting")
        .build();
    let transition = first.conditions[0].last_transition_time.clone();
    assert!(chrono::DateTime::parse_from_rfc3339(&transition).is_ok());
    resource.status = Some(first);
    let second = StatusBuilder::new_at(&resource, 3, 3, 1, "2000-01-01T00:00:00Z".into())
        .condition("Ready", false, "Reconciling", "new detail")
        .build();
    assert_eq!(second.conditions[0].last_transition_time, transition);
    let third = StatusBuilder::new_at(&resource, 3, 3, 1, "2000-01-01T00:00:00Z".into())
        .condition("Ready", true, "Ready", "ready")
        .build();
    assert_eq!(
        third.conditions[0].last_transition_time,
        "2000-01-01T00:00:00Z"
    );
}

fn update(id: &str) -> OperationUpdate<'_> {
    OperationUpdate {
        id,
        kind: "Rollout",
        phase: "Running",
        target: "queue:v2",
        revision: "r2",
        message: "running",
        previous_image: Some("queue:v1".into()),
        current_broker: Some("queue-2".into()),
    }
}

#[test]
fn moves_replaced_operations_into_bounded_history() {
    let mut resource = cluster();
    let status = StatusBuilder::new(&resource, 3, 3, 1)
        .operation(update("rollout-1"))
        .build();
    assert_eq!(
        status.current_operation.as_ref().unwrap().id,
        "rollout-1"
    );
    resource.status = Some(status);
    for i in 2..40 {
        let id = format!("rollout-{i}");
        let status = StatusBuilder::new(&resource, 3, 3, 1)
            .operation(update(&id))
            .build();
        resource.status = Some(status);
    }
    let status = resource.status.unwrap();
    assert_eq!(status.current_operation.unwrap().id, "rollout-39");
    assert_eq!(status.operation_history.len(), HISTORY_LIMIT);
    assert!(status
        .operation_history
        .iter()
        .any(|operation| operation.id == "rollout-38"));
    assert!(!status
        .operation_history
        .iter()
        .any(|operation| operation.id == "rollout-1"));
}

#[test]
fn terminal_operation_keeps_its_first_completion_time() {
    let mut resource = cluster();
    let update = || OperationUpdate {
        id: "rollout-1",
        kind: "Rollout",
        phase: "Completed",
        target: "queue:v2",
        revision: "r2",
        message: "done",
        previous_image: Some("queue:v1".into()),
        current_broker: None,
    };
    resource.status = Some(
        StatusBuilder::new(&resource, 3, 3, 1)
            .operation(update())
            .build(),
    );
    resource
        .status
        .as_mut()
        .unwrap()
        .current_operation
        .as_mut()
        .unwrap()
        .completed_at = Some("2000-01-01T00:00:00Z".into());
    let first = resource
        .status
        .as_ref()
        .unwrap()
        .current_operation
        .as_ref()
        .unwrap()
        .completed_at
        .clone();
    let second = StatusBuilder::new(&resource, 3, 3, 1)
        .operation(update())
        .build();
    assert_eq!(second.current_operation.unwrap().completed_at, first);
}

#[test]
fn operation_ids_are_checksums() {
    assert_eq!(operation_id_of("Rollout", 0x1234), "Rollout-00001234");
    assert_eq!(
        operation_id("Rollout", "a", "b"),
        operation_id("Rollout", "a", "b")
    );
    assert_ne!(
        operation_id("Rollout", "a", "b"),
        operation_id("Rollout", "a", "c")
    );
}

// Storage.

#[test]
fn compares_binary_and_decimal_quantities() {
    assert_eq!(parse_quantity("1Gi").unwrap(), 1 << 30);
    assert_eq!(parse_quantity("1.5Gi").unwrap(), 3 << 29);
    assert!(parse_quantity("1GiB").is_err());
    for (unit, multiplier) in [
        ("", 1u128),
        ("K", 1_000),
        ("M", 1_000_000),
        ("G", 1_000_000_000),
        ("T", 1_000_000_000_000),
        ("P", 1_000_000_000_000_000),
        ("E", 1_000_000_000_000_000_000),
        ("Ki", 1 << 10),
        ("Mi", 1 << 20),
        ("Gi", 1 << 30),
        ("Ti", 1 << 40),
        ("Pi", 1 << 50),
        ("Ei", 1 << 60),
    ] {
        assert_eq!(unit_multiplier(unit), Some(multiplier));
    }
    assert_eq!(unit_multiplier("m"), None);
}

#[test]
fn identifies_only_this_statefulsets_retained_claims() {
    assert_eq!(claim_ordinal("data-queue-12", "queue"), Some(12));
    assert_eq!(claim_ordinal("data-other-12", "queue"), None);
}

fn claim(name: &str, class: &str, request: &str, capacity: &str) -> MeasuredClaim {
    MeasuredClaim {
        claim: Claim {
            name: name.into(),
            storage_class: Some(class.into()),
            request: Some(request.into()),
            capacity: Some(capacity.into()),
        },
        requested: parse_quantity(request).ok(),
        capacity: parse_quantity(capacity).ok(),
    }
}

fn demand(size_text: &str) -> StorageDemand<'_> {
    StorageDemand {
        cluster: "queue",
        storage_class: "ssd",
        size_text,
        size: parse_quantity(size_text).unwrap(),
        replicas: 2,
        expansion_supported: true,
    }
}

#[test]
fn claims_grow_and_are_never_shrunk() {
    let plan = storage::reconcile(
        &demand("10Gi"),
        &vec![
            claim("data-queue-0", "ssd", "10Gi", "10Gi"),
            claim("data-queue-5", "ssd", "10Gi", "10Gi"),
        ],
    );
    let report = plan.report.unwrap();
    assert!(matches!(report.state, StorageState::Ready));
    assert_eq!(report.orphaned_pvcs, vec!["data-queue-5".to_owned()]);
    assert!(plan.expand.is_empty());

    let plan = storage::reconcile(
        &demand("20Gi"),
        &vec![claim("data-queue-0", "ssd", "10Gi", "10Gi")],
    );
    assert_eq!(plan.expand, vec!["data-queue-0".to_owned()]);
    assert!(matches!(
        plan.report.unwrap().state,
        StorageState::Resizing
    ));

    let plan = storage::reconcile(
        &demand("5Gi"),
        &vec![claim("data-queue-0", "ssd", "10Gi", "10Gi")],
    );
    assert!(matches!(plan.report.unwrap().state, StorageState::Blocked));

    let plan = storage::reconcile(
        &demand("10Gi"),
        &vec![claim("data-queue-0", "hdd", "10Gi", "10Gi")],
    );
    let report = plan.report.unwrap();
    assert!(matches!(report.state, StorageState::Blocked));
    assert!(report.message.contains("hdd"));

    let plan = storage::reconcile(
        &demand("10Gi"),
        &vec![claim("data-queue-0", "ssd", "many", "10Gi")],
    );
    assert!(matches!(plan.report, Err(0)));

    let mut fixed = demand("20Gi");
    fixed.expansion_supported = false;
    let plan = storage::reconcile(
        &fixed,
        &vec![claim("data-queue-0", "ssd", "10Gi", "10Gi")],
    );
    assert!(plan.expand.is_empty());
    assert!(matches!(plan.report.unwrap().state, StorageState::Blocked));
}

#[test]
fn claim_templates_and_classes_are_shown() {
    let mut set = stateful_set();
    set.claim_templates.push(Claim {
        name: "data".into(),
        storage_class: None,
        request: Some("7Gi".into()),
        capacity: None,
    });
    assert_eq!(claim_template_size(Some(&set), "1Gi"), "7Gi");
    assert_eq!(claim_template_size(None, "1Gi"), "1Gi");
    assert!(class_message("data-queue-0", "hdd", "ssd").contains("ssd"));
}

// Secrets.

#[test]
fn auth_roles_require_pairwise_distinct_tokens() {
    assert!(validate_distinct_tokens(&[
        ("admin-token", "admin"),
        ("registry-token", "registry"),
        ("console-token", "console"),
        ("kodo-cleanup-token", "cleanup"),
    ])
    .is_ok());
    let error = validate_distinct_tokens(&[
        ("admin-token", "shared"),
        ("registry-token", "registry"),
        ("console-token", "shared"),
    ])
    .unwrap_err();
    assert!(error
        .message()
        .contains("admin-token and console-token must be distinct"));
}

fn secret(entries: &[(&str, &str)]) -> Vec<(String, Vec<u8>)> {
    entries
        .iter()
        .map(|(k, v)| ((*k).to_owned(), v.as_bytes().to_vec()))
        .collect()
}

#[test]
fn tokens_are_drawn_read_and_completed() {
    let drawn = new_tokens();
    assert!(drawn.len() >= 2);
    for (_, token) in &drawn {
        assert_eq!(token.len(), 48);
        assert!(token.chars().all(|c| c.is_ascii_alphanumeric()));
    }
    assert_ne!(drawn[0].1, drawn[1].1);
    let queue = cluster();
    assert_eq!(secret_name(&queue), "queue-auth");
    assert!(create_or_refuse(&queue).is_ok());
    let mut named = cluster();
    named.spec.registry_secret_name = Some("mine".into());
    assert_eq!(secret_name(&named), "mine");
    assert!(matches!(
        create_or_refuse(&named),
        Err(AuthError::NoSecret(name)) if name == "mine"
    ));

    let data = secret(&[
        ("admin-token", "a"),
        ("registry-token", " b\n"),
        ("console-token", "c"),
    ]);
    let read = read_tokens("queue-auth", Some(&data), Some("7".into())).unwrap();
    assert_eq!(read.admin_token, "a");
    assert_eq!(read.registry_token, "b");
    assert_eq!(read.name, "queue-auth");
    assert!(read.revision.contains('7'));
    assert!(matches!(
        read_tokens("queue-auth", None, None),
        Err(AuthError::NoData)
    ));
    assert!(matches!(
        read_tokens("queue-auth", Some(&secret(&[("admin-token", "a")])), None),
        Err(AuthError::Missing(key)) if key == "registry-token"
    ));
    assert!(matches!(
        read_tokens(
            "queue-auth",
            Some(&secret(&[("admin-token", " "), ("registry-token", "b")])),
            None
        ),
        Err(AuthError::Empty(_))
    ));
    let broken = vec![
        ("admin-token".to_owned(), vec![0xff]),
        ("registry-token".to_owned(), b"b".to_vec()),
    ];
    assert!(matches!(
        read_tokens("queue-auth", Some(&broken), None),
        Err(AuthError::NotText(_))
    ));
    assert!(matches!(
        read_tokens(
            "queue-auth",
            Some(&secret(&[
                ("admin-token", "a"),
                ("registry-token", "b"),
                ("console-token", "a")
            ])),
            None
        ),
        Err(AuthError::Shared(first, second)) if first == "admin-token" && second == "console-token"
    ));
    assert!(token_update(&queue, Some(&data)).is_none());
    let older = secret(&[("admin-token", "a"), ("registry-token", "b")]);
    let drawn = token_update(&queue, Some(&older)).unwrap();
    assert_eq!(drawn.console_token.unwrap().len(), 48);
    let observed = secret(&[("console-token", "c"), ("observer-token", "o")]);
    assert_eq!(
        token_update(&queue, Some(&observed)).unwrap().console_token,
        None
    );
    assert!(token_update(&named, Some(&older)).is_none());
}

#[test]
fn certificates_for_clients_are_complete() {
    let data = secret(&[("tls.crt", "c"), ("tls.key", "k")]);
    assert_eq!(
        tls_revision("auth", Some(&data), Some("9".into())).ok(),
        Some("auth:9".to_owned())
    );
    assert!(matches!(
        tls_revision("auth", None, None),
        Err(TlsError::NoData)
    ));
    assert!(matches!(
        tls_revision("auth", Some(&secret(&[("tls.key", "k")])), None),
        Err(TlsError::NoCertificate)
    ));
    assert!(matches!(
        tls_revision("auth", Some(&secret(&[("tls.crt", "c"), ("tls.key", "")])), None),
        Err(TlsError::NoKey)
    ));
    assert_eq!(
        tls_message(TlsError::NoKey, "tls"),
        "client TLS Secret tls is missing tls.key"
    );
}

// Leadership and health.

const SECOND: u128 = 1_000_000_000;

fn lease() -> Lease {
    desired_lease("queue", "operator-1", "2000-01-01T00:00:00.000000Z")
}

#[test]
fn takeover_uses_local_monotonic_observation_time() {
    let mut lease = lease();
    lease.resource_version = Some("7".into());
    let start = 1_000 * SECOND;
    let mut observer = LeaseObserver::default();
    assert!(!observer.takeover_ready(&lease, start));
    assert!(!observer.takeover_ready(&lease, start + 19 * SECOND));
    assert!(observer.takeover_ready(&lease, start + 20 * SECOND));

    lease.resource_version = Some("8".into());
    assert!(!observer.takeover_ready(&lease, start + 21 * SECOND));
}

#[test]
fn desired_lease_uses_standard_holder_duration_and_timestamps() {
    let lease = lease();
    assert_eq!(lease.namespace, "queue");
    assert_eq!(lease.holder.as_deref(), Some("operator-1"));
    assert_eq!(lease.duration_seconds, Some(20));
    assert_eq!(lease.transitions, Some(0));
    assert!(lease.acquire_time.is_some());
    assert!(lease.renew_time.is_some());
}

#[test]
fn leases_are_created_renewed_and_taken_over() {
    let mut observer = LeaseObserver::default();
    assert!(matches!(
        acquire_or_renew(&mut observer, None, "operator-2", 0),
        LeaseStep::Create
    ));
    let held = lease();
    assert!(matches!(
        acquire_or_renew(&mut observer, Some(&held), "operator-1", 0),
        LeaseStep::Replace { renewing: true }
    ));
    assert!(matches!(
        acquire_or_renew(&mut observer, Some(&held), "operator-2", 0),
        LeaseStep::Wait
    ));
    assert!(matches!(
        acquire_or_renew(&mut observer, Some(&held), "operator-2", 20 * SECOND),
        LeaseStep::Replace { renewing: false }
    ));
    let taken = renew(held, "operator-2", false, "2000-01-01T00:00:20.000000Z");
    assert_eq!(taken.holder.as_deref(), Some("operator-2"));
    assert_eq!(taken.transitions, Some(1));
    assert_eq!(
        taken.acquire_time.as_deref(),
        Some("2000-01-01T00:00:20.000000Z")
    );
    let renewed = renew(taken, "operator-2", true, "2000-01-01T00:00:25.000000Z");
    assert_eq!(renewed.transitions, Some(1));
    assert_eq!(
        renewed.acquire_time.as_deref(),
        Some("2000-01-01T00:00:20.000000Z")
    );
    assert_eq!(
        renewed.renew_time.as_deref(),
        Some("2000-01-01T00:00:25.000000Z")
    );
}

#[test]
fn health_counts_reconciliations() {
    let mut health = HealthState::default();
    assert_eq!(health.readiness().0, 503);
    health.record_success_at(77);
    health.record_error();
    assert_eq!(health.readiness().0, 200);
    assert_eq!((health.reconciles, health.errors), (1, 1));
    assert_eq!(health.last_success_unix, 77);
    assert!(health.metrics().contains("77"));
    health.record_success();
    assert!(health.last_success_unix > 77);
}

// The order of the steps.

#[test]
fn resources_are_applied_after_every_check() {
    let ready = Outcome::Ready {
        active_feature_level: 1,
    };
    let blocked = Outcome::Blocked("no".into());
    let mut findings = plan::Findings {
        decommission_blocked: true,
        current_brokers: 3,
        target_image: None,
        brokers: None,
        storage: None,
    };
    assert!(matches!(
        plan::next_step(&findings),
        plan::Step::RetainGateways
    ));
    findings.decommission_blocked = false;
    assert!(matches!(
        plan::next_step(&findings),
        plan::Step::CheckTargetImage
    ));
    findings.target_image = Some(&blocked);
    assert!(matches!(
        plan::next_step(&findings),
        plan::Step::ReportTargetImage { .. }
    ));
    findings.target_image = Some(&ready);
    assert!(matches!(
        plan::next_step(&findings),
        plan::Step::CheckBrokers
    ));
    findings.brokers = Some(&blocked);
    assert!(matches!(
        plan::next_step(&findings),
        plan::Step::ReportBrokers
    ));
    findings.brokers = Some(&ready);
    assert!(matches!(
        plan::next_step(&findings),
        plan::Step::CheckStorage
    ));
    findings.storage = Some(StorageState::Blocked);
    assert!(matches!(
        plan::next_step(&findings),
        plan::Step::ReportStorage { .. }
    ));
    findings.storage = Some(StorageState::Ready);
    assert!(matches!(plan::next_step(&findings), plan::Step::Apply));
    assert_eq!(plan::applied_replicas(3, 5), 5);
    assert_eq!(plan::applied_replicas(5, 3), 5);
    assert_eq!(plan::reported_ready(7, 3), 3);
    assert_eq!(
        plan::watch_namespace(Some("a".into()), Some("b".into())),
        "a"
    );
    assert_eq!(plan::watch_namespace(None, Some(" b\n".into())), "b");
    assert_eq!(plan::watch_namespace(None, None), "default");
}

#[test]
fn resources_are_built_from_what_was_decided() {
    let mut queue = cluster();
    let staged = plan::staged_input(&queue, 3, true, "image", "1Gi", "auth", "r1");
    assert!(staged.retain_existing_kodo_resources);
    assert_eq!(staged.discovery_service_kodo, Some(false));
    assert_eq!(staged.kodo_gateway_replicas, 0);
    let recovery = KodoRuntimeRecovery {
        gateway_replicas: 3,
        advertise_gateways: true,
        discovery_service_kodo: true,
        retain_gateways: false,
    };
    let kept = plan::recovery_input(staged, &recovery, false);
    assert_eq!(kept.kodo_gateway_replicas, 3);
    assert_eq!(kept.discovery_service_kodo, Some(true));
    assert!(kept.advertise_kodo_gateways);
    assert!(!kept.retain_existing_kodo_resources);
    assert_eq!((kept.replicas, kept.image), (3, "image"));
    assert!(plan::Step::RetainGateways.recovers());
    assert!(plan::Step::ReportBrokers.recovers());
    assert!(!plan::Step::ReportStorage { recover: false }.recovers());
    assert!(!plan::Step::Apply.recovers());
    let storage = plan::Step::ReportStorage { recover: true };
    assert_eq!(storage.reported_level(1, 2), 2);
    assert_eq!(plan::Step::ReportBrokers.reported_level(1, 2), 1);
    assert_eq!(effective_image(&queue.spec), "rustqueue:test");
    queue.spec.rollout.rollback_to_image = Some("rustqueue:old".into());
    assert_eq!(effective_image(&queue.spec), "rustqueue:old");
}

#[test]
fn statuses_report_why_nothing_moves() {
    let queue = cluster();
    let builder = || StatusBuilder::new_at(&queue, 3, 2, 1, "2000-01-01T00:00:00Z".into());
    let blocked = plan::decommission_blocked_status(builder());
    assert_eq!(blocked.phase, "KodoDecommissionBlocked");
    let error = plan::reconcile_error_status(builder(), "it broke");
    assert!(error.message.contains("it broke"));
    assert!(error
        .conditions
        .iter()
        .any(|c| c.type_ == "Ready" && c.status == "False"));
    let pending = plan::preflight_status(
        builder(),
        "rustqueue:test",
        &Outcome::Pending("waiting".into()),
    )
    .unwrap();
    assert!(pending.message.contains("waiting"));
    assert!(plan::preflight_status(
        builder(),
        "rustqueue:test",
        &Outcome::Ready {
            active_feature_level: 1
        }
    )
    .is_none());
    assert_eq!(plan::counts_after_error(&queue), (queue.spec.min_brokers, 0));
}
