use rustqueue::operator::broker_config::{
    checked_config, pod_fqdn, render, render_text, ConfigError, ConfigInput,
};
use rustqueue::operator::cluster::{
    CellPolicy, CellStatus, ClusterCondition, DevelopmentPolicy, NodePolicy, QueuePolicy,
    ReplicationPolicy, RustQueueCluster, RustQueueClusterSpec, RustQueueClusterStatus,
    SecurityPolicy, StoragePolicy, UpgradePolicy, UpgradeStatus,
};
use rustqueue::operator::controller::reconcile::{
    broker_task, ensure_brokers, failure_domains, obstacle_status, recorded_upgrade,
    requeue_seconds, rollout_step, second_cluster_message, singleton_owner, status_patch_value,
    status_same, visible_brokers_placed, workload_changed, BrokerTask, ClusterKey, DesiredBrokers,
    Obstacle, WorkloadTemplate,
};
use rustqueue::operator::controller::reconcile_state::{
    allocated_capacity, blocked_status, blocked_status_at, build_status, build_status_at,
    current_placements, pod_states, waiting_upgrade, BrokerSet,
};
use rustqueue::operator::controller::rollout::{
    deadline_expired, decide, decide_at, info_url, maintenance_lease, maintenance_url, pod_dns,
    release_status, Decision,
};
use rustqueue::operator::controller::security::{
    ca_common_name, ca_secret_name, ca_valid, current_leaf, ensure_ca, ensure_ca_at, ensure_leaf,
    ensure_leaf_at, ensure_shared, existing_ca, leaf_dns_names, renewal_time, secret_string,
    shared_current, shared_secret_name, shared_token, Secret, SecretDraft, SecurityError,
    SecurityState,
};
use rustqueue::operator::crd::{
    BrokerScheduling, KodoCompatibility, ObjectMeta, RolloutPolicy, RustQueue, RustQueueSpec,
    WorkloadResources,
};
use rustqueue::operator::kube::{Container, OwnerRef, Pod, PodCondition};
use rustqueue::operator::layout;
use rustqueue::operator::layout::plan;
use rustqueue::operator::pki::{
    add_days, authority_request, generate_ca, generate_ca_at, hex_token, issue_leaf,
    issue_leaf_at, judge_authority, leaf_request, load_ca, random_hex, revision, signed_with,
    AuthorityUsage, LeafPurpose, LeafUsage, PkiError,
};
use rustqueue::operator::placement::{assign, BrokerPlacement, EligibleNode};
use rustqueue::operator::resources::{
    broker_revision, build, is_obsolete, kodo_names, labels_for, pod_node_selector, BuildError,
    BuildInput, ResourceSet, DISCOVERY_MODE_LABEL,
};
use rustqueue::operator::status::{condition, flag, now, stamped_condition, unix_now};
use rustqueue::operator::upgrade::{
    complete, next_candidate, pod_matches, PodRolloutState, RolloutTarget,
};
use rustqueue::string_map::StringMap;
use serde_json::Value;
use std::collections::BTreeMap;

// Cells.

#[test]
fn incomplete_cells_remain_spare_until_quorum_exists() {
    let policy = CellPolicy::default();
    let layout = plan("queue", 11, &policy);
    assert_eq!(layout.cells.len(), 1);
    assert_eq!(layout.active_replicas(), 9);
    assert_eq!(layout.pending_nodes, 2);

    let layout = plan("queue", 12, &policy);
    assert_eq!(
        layout
            .cells
            .iter()
            .map(|cell| cell.brokers.len())
            .collect::<Vec<_>>(),
        vec![9, 3]
    );
    assert_eq!(layout.pending_nodes, 0);
}

#[test]
fn identities_are_stable_and_globally_unique() {
    let layout = plan("queue", 18, &CellPolicy::default());
    let ids = layout
        .brokers()
        .iter()
        .map(|broker| broker.node_id)
        .collect::<Vec<_>>();
    assert_eq!(ids, (1..=18).collect::<Vec<_>>());
    assert_eq!(layout.broker(10).unwrap().cell_id, 2);
    assert_eq!(layout.broker(10).unwrap().pod_name, "queue-c2-n1-0");
    assert!(layout.broker(19).is_none());
}

// Places.

fn node(name: &str, failure_domain: &str) -> EligibleNode {
    EligibleNode {
        name: name.into(),
        failure_domain: failure_domain.into(),
    }
}

#[test]
fn keeps_healthy_assignments_and_spreads_new_brokers() {
    let layout = layout::plan("queue", 3, &CellPolicy::default());
    let nodes = vec![node("a", "z1"), node("b", "z2"), node("c", "z1")];
    let placements = assign(&layout, &nodes, &BTreeMap::from([(1, "b".into())]), false);
    assert_eq!(placements[&1].node_name, "b");
    assert_eq!(placements.len(), 3);
    assert_ne!(placements[&1].node_name, placements[&2].node_name);
}

#[test]
fn development_mode_can_place_a_quorum_on_one_node() {
    let layout = layout::plan("queue", 3, &CellPolicy::default());
    let nodes = vec![node("orbstack", "local")];
    let placements = assign(&layout, &nodes, &BTreeMap::new(), true);
    assert_eq!(placements.len(), 3);
    assert!(placements
        .values()
        .all(|value| value.node_name == "orbstack"));
    assert_eq!(placements[&3].failure_domain, "virtual-node-3");
}

#[test]
fn without_nodes_nothing_is_placed_and_nodes_are_not_shared() {
    let layout = layout::plan("queue", 3, &CellPolicy::default());
    assert!(assign(&layout, &[], &BTreeMap::new(), true).is_empty());
    let nodes = vec![node("a", "z1"), node("b", "z2")];
    let placements = assign(&layout, &nodes, &BTreeMap::new(), false);
    assert_eq!(placements.len(), 2);
}

// Rollouts of cells.

fn state(node_id: u64, cell_id: u64, image: &str, ready: bool) -> PodRolloutState {
    PodRolloutState {
        node_id,
        cell_id,
        pod_name: format!("pod-{node_id}"),
        image: image.into(),
        tls_revision: 1,
        config_revision: 1,
        target_node: format!("node-{node_id}"),
        rollout_revision: 0,
        ready,
    }
}

#[test]
fn rollout_never_takes_a_second_member_from_an_unhealthy_cell() {
    let pods = vec![
        state(1, 1, "new", false),
        state(2, 1, "old", true),
        state(3, 2, "old", true),
    ];
    let revisions = BTreeMap::from([(1, 1), (2, 1), (3, 1)]);
    let target = RolloutTarget {
        image: "new",
        tls_revisions: &revisions,
        config_revisions: &revisions,
        target_nodes: &BTreeMap::from([
            (1, "node-1".into()),
            (2, "node-2".into()),
            (3, "node-3".into()),
        ]),
        rollout_revision: 0,
    };
    assert_eq!(next_candidate(&pods, &target, 1).unwrap().node_id, 3);
    assert!(!complete(&pods, &target));
}

#[test]
fn certificate_revision_alone_triggers_a_rollout() {
    let pods = vec![state(1, 1, "same", true)];
    let revisions = BTreeMap::from([(1, 2)]);
    let target = RolloutTarget {
        image: "same",
        tls_revisions: &revisions,
        config_revisions: &BTreeMap::from([(1, 1)]),
        target_nodes: &BTreeMap::from([(1, "node-1".into())]),
        rollout_revision: 0,
    };
    assert_eq!(next_candidate(&pods, &target, 1).unwrap().node_id, 1);
    assert!(!pod_matches(&pods[0], &target));
}

#[test]
fn an_already_unavailable_broker_can_move_without_consuming_another_budget() {
    let mut moving = state(1, 1, "same", false);
    moving.target_node = "old-node".into();
    let pods = vec![
        moving,
        state(2, 1, "same", true),
        state(3, 1, "same", true),
    ];
    let revisions = BTreeMap::from([(1, 1), (2, 1), (3, 1)]);
    let target_nodes = BTreeMap::from([
        (1, "replacement-node".into()),
        (2, "node-2".into()),
        (3, "node-3".into()),
    ]);
    let target = RolloutTarget {
        image: "same",
        tls_revisions: &revisions,
        config_revisions: &revisions,
        target_nodes: &target_nodes,
        rollout_revision: 0,
    };
    assert_eq!(next_candidate(&pods, &target, 1).unwrap().node_id, 1);
}

// Configuration.

fn cluster_spec() -> RustQueueClusterSpec {
    RustQueueClusterSpec {
        image: "rustqueue:v1".into(),
        cells: CellPolicy::default(),
        replication: ReplicationPolicy {
            metadata: 3,
            partitions: 3,
        },
        storage: StoragePolicy {
            class_name: "ssd".into(),
            disk_high_watermark_percent: 85,
            disk_low_watermark_percent: 75,
            min_free_bytes: 1024,
            protective_eviction_enabled: false,
        },
        queue: QueuePolicy {
            default_partitions: 3,
            max_partitions_per_topic: 64,
            max_message_bytes: 1_048_576,
            max_backlog_messages_per_partition: 1_000,
            message_retention_seconds: 3_600,
            max_delivery_attempts: 10,
            max_body_bytes: 5_242_880,
        },
        upgrade: UpgradePolicy {
            automatic: true,
            max_unavailable_per_cell: 1,
            progress_deadline_seconds: 600,
            retry_generation: 0,
        },
        nodes: NodePolicy {
            replicas: None,
            auto_scale_from_nodes: true,
        },
        development: DevelopmentPolicy {
            allow_single_node: false,
            virtual_replicas: 3,
        },
        security: SecurityPolicy {
            ca_validity_days: 3650,
            certificate_validity_days: 365,
            renew_before_days: 30,
        },
    }
}

fn domains_of(layout: &layout::ClusterLayout) -> BTreeMap<u64, String> {
    layout
        .brokers()
        .iter()
        .map(|broker| (broker.node_id, format!("zone-{}", broker.node_id)))
        .collect()
}

#[test]
fn generated_config_is_cell_scoped_and_uses_pod_identity() {
    let spec = cluster_spec();
    let layout = layout::plan("queue", 12, &spec.cells);
    let domains = domains_of(&layout);
    let input = ConfigInput {
        cluster_name: "queue",
        namespace: "messaging",
        spec: &spec,
        layout: &layout,
        broker: layout.broker(10).unwrap(),
        failure_domains: &domains,
    };
    let config = render(&input).unwrap();
    assert!(config.contains("id = 10"));
    assert!(config.contains("cell_id = 2"));
    assert!(config.contains("[cluster.nodes.1]"));
    assert!(config.contains("[cluster.nodes.10]"));
    assert!(!config.contains("[cluster.nodes.4]"));
    assert!(config.contains("queue-c2-n1-0.queue-cell-2.messaging.svc"));
    assert_eq!(render_text(&input).unwrap(), config);
    assert!(toml::from_str::<toml::Value>(&config).is_ok());
    assert_eq!(
        pod_fqdn(&input, layout.broker(1).unwrap()),
        "queue-c1-n1-0.queue-cell-1.messaging.svc"
    );
}

#[test]
fn configurations_need_enough_brokers() {
    let mut spec = cluster_spec();
    spec.replication.partitions = 9;
    let layout = layout::plan("queue", 12, &spec.cells);
    let domains = domains_of(&layout);
    let error = render(&ConfigInput {
        cluster_name: "queue",
        namespace: "messaging",
        spec: &spec,
        layout: &layout,
        broker: layout.broker(10).unwrap(),
        failure_domains: &domains,
    })
    .unwrap_err();
    assert!(matches!(error, ConfigError::ReplicationUnsatisfied(2)));
    assert!(error.message().contains('2'));
    assert!(matches!(
        checked_config("x".into(), false),
        Err(ConfigError::InvalidToml)
    ));
    assert_eq!(checked_config("x".into(), true).ok(), Some("x".to_owned()));
}

#[test]
fn strings_in_configurations_are_quoted() {
    let spec = cluster_spec();
    let layout = layout::plan("queue", 3, &spec.cells);
    let domains: BTreeMap<u64, String> = layout
        .brokers()
        .iter()
        .map(|broker| (broker.node_id, "a \"b\"\\c\n".to_owned()))
        .collect();
    let config = render(&ConfigInput {
        cluster_name: "queue",
        namespace: "messaging",
        spec: &spec,
        layout: &layout,
        broker: layout.broker(1).unwrap(),
        failure_domains: &domains,
    })
    .unwrap();
    let read = config.parse::<toml::Table>().unwrap();
    let found = format!("{read:?}");
    assert!(found.contains("a \\\"b\\\"\\\\c\\n"));
}

// Certificates.

#[test]
fn generated_ca_can_sign_a_server_and_client_leaf() {
    let ca = generate_ca("test-ca", 3650).unwrap();
    let loaded = load_ca(&ca.certificate_pem, &ca.private_key_pem).unwrap();
    assert_eq!(loaded.revision, ca.revision);

    let leaf = issue_leaf(
        &loaded,
        "queue-c1-n1-0",
        &vec!["queue-c1-n1-0.queue-cell-1.test.svc".into()],
        365,
    )
    .unwrap();
    let (_, pem) = x509_parser::pem::parse_x509_pem(leaf.certificate_pem.as_bytes()).unwrap();
    let certificate = pem.parse_x509().unwrap();
    assert!(certificate
        .subject_alternative_name()
        .unwrap()
        .unwrap()
        .value
        .general_names
        .iter()
        .any(|name| format!("{name:?}").contains("queue-c1-n1-0")));
    assert!(format!("{}", certificate.subject()).contains("queue-c1-n1-0"));
    assert!(leaf.not_after_unix > unix_now() + 364 * 86_400);
    assert!(ca.not_after_unix > leaf.not_after_unix);
    assert_eq!(certificate.validity().not_after.timestamp(), leaf.not_after_unix);
    let usage = certificate.key_usage().unwrap().unwrap().value;
    assert!(usage.digital_signature() && usage.key_encipherment() && !usage.key_cert_sign());
    let purposes = certificate.extended_key_usage().unwrap().unwrap().value;
    assert!(purposes.server_auth && purposes.client_auth);
    assert!(!certificate.is_ca());

    let (_, pem) = x509_parser::pem::parse_x509_pem(ca.certificate_pem.as_bytes()).unwrap();
    let authority = pem.parse_x509().unwrap();
    let usage = authority.key_usage().unwrap().unwrap().value;
    assert!(usage.key_cert_sign() && usage.crl_sign() && usage.digital_signature());
    let constraints = authority.basic_constraints().unwrap().unwrap().value;
    assert!(constraints.ca && constraints.path_len_constraint.is_none());
    assert_eq!(format!("{}", certificate.issuer()), format!("{}", authority.subject()));
}

#[test]
fn certificates_say_what_was_asked_for() {
    let now: i64 = 1_700_000_000;
    let ca = generate_ca_at("queue RustQueue CA", 10, now).unwrap();
    assert_eq!(ca.not_after_unix, now + 864_000);
    let loaded = load_ca(&ca.certificate_pem, &ca.private_key_pem).unwrap();
    assert_eq!(loaded, ca);
    let names: Vec<String> = vec!["a.ns.svc".into(), "b.ns.svc".into()];
    let leaf = issue_leaf_at(&ca, "pod-0", &names, 2, now).unwrap();
    assert_eq!(leaf.not_after_unix, now + 172_800);
    let (_, pem) = x509_parser::pem::parse_x509_pem(leaf.certificate_pem.as_bytes()).unwrap();
    let certificate = pem.parse_x509().unwrap();
    assert_eq!(format!("{}", certificate.subject()), "O=RustQueue, CN=pod-0");
    assert_eq!(certificate.validity().not_before.timestamp(), now - 86_400);
    assert_eq!(certificate.validity().not_after.timestamp(), now + 172_800);
    let alternatives: Vec<String> = certificate
        .subject_alternative_name()
        .unwrap()
        .unwrap()
        .value
        .general_names
        .iter()
        .map(|name| name.to_string())
        .collect();
    assert_eq!(alternatives, vec!["DNSName(a.ns.svc)", "DNSName(b.ns.svc)"]);
}

#[test]
fn leaves_are_signed_by_their_authority() {
    let ca = generate_ca("a", 10).unwrap();
    let other = generate_ca("b", 10).unwrap();
    assert!(signed_with(&ca.certificate_pem, &ca.private_key_pem));
    assert!(!signed_with(&ca.certificate_pem, &other.private_key_pem));
    let leaf = issue_leaf(&ca, "n", &vec!["a.b".into()], 1).unwrap();
    assert!(signed_with(&leaf.certificate_pem, &ca.private_key_pem));
    assert!(!signed_with(&leaf.certificate_pem, &leaf.private_key_pem));
    assert!(!signed_with(&leaf.certificate_pem, &other.private_key_pem));
    assert!(!signed_with("no pem", &ca.private_key_pem));
    assert!(!signed_with(&leaf.certificate_pem, "no key"));
    let (_, pem) = x509_parser::pem::parse_x509_pem(leaf.certificate_pem.as_bytes()).unwrap();
    let certificate = pem.parse_x509().unwrap();
    assert_eq!(format!("{}", certificate.issuer()), "O=RustQueue, CN=a");
}

#[test]
fn authorities_sign_however_their_block_is_laid_out() {
    let ca = generate_ca("a", 10).unwrap();
    let mut lined = generate_ca("a", 10).unwrap();
    lined.private_key_pem = ca.private_key_pem.clone();
    let body: String = ca
        .certificate_pem
        .lines()
        .filter(|line| !line.starts_with("-----"))
        .collect();
    lined.certificate_pem =
        format!("note: -----BEGIN CERTIFICATE-----{body}-----END CERTIFICATE-----");
    assert!(matches!(
        load_ca(&lined.certificate_pem, &lined.private_key_pem),
        Err(PkiError::Pem(_))
    ));
    let leaf = issue_leaf(&lined, "n", &Vec::new(), 1).unwrap();
    assert!(signed_with(&leaf.certificate_pem, &ca.private_key_pem));
}

#[test]
fn certificates_end_within_four_digit_years() {
    let last: i64 = 253_402_300_799;
    assert!(matches!(
        generate_ca_at("a", 1, i64::MAX),
        Err(PkiError::Validity)
    ));
    assert!(matches!(
        generate_ca_at("a", 1, last - 86_399),
        Err(PkiError::Validity)
    ));
    let ca = generate_ca_at("a", 1, last - 86_400).unwrap();
    assert_eq!(load_ca(&ca.certificate_pem, &ca.private_key_pem), Ok(ca));
    let first: i64 = -62_167_219_200;
    assert!(matches!(
        generate_ca_at("a", 1, first + 86_399),
        Err(PkiError::Validity)
    ));
    let ca = generate_ca_at("a", 1, first + 86_400).unwrap();
    assert_eq!(load_ca(&ca.certificate_pem, &ca.private_key_pem), Ok(ca));
    let ca = generate_ca("a", 1).unwrap();
    assert_eq!(
        issue_leaf(&ca, "n", &Vec::new(), u32::MAX).unwrap_err().message(),
        "certificate validity is out of range"
    );
}

#[test]
fn authorities_must_belong_to_their_key() {
    let ca = generate_ca("a", 10).unwrap();
    let other = generate_ca("b", 10).unwrap();
    assert!(matches!(
        load_ca(&ca.certificate_pem, &other.private_key_pem),
        Err(PkiError::Mismatch)
    ));
    assert!(matches!(
        load_ca(&ca.certificate_pem, "no key"),
        Err(PkiError::PrivateKey)
    ));
    assert!(matches!(
        load_ca("no pem", &ca.private_key_pem),
        Err(PkiError::Pem(_))
    ));
    let told = load_ca("no pem", &ca.private_key_pem).unwrap_err().message();
    let reason = x509_parser::pem::parse_x509_pem(b"no pem").unwrap_err();
    assert_eq!(told, format!("parse cluster CA PEM: {reason}"));
    let block = "-----BEGIN CERTIFICATE-----\nAAAA\n-----END CERTIFICATE-----\n";
    let (_, pem) = x509_parser::pem::parse_x509_pem(block.as_bytes()).unwrap();
    let reason = pem.parse_x509().unwrap_err();
    let told = load_ca(block, &ca.private_key_pem).unwrap_err().message();
    assert_eq!(told, format!("parse cluster CA certificate: {reason}"));
    assert!(matches!(
        judge_authority(None, Ok(()), Ok((vec![1], 5)), true),
        Err(PkiError::PrivateKey)
    ));
    assert!(matches!(
        judge_authority(Some(vec![1]), Err("x".into()), Err("y".into()), true),
        Err(PkiError::Pem(reason)) if reason == "x"
    ));
    assert!(matches!(
        judge_authority(Some(vec![1]), Ok(()), Err("y".into()), true),
        Err(PkiError::Certificate(reason)) if reason == "y"
    ));
    assert!(matches!(
        judge_authority(Some(vec![1]), Ok(()), Ok((vec![2], 5)), true),
        Err(PkiError::Mismatch)
    ));
    assert!(matches!(
        judge_authority(Some(vec![1]), Ok(()), Ok((vec![1], 5)), false),
        Err(PkiError::Issuer)
    ));
    assert_eq!(
        judge_authority(Some(vec![1]), Ok(()), Ok((vec![1], 5)), true).ok(),
        Some(5)
    );
    assert_eq!(PkiError::Signing("x".into()).message(), "x");
    assert_eq!(
        PkiError::Issuer.message(),
        "validate cluster CA certificate"
    );
    let mut broken = generate_ca("c", 10).unwrap();
    broken.certificate_pem = "no pem".into();
    assert_eq!(
        issue_leaf(&broken, "n", &Vec::new(), 1).unwrap_err().message(),
        "parse CA certificate for signing"
    );
    broken.private_key_pem = "no key".into();
    assert_eq!(
        issue_leaf(&broken, "n", &Vec::new(), 1).unwrap_err().message(),
        "parse CA key for signing"
    );
    let ca = generate_ca("d", 10).unwrap();
    let foreign: Vec<String> = vec!["\u{e9}.svc".into()];
    let told = issue_leaf(&ca, "n", &foreign, 1).unwrap_err().message();
    let reason = rcgen::CertificateParams::new(foreign).err().unwrap();
    assert_eq!(told, reason.to_string());

    let request = leaf_request("n", &vec!["a.b".into()], 2, 1_000_000);
    assert_eq!(request.organization, "RustQueue");
    assert_eq!(request.dns_names, vec!["a.b".to_owned()]);
    assert_eq!((request.not_before, request.not_after), (913_600, 1_172_800));
    assert_eq!(
        request.usages,
        [LeafUsage::DigitalSignature, LeafUsage::KeyEncipherment]
    );
    assert_eq!(request.purposes, [LeafPurpose::Server, LeafPurpose::Client]);
    let request = authority_request("n", 2, 1_000_000);
    assert_eq!(
        (request.organization.as_str(), request.common_name.as_str()),
        ("RustQueue", "n")
    );
    assert_eq!((request.not_before, request.not_after), (913_600, 1_172_800));
    assert_eq!(request.path_length, None);
    assert_eq!(
        request.usages,
        [
            AuthorityUsage::KeyCertSign,
            AuthorityUsage::CrlSign,
            AuthorityUsage::DigitalSignature
        ]
    );
}

#[test]
fn revisions_depend_on_every_part() {
    assert_eq!(revision(&[b"a", b"b"]), revision(&[b"a", b"b"]));
    assert_ne!(revision(&[b"a", b"b"]), revision(&[b"a", b"c"]));
    assert_eq!(add_days(10, 1), 86_410);
}

#[test]
fn generated_tokens_have_fixed_entropy_and_encoding() {
    let token = random_hex(32);
    assert_eq!(token.len(), 64);
    assert!(token.bytes().all(|byte| byte.is_ascii_hexdigit()));
    assert_ne!(token, random_hex(32));
    assert_eq!(hex_token(&vec![0x0f, 0xa0]), "0fa0");
}

fn shared(revision: &str, token: &str) -> Secret {
    Secret {
        name: "queue-shared".into(),
        annotations: StringMap::of("rustqueue.io/ca-revision", revision),
        data: vec![("admin-token".into(), token.as_bytes().to_vec())],
    }
}

#[test]
fn secrets_are_kept_while_they_are_current() {
    let secret = shared("7", "token");
    assert_eq!(secret_string(&secret, "admin-token"), Ok("token".into()));
    assert_eq!(
        secret_string(&secret, "other"),
        Err("Secret queue-shared lacks other".into())
    );
    assert_eq!(shared_token(Some(&secret), "admin-token"), "token");
    assert_eq!(shared_token(None, "admin-token").len(), 64);
    assert_eq!(shared_current(None, 7), false);
    assert!(current_leaf(&None, 7, 0).is_none());
    assert!(ca_valid(1_000, 10));
    assert!(!ca_valid(10, 1_000));
    assert_eq!(renewal_time(1_000, 1), 87_400);
    let layout = plan("queue", 3, &CellPolicy::default());
    let names = leaf_dns_names(layout.broker(1).unwrap(), "messaging");
    assert!(names.iter().any(|name| name.contains("queue-c1-n1-0")));
    assert_ne!(ca_secret_name("queue"), shared_secret_name("queue"));
    assert!(ca_common_name("queue").contains("queue"));
}

fn written(draft: &SecretDraft) -> Secret {
    Secret {
        name: draft.name.clone(),
        annotations: draft.annotations.duplicate(),
        data: draft
            .data
            .entries
            .iter()
            .map(|(key, value)| (key.clone(), value.as_bytes().to_vec()))
            .collect(),
    }
}

#[test]
fn authorities_are_made_once_and_read_back() {
    let policy = cluster_spec().security;
    let (ca, draft) = ensure_ca(None, "queue", &policy).unwrap();
    let draft = draft.unwrap();
    assert_eq!((draft.name.as_str(), draft.component.as_str()), ("queue-ca", "pki"));
    assert_eq!(
        draft.annotations.get("rustqueue.io/ca-revision"),
        Some(ca.revision.to_string())
    );
    assert_eq!(
        draft.annotations.get("rustqueue.io/certificate-not-after"),
        Some(ca.not_after_unix.to_string())
    );
    let secret = written(&draft);
    let (again, nothing) = ensure_ca(Some(&secret), "queue", &policy).unwrap();
    assert!(nothing.is_none());
    assert_eq!(again, ca);
    assert!(existing_ca(&secret, ca.not_after_unix - 1).is_ok());
    let expired = existing_ca(&secret, ca.not_after_unix).unwrap_err();
    assert!(matches!(expired, SecurityError::Expired));
    assert_eq!(expired.message(), "managed cluster CA has expired");

    let mut without_key = written(&draft);
    without_key.data.retain(|(key, _)| key != "ca.key");
    assert_eq!(
        existing_ca(&without_key, 0).unwrap_err().message(),
        "Secret queue-ca lacks ca.key"
    );
    let mut binary = written(&draft);
    binary.data[0].1 = vec![0xff];
    assert_eq!(
        existing_ca(&binary, 0).unwrap_err().message(),
        "Secret data is not UTF-8"
    );
    let mut foreign = written(&draft);
    let (_, other) = ensure_ca(None, "other", &policy).unwrap();
    foreign.data[1] = written(&other.unwrap()).data[1].clone();
    assert_eq!(
        existing_ca(&foreign, 0).unwrap_err().message(),
        "cluster CA certificate and private key do not match"
    );
}

#[test]
fn shared_tokens_outlive_their_authority() {
    let policy = cluster_spec().security;
    let (ca, _) = ensure_ca(None, "queue", &policy).unwrap();
    let (tokens, draft) = ensure_shared(None, "queue", &ca);
    let draft = draft.unwrap();
    assert_eq!(draft.name, "queue-shared");
    assert_eq!(draft.data.get("ca.crt"), Some(ca.certificate_pem.clone()));
    assert_ne!(tokens.admin, tokens.discovery);
    let secret = written(&draft);
    let (same, nothing) = ensure_shared(Some(&secret), "queue", &ca);
    assert!(nothing.is_none());
    assert_eq!((&same.admin, &same.discovery), (&tokens.admin, &tokens.discovery));
    let (next, _) = ensure_ca(None, "queue", &policy).unwrap();
    let (kept, rewritten) = ensure_shared(Some(&secret), "queue", &next);
    assert_eq!(kept.admin, tokens.admin);
    assert_eq!(
        rewritten.unwrap().data.get("admin.token"),
        Some(tokens.admin.clone())
    );
    let mut state = SecurityState::new(&next, kept.admin);
    state.record(4, 9);
    assert_eq!(state.ca_revision, next.revision);
    assert_eq!(state.tls_revisions, BTreeMap::from([(4, 9)]));
}

#[test]
fn leaves_are_signed_once_and_renewed_in_time() {
    let policy = cluster_spec().security;
    let layout = plan("queue", 3, &CellPolicy::default());
    let broker = layout.broker(1).unwrap();
    let (ca, _) = ensure_ca(None, "queue", &policy).unwrap();
    let (revision, draft) = ensure_leaf(&None, "ns", broker, &ca, &policy).unwrap();
    let draft = draft.unwrap();
    assert_eq!(draft.name, broker.tls_secret);
    assert_eq!(
        draft.annotations.get("rustqueue.io/tls-revision"),
        Some(revision.to_string())
    );
    assert!(draft
        .data
        .get("tls.crt")
        .unwrap()
        .starts_with("-----BEGIN CERTIFICATE-----"));
    let existing = Some(written(&draft));
    let (kept, nothing) = ensure_leaf(&existing, "ns", broker, &ca, &policy).unwrap();
    assert_eq!(kept, revision);
    assert!(nothing.is_none());
    let mut early = cluster_spec().security;
    early.renew_before_days = early.certificate_validity_days + 1;
    let (renewed, rewritten) = ensure_leaf(&existing, "ns", broker, &ca, &early).unwrap();
    assert_ne!(renewed, revision);
    assert!(rewritten.is_some());
    let (next, _) = ensure_ca(None, "queue", &policy).unwrap();
    assert!(ensure_leaf(&existing, "ns", broker, &next, &policy)
        .unwrap()
        .1
        .is_some());
}

#[test]
fn secrets_at_a_time_are_those_of_that_time() {
    let now: i64 = 1_700_000_000;
    let mut policy = cluster_spec().security;
    policy.certificate_validity_days = 30;
    policy.renew_before_days = 10;
    let (ca, draft) = ensure_ca_at(None, "queue", &policy, now).unwrap();
    assert_eq!(
        ca.not_after_unix,
        now + i64::from(policy.ca_validity_days) * 86_400
    );
    let secret = written(&draft.unwrap());
    let (again, _) = ensure_ca_at(Some(&secret), "queue", &policy, ca.not_after_unix - 1).unwrap();
    assert_eq!(again, ca);
    assert!(ensure_ca_at(Some(&secret), "queue", &policy, ca.not_after_unix).is_err());

    let layout = plan("queue", 3, &CellPolicy::default());
    let broker = layout.broker(1).unwrap();
    let (revision, draft) = ensure_leaf_at(&None, "ns", broker, &ca, &policy, now).unwrap();
    let draft = draft.unwrap();
    let pem_text = draft.data.get("tls.crt").unwrap();
    let (_, pem) = x509_parser::pem::parse_x509_pem(pem_text.as_bytes()).unwrap();
    let certificate = pem.parse_x509().unwrap();
    assert_eq!(
        certificate.validity().not_after.timestamp(),
        now + 30 * 86_400
    );
    assert_eq!(
        format!("{}", certificate.subject()),
        format!("O=RustQueue, CN={}", broker.pod_name)
    );
    let alternatives: Vec<String> = certificate
        .subject_alternative_name()
        .unwrap()
        .unwrap()
        .value
        .general_names
        .iter()
        .map(|name| name.to_string())
        .collect();
    let asked: Vec<String> = leaf_dns_names(broker, "ns")
        .iter()
        .map(|name| format!("DNSName({name})"))
        .collect();
    assert_eq!(alternatives, asked);

    let existing = Some(written(&draft));
    let before = now + 20 * 86_400 - 1;
    let (kept, nothing) = ensure_leaf_at(&existing, "ns", broker, &ca, &policy, before).unwrap();
    assert_eq!(kept, revision);
    assert!(nothing.is_none());
    let due = now + 20 * 86_400;
    let (_, renewed) = ensure_leaf_at(&existing, "ns", broker, &ca, &policy, due).unwrap();
    assert!(renewed.is_some());
}

// Reconciliation of a cluster of cells.

fn cells() -> RustQueueCluster {
    RustQueueCluster {
        spec: cluster_spec(),
        status: None,
    }
}

fn placed(layout: &layout::ClusterLayout) -> BTreeMap<u64, BrokerPlacement> {
    layout
        .brokers()
        .iter()
        .map(|broker| {
            (
                broker.node_id,
                BrokerPlacement {
                    node_name: format!("node-{}", broker.node_id),
                    failure_domain: "zone".into(),
                },
            )
        })
        .collect()
}

#[test]
fn one_cluster_owns_the_namespaces() {
    let key = |name: &str, created: i64, uid: &str| ClusterKey {
        created: Some(created),
        namespace: "n".into(),
        name: name.into(),
        uid: Some(uid.into()),
    };
    let keys = vec![key("late", 9, "u2"), key("early", 1, "u1")];
    assert_eq!(singleton_owner(&keys, &Some("u1".into())), None);
    let owner = singleton_owner(&keys, &Some("u2".into())).unwrap();
    assert!(owner.contains("early"));
    assert!(second_cluster_message(&owner).contains(&owner));
}

#[test]
fn brokers_wait_until_what_they_see_is_placed() {
    let cluster = cells();
    let layout = plan("queue", 3, &cluster.spec.cells);
    let domains = domains_of(&layout);
    let broker = layout.broker(1).unwrap();
    let mut placements = placed(&layout);
    let task = broker_task(
        "queue", "ns", &cluster, b"spec", &layout, broker, &placements, &domains,
    )
    .unwrap();
    let first = match &task {
        BrokerTask::Configure {
            node_name,
            contents,
            revision,
            ..
        } => {
            assert_eq!(node_name, "node-1");
            assert!(contents.contains("id = 1"));
            *revision
        }
        BrokerTask::Pending(_) => panic!("a placed broker waits"),
    };
    let changed = broker_task(
        "queue", "ns", &cluster, b"other", &layout, broker, &placements, &domains,
    )
    .unwrap();
    assert!(matches!(
        changed,
        BrokerTask::Configure { revision, .. } if revision != first
    ));
    let mut desired = DesiredBrokers::new();
    desired.record(&task);
    assert_eq!(desired.configured, 1);
    assert_eq!(desired.config_revisions[&1], first);
    assert_eq!(desired.target_nodes[&1], "node-1");
    placements.remove(&2);
    assert!(!visible_brokers_placed(&layout, broker, &placements));
    assert!(matches!(
        broker_task(
            "queue", "ns", &cluster, b"spec", &layout, broker, &placements, &domains
        ),
        Ok(BrokerTask::Pending(_))
    ));
}

#[test]
fn every_broker_of_a_layout_is_configured_or_waits() {
    let cluster = cells();
    let layout = plan("queue", 3, &cluster.spec.cells);
    let mut placements = placed(&layout);
    assert_eq!(
        failure_domains(&placements),
        BTreeMap::from([(1, "zone".to_owned()), (2, "zone".into()), (3, "zone".into())])
    );
    let (tasks, desired) =
        ensure_brokers("queue", "ns", &cluster, b"spec", &layout, &placements);
    let desired = desired.ok().unwrap();
    assert_eq!(tasks.len(), 3);
    assert_eq!(desired.configured, 3);
    assert_eq!(desired.target_nodes[&3], "node-3");
    assert_eq!(desired.config_revisions.len(), 3);
    placements.remove(&2);
    let (tasks, desired) =
        ensure_brokers("queue", "ns", &cluster, b"spec", &layout, &placements);
    assert!(tasks
        .iter()
        .all(|task| matches!(task, BrokerTask::Pending(_))));
    assert_eq!(desired.ok().unwrap().configured, 0);
    let mut strict = cells();
    strict.spec.replication.metadata = 4;
    let (tasks, refused) = ensure_brokers(
        "queue",
        "ns",
        &strict,
        b"spec",
        &layout,
        &placed(&layout),
    );
    assert!(tasks.is_empty());
    assert!(matches!(
        refused.err(),
        Some(ConfigError::ReplicationUnsatisfied(1))
    ));
}

#[test]
fn obstacles_are_reported_and_looked_at_again() {
    let cluster = cells();
    let reported = |obstacle: &Obstacle| {
        let status = obstacle_status(&cluster, Some(2), obstacle);
        let condition = &status.conditions[0];
        (
            condition.type_.clone(),
            condition.reason.clone(),
            condition.message.clone(),
            requeue_seconds(Some(obstacle)),
        )
    };
    assert_eq!(
        reported(&Obstacle::SecondCluster("n/early".into())),
        (
            "SingletonReady".into(),
            "MultipleClusters".into(),
            "only one RustQueueCluster is allowed per Kubernetes cluster; active owner is n/early"
                .into(),
            60
        )
    );
    assert_eq!(
        reported(&Obstacle::Storage("no class".into())),
        (
            "StorageReady".into(),
            "StorageClassUnresolved".into(),
            "no class".into(),
            30
        )
    );
    assert_eq!(
        reported(&Obstacle::Specification("no image".into())),
        (
            "SpecValid".into(),
            "ValidationFailed".into(),
            "no image".into(),
            30
        )
    );
    assert_eq!(requeue_seconds(None), 5);
}

fn template(image: &str) -> WorkloadTemplate {
    WorkloadTemplate {
        tls_revision: Some("1".into()),
        config_revision: Some("2".into()),
        target_node: Some("a".into()),
        rollout_revision: Some("0".into()),
        image: Some(image.into()),
    }
}

#[test]
fn workloads_change_with_what_their_pods_run() {
    assert!(!workload_changed(&template("x"), &template("x")));
    assert!(workload_changed(&template("x"), &template("y")));
    let mut moved = template("x");
    moved.target_node = Some("b".into());
    assert!(workload_changed(&template("x"), &moved));
}

fn empty_status() -> RustQueueClusterStatus {
    RustQueueClusterStatus {
        observed_generation: None,
        phase: String::new(),
        allocated_replicas: 0,
        desired_replicas: 0,
        ready_replicas: 0,
        pending_nodes: 0,
        ca_revision: String::new(),
        cells: Vec::new(),
        upgrade: None,
        conditions: Vec::new(),
    }
}

fn upgrade(image: &str) -> UpgradeStatus {
    UpgradeStatus {
        target_image: image.into(),
        current_node_id: None,
        started_at: None,
        paused: false,
        reason: String::new(),
        observed_retry_generation: 0,
    }
}

#[test]
fn status_merge_patch_explicitly_clears_optional_rollout_fields() {
    let mut status = empty_status();
    status.upgrade = Some(upgrade("new"));
    let value = status_patch_value(&status);
    assert!(value["upgrade"]["currentNodeId"].is_null());
    assert!(value["upgrade"]["startedAt"].is_null());
    assert_eq!(value["upgrade"]["targetImage"], "new");
    assert!(value["upgrade"]
        .as_object()
        .unwrap()
        .contains_key("currentNodeId"));

    status.upgrade = None;
    assert!(status_patch_value(&status)["upgrade"].is_null());
}

#[test]
fn statuses_are_compared_in_everything() {
    assert!(status_same(&empty_status(), &empty_status()));
    let mut other = empty_status();
    other.cells.push(CellStatus {
        id: 1,
        desired_replicas: 3,
        ready_replicas: 2,
    });
    assert!(!status_same(&empty_status(), &other));
}

#[test]
fn capacity_follows_nodes_replicas_and_development() {
    let mut cluster = cells();
    assert_eq!(allocated_capacity(&cluster, 7), Ok(7));
    cluster.spec.nodes.replicas = Some(5);
    cluster.spec.nodes.auto_scale_from_nodes = false;
    assert_eq!(allocated_capacity(&cluster, 7), Ok(5));
}

fn broker_pod(node_id: u64, ready: bool) -> Pod {
    let mut labels = StringMap::new();
    labels.insert("rustqueue.io/node-id", &node_id.to_string());
    labels.insert("rustqueue.io/cell", "1");
    Pod {
        name: format!("queue-c1-n{node_id}-0"),
        given_name: Some(format!("queue-c1-n{node_id}-0")),
        labels,
        annotations: StringMap::new(),
        owners: Vec::new(),
        deleting: false,
        node_name: Some(format!("node-{node_id}")),
        containers: vec![Container {
            name: "rustqueue".into(),
            image: Some("rustqueue:v1".into()),
            image_pull_policy: None,
            command: Vec::new(),
            args: Vec::new(),
            env: Vec::new(),
        }],
        phase: None,
        pod_ip: None,
        conditions: vec![PodCondition {
            type_: "Ready".into(),
            status: if ready { "True" } else { "False" }.into(),
            reason: None,
            message: None,
        }],
        container_statuses: Vec::new(),
    }
}

#[test]
fn pods_are_read_by_their_labels() {
    let states = pod_states(&[broker_pod(2, false), broker_pod(1, true)]);
    assert_eq!(
        states.iter().map(|s| s.node_id).collect::<Vec<_>>(),
        vec![1, 2]
    );
    assert!(states[0].ready && !states[1].ready);
    assert_eq!(states[0].image, "rustqueue:v1");
    let sets = [BrokerSet {
        labels: StringMap::of("rustqueue.io/node-id", "3"),
        template_annotations: StringMap::of("rustqueue.io/target-node", "node-3"),
    }];
    let current = current_placements(&sets, &[broker_pod(1, true)]);
    assert_eq!(current.get(&1).map(String::as_str), Some("node-1"));
}

#[test]
fn rollouts_of_cells_replace_one_broker_and_expire() {
    let cluster = cells();
    let layout = plan("queue", 3, &cluster.spec.cells);
    let pods = vec![
        state(1, 1, "old", true),
        state(2, 1, "old", true),
        state(3, 1, "old", true),
    ];
    let revisions = BTreeMap::from([(1, 1), (2, 1), (3, 1)]);
    let target_nodes = BTreeMap::from([
        (1, "node-1".to_owned()),
        (2, "node-2".to_owned()),
        (3, "node-3".to_owned()),
    ]);
    let target = RolloutTarget {
        image: "rustqueue:v1",
        tls_revisions: &revisions,
        config_revisions: &revisions,
        target_nodes: &target_nodes,
        rollout_revision: 0,
    };
    let time = "2020-01-01T00:00:00Z";
    match decide_at(&cluster, &layout, &pods, &target, None, time, 0) {
        Decision::Delete {
            status, pod_name, ..
        } => {
            assert_eq!(status.target_image, "rustqueue:v1");
            assert!(status.current_node_id.is_some());
            assert!(pod_name.starts_with("pod-"));
        }
        _ => panic!("no broker is replaced"),
    }
    assert!(matches!(
        decide(&cluster, &layout, &pods, &target),
        Decision::Delete { .. }
    ));
    let placements = placed(&layout);
    let step = rollout_step(
        &cluster, &layout, &placements, 3, &pods, &target, None, time, 0,
    );
    assert!(recorded_upgrade(&step).is_some());
    assert!(!deadline_expired(Some(0), 600, 600));
    assert!(deadline_expired(Some(0), 600, 601));
    assert!(!deadline_expired(None, 0, i64::MAX));
    assert_eq!(release_status(&cluster).target_image, "rustqueue:v1");
    assert!(!waiting_upgrade(&cluster, "nodes").reason.is_empty());
    let broker = layout.broker(1).unwrap();
    assert_eq!(
        pod_dns("ns", broker),
        "queue-c1-n1-0.queue-cell-1.ns.svc"
    );
    assert!(maintenance_url("ns", broker).contains("queue-c1-n1-0"));
    assert!(info_url("ns", broker).contains("queue-c1-n1-0"));
    assert!(maintenance_lease(true).ttl_seconds.is_some());
    assert!(maintenance_lease(false).ttl_seconds.is_none());
}

#[test]
fn cluster_statuses_count_cells() {
    let cluster = cells();
    let layout = plan("queue", 3, &cluster.spec.cells);
    let placements = placed(&layout);
    let pods = vec![state(1, 1, "rustqueue:v1", true)];
    let revisions = BTreeMap::from([(1, 1)]);
    let target_nodes = BTreeMap::from([(1, "node-1".to_owned())]);
    let target = RolloutTarget {
        image: "rustqueue:v1",
        tls_revisions: &revisions,
        config_revisions: &revisions,
        target_nodes: &target_nodes,
        rollout_revision: 0,
    };
    let status = build_status_at(
        &cluster,
        Some(4),
        3,
        &layout,
        &placements,
        3,
        9,
        &pods,
        None,
        &target,
        "2020-01-01T00:00:00Z",
    );
    assert_eq!(status.observed_generation, Some(4));
    assert_eq!((status.desired_replicas, status.ready_replicas), (3, 1));
    assert_eq!(status.cells[0].ready_replicas, 1);
    let fresh = build_status(
        &cluster,
        Some(4),
        3,
        &layout,
        &placements,
        3,
        9,
        &pods,
        None,
        &target,
    );
    assert_eq!(fresh.phase, status.phase);
    assert_eq!(fresh.ca_revision, "9");
    assert_eq!(fresh.conditions.len(), status.conditions.len());
    let blocked = blocked_status_at(
        &cluster,
        Some(4),
        "Ready",
        "Broken",
        "it broke",
        "2020-01-01T00:00:00Z",
    );
    assert!(blocked
        .conditions
        .iter()
        .any(|c: &ClusterCondition| c.type_ == "Ready" && c.status == "False"));
    let now_blocked = blocked_status(&cluster, Some(4), "Ready", "Broken", "it broke");
    assert_eq!(now_blocked.phase, "Invalid");
    assert_eq!(now_blocked.conditions[0].message, "it broke");
}

#[test]
fn conditions_carry_a_time() {
    assert_eq!((flag(true), flag(false)), ("True".into(), "False".into()));
    let stamped = stamped_condition(Some(1), "Ready", true, "r", "m", "t");
    assert_eq!(stamped.last_transition_time, "t");
    let fresh = condition(None, "Ready", false, "r", "m");
    assert!(chrono::DateTime::parse_from_rfc3339(&fresh.last_transition_time).is_ok());
    assert!(chrono::DateTime::parse_from_rfc3339(&now()).is_ok());
    assert!(unix_now() > 1_600_000_000);
}

// Resources.

fn queue() -> RustQueue {
    RustQueue {
        metadata: ObjectMeta {
            name: "queue".into(),
            namespace: Some("test".into()),
            uid: Some("uid".into()),
            generation: None,
        },
        spec: RustQueueSpec {
            image: "rustqueue:test".into(),
            image_pull_policy: "Never".into(),
            min_brokers: 1,
            max_brokers: 500,
            eligible_node_selector: "rustqueue.io/eligible=true".into(),
            storage_class_name: "ssd".into(),
            storage_size: "100Gi".into(),
            storage_feature_level: 1,
            message_index_cache_bytes: 64 * 1024 * 1024,
            maintenance_startup_delay_seconds: 30,
            node_delivery_inflight_bytes: 512 * 1024 * 1024,
            connection_delivery_inflight_bytes: 32 * 1024 * 1024,
            min_free_bytes: 1024,
            disk_high_watermark_percent: 85,
            disk_low_watermark_percent: 75,
            protective_eviction_enabled: false,
            disk_pressure_grace_seconds: 60,
            bootstrap_retention_seconds: 90,
            max_message_bytes: 20 * 1024 * 1024,
            max_topics: 10_000,
            max_publish_workers: 1_024,
            publish_worker_idle_seconds: 60,
            detailed_queue_metrics: false,
            max_detailed_metric_series: 1_000,
            registry_secret_name: None,
            console_management_enabled: false,
            client_tls_secret_name: None,
            proxy_node_selector: StringMap::new(),
            proxy_tcp_max_connection_age_seconds: 300,
            discovery_replicas: 2,
            kodo_compatibility: KodoCompatibility::default(),
            maintenance: None,
            rollout: RolloutPolicy::default(),
            broker_scheduling: BrokerScheduling::default(),
            broker_resources: WorkloadResources::default(),
        },
        status: None,
    }
}

fn enable_kodo(cluster: &mut RustQueue, cleanup_enabled: bool) {
    cluster.spec.min_brokers = 3;
    cluster.spec.max_brokers = 3;
    cluster.spec.storage_feature_level = 2;
    cluster.spec.bootstrap_retention_seconds = 180;
    cluster.spec.max_message_bytes = 100 * 1024 * 1024;
    cluster.spec.connection_delivery_inflight_bytes = 128 * 1024 * 1024;
    cluster.spec.node_delivery_inflight_bytes = 512 * 1024 * 1024;
    cluster.spec.kodo_compatibility.enabled = true;
    cluster.spec.kodo_compatibility.cleanup_enabled = cleanup_enabled;
    cluster
        .spec
        .kodo_compatibility
        .allowed_pod_selector
        .insert("app.kubernetes.io/name", "kodo");
}

fn input<'a>(cluster: &'a RustQueue, gateways: i32, kodo: bool, retain: bool) -> BuildInput<'a> {
    BuildInput {
        cluster,
        replicas: 3,
        kodo_gateway_replicas: gateways,
        advertise_kodo_gateways: kodo,
        discovery_service_kodo: Some(kodo),
        activate_kodo_cleanup: false,
        retain_existing_kodo_resources: retain,
        image: "rustqueue:test",
        claim_template_size: "100Gi",
        secret_name: "queue-auth",
        mounted_secret_revision: "1",
    }
}

fn rendered(cluster: &RustQueue, gateways: i32, kodo: bool, retain: bool) -> ResourceSet {
    build(input(cluster, gateways, kodo, retain)).unwrap()
}

fn toml_of(resources: &ResourceSet) -> String {
    resources.config["data"]["rustqueue.toml"]
        .as_str()
        .unwrap()
        .to_owned()
}

fn read(text: &str) -> Value {
    serde_json::from_str(text).unwrap()
}

fn first_container(workload: &Value) -> &Value {
    &workload["spec"]["template"]["spec"]["containers"][0]
}

fn has_variable(workload: &Value, name: &str, value: &str) -> bool {
    first_container(workload)["env"]
        .as_array()
        .unwrap()
        .iter()
        .any(|variable| variable["name"] == name && variable["value"] == value)
}

fn lacks_variable(workload: &Value, name: &str) -> bool {
    first_container(workload)["env"]
        .as_array()
        .unwrap()
        .iter()
        .all(|variable| variable["name"] != name)
}

#[test]
fn renders_one_share_nothing_statefulset_and_retained_pvcs() {
    let resources = rendered(&queue(), 0, false, false);
    let config = toml_of(&resources);
    assert!(config.contains("console_token_file"));
    assert!(config.contains("detailed_queue_metrics = false"));
    assert!(config.contains("max_detailed_series = 1000"));
    assert!(config.contains("maintenance_startup_delay_seconds = 30"));
    assert!(config.contains("node_delivery_inflight_bytes = 536870912"));
    assert!(config.contains("connection_delivery_inflight_bytes = 33554432"));
    assert!(!config.contains("message_index_cache_bytes"));
    assert!(resources.kodo_gateway.is_none());
    assert!(resources.kodo_gateway_service.is_none());
    assert!(resources.kodo_gateway_headless_service.is_none());
    assert!(resources.kodo_gateway_network_policy.is_none());
    assert_eq!(
        resources.network_policy["spec"]["podSelector"]["matchExpressions"][0]["values"],
        read(r#"["broker", "kodo-gateway"]"#)
    );
    let broker_policy = &resources.broker_network_policy;
    assert_eq!(
        broker_policy["spec"]["ingress"].as_array().unwrap().len(),
        1
    );
    assert_eq!(
        broker_policy["spec"]["ingress"][0]["from"],
        read(r#"[{"namespaceSelector": {}}]"#)
    );
    let spec = &resources.brokers["spec"];
    assert_eq!(spec["replicas"], 3);
    assert_eq!(spec["serviceName"], "queue-brokers");
    assert_eq!(spec["updateStrategy"]["type"], "OnDelete");
    assert_eq!(spec["volumeClaimTemplates"].as_array().unwrap().len(), 1);
    assert_eq!(resources.broker_pdb["spec"]["minAvailable"], 2);
    let discovery = &resources.discovery;
    assert_eq!(discovery["spec"]["strategy"]["type"], "RollingUpdate");
    assert_eq!(discovery["spec"]["minReadySeconds"], 30);
    assert_eq!(
        first_container(discovery)["livenessProbe"]["httpGet"]["path"],
        "/ping"
    );
    assert_eq!(
        discovery["spec"]["strategy"]["rollingUpdate"]["maxSurge"],
        "100%"
    );
    assert_eq!(
        discovery["spec"]["template"]["metadata"]["labels"][DISCOVERY_MODE_LABEL],
        "direct"
    );
    assert_eq!(
        resources.discovery_service["spec"]["selector"][DISCOVERY_MODE_LABEL],
        "direct"
    );
    assert_eq!(
        spec["template"]["spec"]["securityContext"]["fsGroup"],
        65532
    );
    assert!(has_variable(
        &resources.brokers,
        "RUSTQUEUE_MESSAGE_INDEX_CACHE_BYTES",
        "67108864"
    ));
    assert_eq!(discovery["spec"]["replicas"], 2);
    assert!(has_variable(
        &resources.proxy,
        "RUSTQUEUE_PROXY_TCP_MAX_CONNECTION_AGE_SECONDS",
        "300"
    ));
    assert_eq!(
        first_container(&resources.proxy)["livenessProbe"]["httpGet"]["path"],
        "/ping"
    );
    assert_eq!(
        resources.proxy["spec"]["template"]["spec"]["terminationGracePeriodSeconds"],
        45
    );
}

#[test]
fn rendered_resources_are_kubernetes_objects() {
    let mut cluster = queue();
    enable_kodo(&mut cluster, false);
    let resources = rendered(&cluster, 3, true, false);
    let set: k8s_openapi::api::apps::v1::StatefulSet =
        serde_json::from_value(resources.brokers.clone()).unwrap();
    assert_eq!(set.spec.unwrap().replicas, Some(3));
    let deployment: k8s_openapi::api::apps::v1::Deployment =
        serde_json::from_value(resources.discovery.clone()).unwrap();
    assert!(deployment.spec.is_some());
    let gateway: k8s_openapi::api::apps::v1::StatefulSet =
        serde_json::from_value(resources.kodo_gateway.clone().unwrap()).unwrap();
    assert_eq!(gateway.metadata.name.as_deref(), Some("queue-kodo-gateway"));
    let policy: k8s_openapi::api::networking::v1::NetworkPolicy =
        serde_json::from_value(resources.broker_network_policy.clone()).unwrap();
    assert_eq!(policy.metadata.namespace.as_deref(), Some("test"));
    let applied = resources.into_all();
    assert!(applied.len() >= 19);
    for resource in &applied {
        assert!(resource["apiVersion"].is_string());
        assert!(resource["kind"].is_string());
        assert_eq!(resource["metadata"]["ownerReferences"][0]["uid"], "uid");
    }
    assert!(rendered(&cluster, 3, true, false).into_runtime().len() < applied.len());
}

#[test]
fn kodo_profile_renders_three_stable_gateways_and_large_message_limits() {
    let mut cluster = queue();
    enable_kodo(&mut cluster, false);
    let resources = rendered(&cluster, 3, true, false);
    let config = toml_of(&resources);
    assert!(config.contains("feature_level = 2"));
    assert!(config.contains("bootstrap_retention_seconds = 180"));
    assert!(config.contains("max_message_bytes = 104857600"));
    assert!(config.contains("max_segment_bytes = 268435456"));
    assert!(config.contains("connection_publish_inflight_bytes = 167772160"));
    assert!(config.contains("node_publish_inflight_bytes = 1073741824"));
    assert!(config.contains("disconnect_on_retriable_publish_error = false"));
    assert!(config.contains("publish_token_file = \"/run/secrets/rustqueue/admin-token\""));
    assert!(config.contains("kodo_cleanup_enabled = false"));
    assert!(!config.contains("kodo_cleanup_token_file"));
    assert!(!config.contains("kodo_http_address"));
    let discovery = &resources.discovery;
    assert_eq!(discovery["spec"]["strategy"]["type"], "RollingUpdate");
    assert_eq!(discovery["spec"]["minReadySeconds"], 660);
    assert_eq!(
        discovery["spec"]["template"]["metadata"]["labels"][DISCOVERY_MODE_LABEL],
        "kodo"
    );
    assert_eq!(
        resources.discovery_service["spec"]["selector"][DISCOVERY_MODE_LABEL],
        "kodo"
    );

    let gateway = resources.kodo_gateway.as_ref().unwrap();
    let gateway_policy = resources.kodo_gateway_network_policy.as_ref().unwrap();
    assert_eq!(
        gateway_policy["spec"]["ingress"][0]["from"][0],
        read(r#"{"podSelector": {"matchLabels": {"app.kubernetes.io/name": "kodo"}}}"#)
    );
    assert_eq!(
        gateway_policy["spec"]["ingress"][0]["ports"]
            .as_array()
            .unwrap()
            .iter()
            .map(|port| port["port"].as_u64().unwrap())
            .collect::<Vec<_>>(),
        vec![4150, 4152, 4153, 4151, 4154, 4155]
    );
    assert_eq!(
        gateway_policy["spec"]["ingress"][1],
        read(
            r#"{"from": [{"namespaceSelector": {}}], "ports": [{"protocol": "TCP", "port": 4160}]}"#
        )
    );
    let broker_policy = &resources.broker_network_policy;
    assert_eq!(
        broker_policy["spec"]["ingress"].as_array().unwrap().len(),
        2
    );
    assert_eq!(
        broker_policy["spec"]["ingress"][0]["from"],
        read(
            r#"[
                {"podSelector": {"matchLabels": {"app.kubernetes.io/instance": "queue"}}},
                {"podSelector": {"matchLabels": {"app.kubernetes.io/name": "kodo"}}}
            ]"#
        )
    );
    assert_eq!(
        broker_policy["spec"]["ingress"][0]["ports"],
        read(r#"[{"protocol": "TCP", "port": 4150}]"#)
    );
    assert_eq!(
        broker_policy["spec"]["ingress"][1],
        read(
            r#"{"from": [{"namespaceSelector": {}}], "ports": [{"protocol": "TCP", "port": 4151}]}"#
        )
    );
    assert_eq!(gateway["spec"]["replicas"], 3);
    assert_eq!(gateway["spec"]["serviceName"], "queue-kodo-gateways");
    let gateway_service = resources.kodo_gateway_service.as_ref().unwrap();
    assert_eq!(gateway_service["metadata"]["name"], "queue-kodo-publish");
    assert_eq!(
        gateway_service["metadata"]["labels"]["rustqueue.io/metrics"],
        "true"
    );
    assert_ne!(gateway_service["spec"]["clusterIP"], "None");
    assert_eq!(
        gateway_service["spec"]["ports"]
            .as_array()
            .unwrap()
            .iter()
            .map(|port| (
                port["name"].as_str().unwrap(),
                port["port"].as_u64().unwrap(),
                port["targetPort"].as_str().unwrap()
            ))
            .collect::<Vec<_>>(),
        vec![
            ("tcp-0", 4150, "tcp"),
            ("tcp-1", 4152, "tcp"),
            ("tcp-2", 4153, "tcp"),
            ("http-0", 4151, "http-0"),
            ("http-1", 4154, "http-1"),
            ("http-2", 4155, "http-2"),
            ("metrics", 4160, "metrics"),
        ]
    );
    let headless = resources.kodo_gateway_headless_service.as_ref().unwrap();
    assert_eq!(headless["metadata"]["name"], "queue-kodo-gateways");
    assert_eq!(headless["spec"]["clusterIP"], "None");
    assert_eq!(headless["spec"]["publishNotReadyAddresses"], true);
    let pod = &gateway["spec"]["template"]["spec"];
    assert_eq!(pod["terminationGracePeriodSeconds"], 75);
    let container = first_container(gateway);
    assert_eq!(container["livenessProbe"]["httpGet"]["path"], "/ping");
    assert_eq!(container["resources"]["limits"]["memory"], "1Gi");
    assert_eq!(container["resources"]["requests"]["memory"], "768Mi");
    assert_eq!(container["resources"]["requests"]["cpu"], "1");
    assert_eq!(
        pod["affinity"]["podAntiAffinity"]["requiredDuringSchedulingIgnoredDuringExecution"][0]
            ["topologyKey"],
        "kubernetes.io/hostname"
    );
    for (name, value) in [
        ("RUSTQUEUE_PROXY_MAX_MESSAGE_BYTES", "104857600"),
        ("RUSTQUEUE_PROXY_SHUTDOWN_GRACE_SECONDS", "60"),
        ("RUSTQUEUE_PROXY_MAX_INFLIGHT_BYTES", "536870912"),
        ("RUSTQUEUE_PROXY_TCP_COMMAND_TIMEOUT_MS", "120000"),
        ("RUSTQUEUE_PROXY_TCP_MAX_CONNECTION_AGE_SECONDS", "0"),
    ] {
        assert!(has_variable(gateway, name, value), "{name}");
    }
    assert!(lacks_variable(gateway, "RUSTQUEUE_KODO_CLEANUP_TOKEN_FILE"));
    assert!(lacks_variable(gateway, "RUSTQUEUE_REGISTRY_TOKEN_FILE"));
    assert_eq!(
        resources.kodo_gateway_pdb.as_ref().unwrap()["spec"]["minAvailable"],
        2
    );
    assert!(has_variable(
        discovery,
        "RUSTQUEUE_KODO_GATEWAY_ADDRESS",
        "queue-kodo-publish.test.svc"
    ));
    assert!(has_variable(
        discovery,
        "RUSTQUEUE_KODO_CLEANUP_ENABLED",
        "false"
    ));
}

#[test]
fn staged_kodo_gateways_fail_closed_without_mounting_cleanup_credentials() {
    let mut cluster = queue();
    enable_kodo(&mut cluster, false);
    let resources = rendered(&cluster, 0, false, false);
    let discovery = &resources.discovery;
    assert_eq!(
        discovery["spec"]["template"]["metadata"]["labels"][DISCOVERY_MODE_LABEL],
        "direct"
    );
    assert_eq!(
        resources.discovery_service["spec"]["selector"][DISCOVERY_MODE_LABEL],
        "direct"
    );
    assert!(lacks_variable(
        discovery,
        "RUSTQUEUE_KODO_COMPATIBILITY_ENABLED"
    ));
    assert!(lacks_variable(discovery, "RUSTQUEUE_KODO_GATEWAY_ADDRESS"));
    let gateway = resources.kodo_gateway.as_ref().unwrap();
    assert_eq!(gateway["spec"]["replicas"], 0);
    let pod = &gateway["spec"]["template"]["spec"];
    assert!(pod["volumes"].as_array().unwrap().is_empty());
    assert!(first_container(gateway)["volumeMounts"]
        .as_array()
        .unwrap()
        .is_empty());
    assert!(lacks_variable(gateway, "RUSTQUEUE_KODO_CLEANUP_TOKEN_FILE"));
    assert!(lacks_variable(gateway, "RUSTQUEUE_REGISTRY_TOKEN_FILE"));
    assert_eq!(
        resources.kodo_gateway_pdb.as_ref().unwrap()["spec"]["minAvailable"],
        0
    );
}

#[test]
fn requested_kodo_cleanup_remains_disabled_in_rendered_resources() {
    let mut cluster = queue();
    enable_kodo(&mut cluster, true);
    let resources = rendered(&cluster, 3, true, false);
    let config = toml_of(&resources);
    assert!(config.contains("kodo_cleanup_enabled = false"));
    assert!(!config.contains("kodo_http_address"));
    assert!(has_variable(
        &resources.discovery,
        "RUSTQUEUE_KODO_CLEANUP_ENABLED",
        "false"
    ));
}

#[test]
fn disabling_kodo_keeps_the_gateway_recoverable_without_cleanup() {
    let mut cluster = queue();
    cluster.spec.kodo_compatibility.cleanup_enabled = true;
    let resources = rendered(&cluster, 3, false, true);
    let config = toml_of(&resources);
    assert!(config.contains("kodo_cleanup_enabled = false"));
    assert!(!config.contains("kodo_cleanup_token_file"));
    assert!(!config.contains("kodo_http_address"));
    let gateway = resources.kodo_gateway.as_ref().unwrap();
    assert_eq!(gateway["spec"]["replicas"], 3);
    assert!(lacks_variable(gateway, "RUSTQUEUE_KODO_CLEANUP_TOKEN_FILE"));
    assert!(lacks_variable(gateway, "RUSTQUEUE_REGISTRY_TOKEN_FILE"));
    assert!(resources.retain_existing_kodo_resources);
    assert_eq!(resources.discovery["spec"]["minReadySeconds"], 660);
}

#[test]
fn standalone_large_message_profile_has_matching_publish_limits() {
    let mut cluster = queue();
    cluster.spec.storage_feature_level = 2;
    cluster.spec.max_message_bytes = 100 * 1024 * 1024;
    cluster.spec.connection_delivery_inflight_bytes = 100 * 1024 * 1024;
    cluster.spec.node_delivery_inflight_bytes = 200 * 1024 * 1024;
    let resources = rendered(&cluster, 0, false, false);
    let config = toml_of(&resources);
    assert!(config.contains("max_body_bytes = 104857600"));
    assert!(config.contains("connection_publish_inflight_bytes = 167772160"));
    assert!(config.contains("max_segment_bytes = 268435456"));
    assert!(resources.kodo_gateway.is_none());
    assert!(resources.kodo_gateway_service.is_none());
    assert!(resources.kodo_gateway_headless_service.is_none());
}

#[test]
fn broker_pod_template_changes_advance_the_rollout_revision() {
    let render = |cluster: &RustQueue, secret_name: &str| {
        let mut input = input(cluster, 0, false, false);
        input.secret_name = secret_name;
        input.mounted_secret_revision = "same-resource-version";
        build(input).unwrap().revision
    };
    let mut cluster = queue();
    let original = render(&cluster, "queue-auth");
    cluster.spec.broker_resources.cpu_request = "2".into();
    let resources_changed = render(&cluster, "queue-auth");
    assert_ne!(original, resources_changed);
    assert_ne!(resources_changed, render(&cluster, "replacement-auth"));
    assert_eq!(original.len(), 32);
    assert_eq!(
        broker_revision(&input(&cluster, 0, false, false)),
        rendered(&cluster, 0, false, false).revision
    );
}

#[test]
fn resources_need_a_namespace_an_owner_and_a_selector() {
    let mut cluster = queue();
    cluster.metadata.namespace = None;
    assert!(matches!(
        build(input(&cluster, 0, false, false)),
        Err(BuildError::NoNamespace)
    ));
    let mut cluster = queue();
    cluster.metadata.uid = None;
    assert!(matches!(
        build(input(&cluster, 0, false, false)),
        Err(BuildError::NoOwner)
    ));
    let mut cluster = queue();
    cluster.spec.eligible_node_selector = "a in (b)".into();
    assert!(matches!(
        build(input(&cluster, 0, false, false)),
        Err(BuildError::NodeSelector)
    ));
    assert!(!BuildError::NodeSelector.message().is_empty());
    assert_eq!(
        pod_node_selector(" a = b").ok().unwrap().entries,
        vec![("a".to_owned(), "b".to_owned())]
    );
    for selector in ["a=b,c=d", "a", "=b", "a="] {
        assert!(matches!(
            pod_node_selector(selector),
            Err(BuildError::NodeSelector)
        ));
    }
    let labels = labels_for(&StringMap::of("x", "y"), "broker");
    assert!(labels.holds("app.kubernetes.io/component", "broker"));
    assert_eq!(kodo_names("queue").gateway, "queue-kodo-gateway");
    let owners = vec![OwnerRef {
        uid: "uid".into(),
        controller: true,
    }];
    assert!(is_obsolete(false, false, &owners, &Some("uid".into())));
    assert!(!is_obsolete(true, false, &owners, &Some("uid".into())));
    assert!(!is_obsolete(false, true, &owners, &Some("uid".into())));
    assert!(!is_obsolete(false, false, &owners, &Some("other".into())));
}
