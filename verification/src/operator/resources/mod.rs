//! The Kubernetes resources of a cluster.
pub mod kodo;

use crate::digest;
use crate::json::{self, Doc, Items, JsonView};
use crate::operator::crd::{
    BrokerScheduling, BrokerToleration, RustQueue, RustQueueSpec, WorkloadResources,
};
use crate::operator::kube::{self, OwnerRef};
use crate::string_map::{self, StringMap};
use crate::text;
use serde_json::Value;
use vstd::prelude::*;
use vstd::string::*;

verus! {

/// Who manages the resources.
pub const MANAGER: &'static str = "rustqueue-operator";

/// The label that tells which addresses a discovery pod publishes.
pub const DISCOVERY_MODE_LABEL: &'static str = "rustqueue.io/discovery-publisher-mode";

/// The resources of a cluster, as documents.
pub struct ResourceSet {
    pub revision: String,
    pub retain_existing_kodo_resources: bool,
    pub config: Value,
    pub service_account: Value,
    pub role: Value,
    pub role_binding: Value,
    pub broker_service: Value,
    pub brokers: Value,
    pub broker_pdb: Value,
    pub broker_network_policy: Value,
    pub discovery_service: Value,
    pub discovery: Value,
    pub discovery_pdb: Value,
    pub proxy_service: Value,
    pub proxy: Value,
    pub kodo_gateway_service: Option<Value>,
    pub kodo_gateway_headless_service: Option<Value>,
    pub kodo_gateway: Option<Value>,
    pub kodo_gateway_pdb: Option<Value>,
    pub kodo_gateway_network_policy: Option<Value>,
    pub network_policy: Value,
}

/// What the resources are built from.
pub struct BuildInput<'a> {
    pub cluster: &'a RustQueue,
    pub replicas: i32,
    pub kodo_gateway_replicas: i32,
    pub advertise_kodo_gateways: bool,
    pub discovery_service_kodo: Option<bool>,
    pub activate_kodo_cleanup: bool,
    pub retain_existing_kodo_resources: bool,
    pub image: &'a str,
    pub claim_template_size: &'a str,
    pub secret_name: &'a str,
    pub mounted_secret_revision: &'a str,
}

/// Why the resources cannot be built.
#[derive(Clone, Copy, Debug, PartialEq, Eq, Structural)]
pub enum BuildError {
    NoNamespace,
    NoOwner,
    NodeSelector,
    CutoverGrace,
}

impl BuildError {
    /// The message of the error.
    pub fn message(&self) -> (r: &'static str)
        ensures
            r@ == match *self {
                BuildError::NoNamespace => "RustQueue must be namespaced"@,
                BuildError::NoOwner => "RustQueue owner reference"@,
                BuildError::NodeSelector => "eligibleNodeSelector must be one key=value selector"@,
                BuildError::CutoverGrace =>
                    "Kodo cutover grace exceeds the Deployment minReadySeconds range"@,
            },
    {
        match self {
            BuildError::NoNamespace => "RustQueue must be namespaced",
            BuildError::NoOwner => "RustQueue owner reference",
            BuildError::NodeSelector => "eligibleNodeSelector must be one key=value selector",
            BuildError::CutoverGrace =>
                "Kodo cutover grace exceeds the Deployment minReadySeconds range",
        }
    }
}

/// What every resource of a cluster carries.
pub struct Frame<'a> {
    pub name: &'a str,
    pub namespace: &'a str,
    pub owner: Value,
    pub revision: String,
}

/// `Frame` as values.
pub struct FrameView {
    pub name: Seq<char>,
    pub namespace: Seq<char>,
    pub owner: JsonView,
    pub revision: Seq<char>,
}

impl<'a> View for Frame<'a> {
    type V = FrameView;

    open spec fn view(&self) -> FrameView {
        FrameView {
            name: self.name@,
            namespace: self.namespace@,
            owner: json::json_held(self.owner),
            revision: self.revision@,
        }
    }
}

/// A name with an ending.
pub(crate) fn suffixed(name: &str, suffix: &str) -> (r: String)
    ensures
        r@ == name@ + suffix@,
{
    let mut r = name.to_owned();
    r.append(suffix);
    r
}

/// A text between two others.
pub(crate) fn around(before: &str, middle: &str, after: &str) -> (r: String)
    ensures
        r@ == before@ + middle@ + after@,
{
    let mut r = before.to_owned();
    r.append(middle);
    r.append(after);
    r
}

/// The labels of everything that belongs to a cluster.
pub open spec fn base_entries(name: Seq<char>) -> Seq<(Seq<char>, Seq<char>)> {
    string_map::put(
        string_map::put(
            string_map::put(Seq::empty(), "app.kubernetes.io/name"@, "rustqueue"@),
            "app.kubernetes.io/instance"@,
            name,
        ),
        "app.kubernetes.io/managed-by"@,
        "rustqueue-operator"@,
    )
}

/// The labels of a component, on top of others.
pub open spec fn component_entries(
    base: Seq<(Seq<char>, Seq<char>)>,
    component: Seq<char>,
) -> Seq<(Seq<char>, Seq<char>)> {
    string_map::put(base, "app.kubernetes.io/component"@, component)
}

/// The labels of a component, as a document.
pub open spec fn labels_json(name: Seq<char>, component: Seq<char>) -> JsonView {
    json::entries_json(component_entries(base_entries(name), component))
}

/// The labels of everything that belongs to a cluster.
pub fn base_labels(name: &str) -> (r: StringMap)
    ensures
        r@ == base_entries(name@),
        r.wf(),
{
    let mut m = StringMap::new();
    m.insert("app.kubernetes.io/name", "rustqueue");
    m.insert("app.kubernetes.io/instance", name);
    m.insert("app.kubernetes.io/managed-by", "rustqueue-operator");
    m
}

/// The labels of a component, on top of others.
pub fn labels_for(base: &StringMap, component: &str) -> (r: StringMap)
    ensures
        r@ == component_entries(base@, component@),
        base.wf() ==> r.wf(),
{
    let mut m = base.duplicate();
    m.insert("app.kubernetes.io/component", component);
    m
}

/// The labels of a component, as a document.
pub(crate) fn labels(name: &str, component: &str) -> (r: Doc)
    ensures
        r@ == labels_json(name@, component@),
        r@ is Object,
{
    Doc::of_map(&labels_for(&base_labels(name), component))
}

/// The labels that select nodes.
pub open spec fn node_selector(selector: Seq<char>) -> Option<Seq<(Seq<char>, Seq<char>)>> {
    match text::split_first(selector, '=') {
        Some((key, value)) => if text::is_blank(key) || text::is_blank(value) || text::has_text(
            key,
            ","@,
        ) || text::has_text(value, ","@) {
            None
        } else {
            Some(seq![(text::trimmed(key), text::trimmed(value))])
        },
        None => None,
    }
}

/// The labels that select nodes: one key and its value.
pub fn pod_node_selector(selector: &str) -> (r: Result<StringMap, BuildError>)
    ensures
        match r {
            Ok(m) => node_selector(selector@) == Some(m@),
            Err(e) => node_selector(selector@) is None && e == BuildError::NodeSelector,
        },
{
    match text::split_once(selector, '=') {
        Some((key, value)) => if text::blank(key.as_str()) || text::blank(value.as_str())
            || text::contains_text(key.as_str(), ",") || text::contains_text(
            value.as_str(),
            ",",
        ) {
            Err(BuildError::NodeSelector)
        } else {
            Ok(
                StringMap::of(
                    text::trim(key.as_str()).as_str(),
                    text::trim(value.as_str()).as_str(),
                ),
            )
        },
        None => Err(BuildError::NodeSelector),
    }
}

// The configuration of the brokers.

/// A truth value as a text.
pub open spec fn truth(b: bool) -> Seq<char> {
    if b {
        "true"@
    } else {
        "false"@
    }
}

fn truth_text(b: bool) -> (r: &'static str)
    ensures
        r@ == truth(b),
{
    if b {
        "true"
    } else {
        "false"
    }
}

/// Whether a cluster needs the limits for large messages.
pub open spec fn is_large(s: RustQueueSpec) -> bool {
    s.kodo_compatibility.enabled || s.max_message_bytes > 67108864
}

/// The largest body that a cluster takes.
pub open spec fn body_bytes(s: RustQueueSpec) -> nat {
    if s.kodo_compatibility.enabled {
        134217728
    } else if s.max_message_bytes > 67108864 {
        s.max_message_bytes as nat
    } else {
        67108864
    }
}

/// The storage part of the configuration.
#[verifier::opaque]
pub open spec fn storage_text(s: RustQueueSpec) -> Seq<char> {
    "[storage]\ndata_path = \"/data\"\nfeature_level = "@ + text::dec(
        s.storage_feature_level as nat,
    ) + "\nmax_segment_bytes = "@ + text::dec(
        if is_large(s) {
            268435456
        } else {
            104857600
        },
    ) + "\nmin_free_bytes = "@ + text::dec(s.min_free_bytes as nat)
        + "\ndisk_high_watermark_percent = "@ + text::dec(s.disk_high_watermark_percent as nat)
        + "\ndisk_low_watermark_percent = "@ + text::dec(s.disk_low_watermark_percent as nat)
        + "\nprotective_eviction_enabled = "@ + truth(s.protective_eviction_enabled)
        + "\ndisk_pressure_grace_seconds = "@ + text::dec(s.disk_pressure_grace_seconds as nat)
        + "\nmaintenance_startup_delay_seconds = "@ + text::dec(
        s.maintenance_startup_delay_seconds as nat,
    )
}

/// The queue part of the configuration.
#[verifier::opaque]
pub open spec fn queue_text(s: RustQueueSpec) -> Seq<char> {
    "\n\n[queue]\nbootstrap_retention_seconds = "@ + text::dec(
        s.bootstrap_retention_seconds as nat,
    ) + "\nmax_message_bytes = "@ + text::dec(s.max_message_bytes as nat) + "\nmax_topics = "@
        + text::dec(s.max_topics as nat) + "\nmax_publish_workers = "@ + text::dec(
        s.max_publish_workers as nat,
    ) + "\npublish_worker_idle_seconds = "@ + text::dec(s.publish_worker_idle_seconds as nat)
}

/// The limits in the configuration.
#[verifier::opaque]
pub open spec fn limits_text(s: RustQueueSpec) -> Seq<char> {
    "\n\n[limits]\nmax_body_bytes = "@ + text::dec(body_bytes(s))
        + "\nnode_publish_inflight_bytes = "@ + text::dec(
        if is_large(s) {
            1073741824
        } else {
            536870912
        },
    ) + "\nconnection_publish_inflight_bytes = "@ + text::dec(
        if is_large(s) {
            167772160
        } else {
            83886080
        },
    ) + "\nnode_delivery_inflight_bytes = "@ + text::dec(s.node_delivery_inflight_bytes as nat)
        + "\nconnection_delivery_inflight_bytes = "@ + text::dec(
        s.connection_delivery_inflight_bytes as nat,
    ) + "\ndisconnect_on_retriable_publish_error = false"@
}

/// The metrics and security parts of the configuration.
#[verifier::opaque]
pub open spec fn security_text(s: RustQueueSpec, secret_name: Seq<char>) -> Seq<char> {
    "\n\n[metrics]\ndetailed_queue_metrics = "@ + truth(s.detailed_queue_metrics)
        + "\nmax_detailed_series = "@ + text::dec(s.max_detailed_metric_series as nat)
        + "\n\n[security]\nadmin_token_file = \"/run/secrets/rustqueue/admin-token\"\n"@ + (
    if s.kodo_compatibility.enabled {
        "publish_token_file = \"/run/secrets/rustqueue/admin-token\"\n"@
    } else {
        ""@
    })
        + "registry_token_file = \"/run/secrets/rustqueue/registry-token\"\nconsole_token_file = \"/run/secrets/rustqueue/console-token\"\nconsole_management_enabled = "@
        + truth(s.console_management_enabled) + "\nkodo_cleanup_enabled = false\n# secret: "@
        + secret_name + "\n"@ + (if s.client_tls_secret_name is Some {
        "\n[security.tls]\ncertificate_file = \"/run/tls/rustqueue/tls.crt\"\nprivate_key_file = \"/run/tls/rustqueue/tls.key\"\nclient_ca_file = \"/run/tls/rustqueue/ca.crt\"\nrequire_client_certificate = false\nrequired = false\n"@
    } else {
        ""@
    })
}

/// The configuration of the brokers.
pub open spec fn config_text(cluster: RustQueue, secret_name: Seq<char>) -> Seq<char> {
    storage_text(cluster.spec) + queue_text(cluster.spec) + limits_text(cluster.spec)
        + security_text(cluster.spec, secret_name)
}

fn storage_section(s: &RustQueueSpec) -> (r: String)
    ensures
        r@ == storage_text(*s),
{
    reveal(storage_text);
    let large = s.kodo_compatibility.enabled || s.max_message_bytes > 67108864;
    let mut r = "[storage]\ndata_path = \"/data\"\nfeature_level = ".to_owned();
    r.append(text::decimal(s.storage_feature_level as u64).as_str());
    r.append("\nmax_segment_bytes = ");
    r.append(
        text::decimal(
            if large {
                268435456
            } else {
                104857600
            },
        ).as_str(),
    );
    r.append("\nmin_free_bytes = ");
    r.append(text::decimal(s.min_free_bytes).as_str());
    r.append("\ndisk_high_watermark_percent = ");
    r.append(text::decimal(s.disk_high_watermark_percent as u64).as_str());
    r.append("\ndisk_low_watermark_percent = ");
    r.append(text::decimal(s.disk_low_watermark_percent as u64).as_str());
    r.append("\nprotective_eviction_enabled = ");
    r.append(truth_text(s.protective_eviction_enabled));
    r.append("\ndisk_pressure_grace_seconds = ");
    r.append(text::decimal(s.disk_pressure_grace_seconds).as_str());
    r.append("\nmaintenance_startup_delay_seconds = ");
    r.append(text::decimal(s.maintenance_startup_delay_seconds).as_str());
    r
}

fn queue_section(s: &RustQueueSpec) -> (r: String)
    ensures
        r@ == queue_text(*s),
{
    reveal(queue_text);
    let mut r = "\n\n[queue]\nbootstrap_retention_seconds = ".to_owned();
    r.append(text::decimal(s.bootstrap_retention_seconds).as_str());
    r.append("\nmax_message_bytes = ");
    r.append(text::decimal(s.max_message_bytes as u64).as_str());
    r.append("\nmax_topics = ");
    r.append(text::decimal(s.max_topics as u64).as_str());
    r.append("\nmax_publish_workers = ");
    r.append(text::decimal(s.max_publish_workers as u64).as_str());
    r.append("\npublish_worker_idle_seconds = ");
    r.append(text::decimal(s.publish_worker_idle_seconds).as_str());
    r
}

fn limits_section(s: &RustQueueSpec) -> (r: String)
    ensures
        r@ == limits_text(*s),
{
    reveal(limits_text);
    let large = s.kodo_compatibility.enabled || s.max_message_bytes > 67108864;
    let body: u64 = if s.kodo_compatibility.enabled {
        134217728
    } else if s.max_message_bytes > 67108864 {
        s.max_message_bytes as u64
    } else {
        67108864
    };
    let mut r = "\n\n[limits]\nmax_body_bytes = ".to_owned();
    r.append(text::decimal(body).as_str());
    r.append("\nnode_publish_inflight_bytes = ");
    r.append(
        text::decimal(
            if large {
                1073741824
            } else {
                536870912
            },
        ).as_str(),
    );
    r.append("\nconnection_publish_inflight_bytes = ");
    r.append(
        text::decimal(
            if large {
                167772160
            } else {
                83886080
            },
        ).as_str(),
    );
    r.append("\nnode_delivery_inflight_bytes = ");
    r.append(text::decimal(s.node_delivery_inflight_bytes as u64).as_str());
    r.append("\nconnection_delivery_inflight_bytes = ");
    r.append(text::decimal(s.connection_delivery_inflight_bytes as u64).as_str());
    r.append("\ndisconnect_on_retriable_publish_error = false");
    r
}

fn security_section(s: &RustQueueSpec, secret_name: &str) -> (r: String)
    ensures
        r@ == security_text(*s, secret_name@),
{
    reveal(security_text);
    let mut r = "\n\n[metrics]\ndetailed_queue_metrics = ".to_owned();
    r.append(truth_text(s.detailed_queue_metrics));
    r.append("\nmax_detailed_series = ");
    r.append(text::decimal(s.max_detailed_metric_series as u64).as_str());
    r.append("\n\n[security]\nadmin_token_file = \"/run/secrets/rustqueue/admin-token\"\n");
    r.append(
        if s.kodo_compatibility.enabled {
            "publish_token_file = \"/run/secrets/rustqueue/admin-token\"\n"
        } else {
            ""
        },
    );
    r.append(
        "registry_token_file = \"/run/secrets/rustqueue/registry-token\"\nconsole_token_file = \"/run/secrets/rustqueue/console-token\"\nconsole_management_enabled = ",
    );
    r.append(truth_text(s.console_management_enabled));
    r.append("\nkodo_cleanup_enabled = false\n# secret: ");
    r.append(secret_name);
    r.append("\n");
    r.append(
        if s.client_tls_secret_name.is_some() {
            "\n[security.tls]\ncertificate_file = \"/run/tls/rustqueue/tls.crt\"\nprivate_key_file = \"/run/tls/rustqueue/tls.key\"\nclient_ca_file = \"/run/tls/rustqueue/ca.crt\"\nrequire_client_certificate = false\nrequired = false\n"
        } else {
            ""
        },
    );
    r
}

/// The configuration of the brokers.
pub fn broker_config(cluster: &RustQueue, secret_name: &str) -> (r: String)
    ensures
        r@ == config_text(*cluster, secret_name@),
{
    let mut r = storage_section(&cluster.spec);
    r.append(queue_section(&cluster.spec).as_str());
    r.append(limits_section(&cluster.spec).as_str());
    r.append(security_section(&cluster.spec, secret_name).as_str());
    r
}

// What the configuration says.

/// Whether messages can be larger than by default.
pub open spec fn large_messages(s: RustQueueSpec) -> bool {
    s.kodo_compatibility.enabled || s.max_message_bytes > 64 * 1024 * 1024
}

/// How large the segments of the storage may grow: by default, and for large messages.
pub open spec fn segment_bytes(s: RustQueueSpec) -> nat {
    if large_messages(s) {
        256 * 1024 * 1024
    } else {
        100 * 1024 * 1024
    }
}

/// The largest body: twice the default for Kodo, and else what the largest message needs.
pub open spec fn largest_body(s: RustQueueSpec) -> nat {
    if s.kodo_compatibility.enabled {
        128 * 1024 * 1024
    } else if s.max_message_bytes as nat > 64 * 1024 * 1024 {
        s.max_message_bytes as nat
    } else {
        64 * 1024 * 1024
    }
}

/// Each setting of the storage has the value of the field of its name: the high watermark is
/// the high one, and the low watermark the low one.
pub proof fn law_storage_settings_are_those_of_the_spec(s: RustQueueSpec)
    ensures
        text::assigns(storage_text(s), "feature_level"@, text::dec(s.storage_feature_level as nat)),
        text::assigns(storage_text(s), "max_segment_bytes"@, text::dec(segment_bytes(s))),
        text::assigns(storage_text(s), "min_free_bytes"@, text::dec(s.min_free_bytes as nat)),
        text::assigns(storage_text(s), "disk_high_watermark_percent"@, text::dec(s.disk_high_watermark_percent as nat)),
        text::assigns(storage_text(s), "disk_low_watermark_percent"@, text::dec(s.disk_low_watermark_percent as nat)),
        text::assigns(storage_text(s), "protective_eviction_enabled"@, if s.protective_eviction_enabled { "true"@ } else { "false"@ }),
        text::assigns(storage_text(s), "disk_pressure_grace_seconds"@, text::dec(s.disk_pressure_grace_seconds as nat)),
        text::assigns(storage_text(s), "maintenance_startup_delay_seconds"@, text::dec(s.maintenance_startup_delay_seconds as nat)),
        text::starts(storage_text(s), "[storage]\n"@),
{
    reveal(storage_text);
    reveal_strlit("[storage]\ndata_path = \"/data\"\nfeature_level = ");
    reveal_strlit("feature_level");
    reveal_strlit("\nmax_segment_bytes = ");
    reveal_strlit("max_segment_bytes");
    reveal_strlit("\nmin_free_bytes = ");
    reveal_strlit("min_free_bytes");
    reveal_strlit("\ndisk_high_watermark_percent = ");
    reveal_strlit("disk_high_watermark_percent");
    reveal_strlit("\ndisk_low_watermark_percent = ");
    reveal_strlit("disk_low_watermark_percent");
    reveal_strlit("\nprotective_eviction_enabled = ");
    reveal_strlit("protective_eviction_enabled");
    reveal_strlit("\ndisk_pressure_grace_seconds = ");
    reveal_strlit("disk_pressure_grace_seconds");
    reveal_strlit("\nmaintenance_startup_delay_seconds = ");
    reveal_strlit("maintenance_startup_delay_seconds");
    reveal_strlit(" = ");
    reveal_strlit("\n");
    reveal_strlit("[storage]\n");
    reveal_strlit("[storage]\ndata_path = \"/data\"\n");
    let h0 = "[storage]\ndata_path = \"/data\"\nfeature_level = "@;
    assert(h0 =~= "[storage]\ndata_path = \"/data\"\n"@ + "feature_level"@ + " = "@);
    let h1 = "\nmax_segment_bytes = "@;
    assert(h1 =~= "\n"@ + "max_segment_bytes"@ + " = "@);
    let h2 = "\nmin_free_bytes = "@;
    assert(h2 =~= "\n"@ + "min_free_bytes"@ + " = "@);
    let h3 = "\ndisk_high_watermark_percent = "@;
    assert(h3 =~= "\n"@ + "disk_high_watermark_percent"@ + " = "@);
    let h4 = "\ndisk_low_watermark_percent = "@;
    assert(h4 =~= "\n"@ + "disk_low_watermark_percent"@ + " = "@);
    let h5 = "\nprotective_eviction_enabled = "@;
    assert(h5 =~= "\n"@ + "protective_eviction_enabled"@ + " = "@);
    let h6 = "\ndisk_pressure_grace_seconds = "@;
    assert(h6 =~= "\n"@ + "disk_pressure_grace_seconds"@ + " = "@);
    let h7 = "\nmaintenance_startup_delay_seconds = "@;
    assert(h7 =~= "\n"@ + "maintenance_startup_delay_seconds"@ + " = "@);
    let empty = Seq::<char>::empty();
    let t0 = h0 + text::dec(s.storage_feature_level as nat);
    assert(empty + h0 + text::dec(s.storage_feature_level as nat) + empty =~= t0);
    text::lemma_assigned(empty, h0, "[storage]\ndata_path = \"/data\"\n"@, "feature_level"@, text::dec(s.storage_feature_level as nat), empty);
    let t1 = t0 + h1 + text::dec(segment_bytes(s));
    assert(t0 + h1 + text::dec(segment_bytes(s)) + empty =~= t1);
    text::lemma_assigned(t0, h1, "\n"@, "max_segment_bytes"@, text::dec(segment_bytes(s)), empty);
    assert(t1 =~= t0 + (h1 + text::dec(segment_bytes(s))));
    text::lemma_assigns_sum(t0, h1 + text::dec(segment_bytes(s)), "feature_level"@, text::dec(s.storage_feature_level as nat));
    let t2 = t1 + h2 + text::dec(s.min_free_bytes as nat);
    assert(t1 + h2 + text::dec(s.min_free_bytes as nat) + empty =~= t2);
    text::lemma_assigned(t1, h2, "\n"@, "min_free_bytes"@, text::dec(s.min_free_bytes as nat), empty);
    assert(t2 =~= t1 + (h2 + text::dec(s.min_free_bytes as nat)));
    text::lemma_assigns_sum(t1, h2 + text::dec(s.min_free_bytes as nat), "feature_level"@, text::dec(s.storage_feature_level as nat));
    text::lemma_assigns_sum(t1, h2 + text::dec(s.min_free_bytes as nat), "max_segment_bytes"@, text::dec(segment_bytes(s)));
    let t3 = t2 + h3 + text::dec(s.disk_high_watermark_percent as nat);
    assert(t2 + h3 + text::dec(s.disk_high_watermark_percent as nat) + empty =~= t3);
    text::lemma_assigned(t2, h3, "\n"@, "disk_high_watermark_percent"@, text::dec(s.disk_high_watermark_percent as nat), empty);
    assert(t3 =~= t2 + (h3 + text::dec(s.disk_high_watermark_percent as nat)));
    text::lemma_assigns_sum(t2, h3 + text::dec(s.disk_high_watermark_percent as nat), "feature_level"@, text::dec(s.storage_feature_level as nat));
    text::lemma_assigns_sum(t2, h3 + text::dec(s.disk_high_watermark_percent as nat), "max_segment_bytes"@, text::dec(segment_bytes(s)));
    text::lemma_assigns_sum(t2, h3 + text::dec(s.disk_high_watermark_percent as nat), "min_free_bytes"@, text::dec(s.min_free_bytes as nat));
    let t4 = t3 + h4 + text::dec(s.disk_low_watermark_percent as nat);
    assert(t3 + h4 + text::dec(s.disk_low_watermark_percent as nat) + empty =~= t4);
    text::lemma_assigned(t3, h4, "\n"@, "disk_low_watermark_percent"@, text::dec(s.disk_low_watermark_percent as nat), empty);
    assert(t4 =~= t3 + (h4 + text::dec(s.disk_low_watermark_percent as nat)));
    text::lemma_assigns_sum(t3, h4 + text::dec(s.disk_low_watermark_percent as nat), "feature_level"@, text::dec(s.storage_feature_level as nat));
    text::lemma_assigns_sum(t3, h4 + text::dec(s.disk_low_watermark_percent as nat), "max_segment_bytes"@, text::dec(segment_bytes(s)));
    text::lemma_assigns_sum(t3, h4 + text::dec(s.disk_low_watermark_percent as nat), "min_free_bytes"@, text::dec(s.min_free_bytes as nat));
    text::lemma_assigns_sum(t3, h4 + text::dec(s.disk_low_watermark_percent as nat), "disk_high_watermark_percent"@, text::dec(s.disk_high_watermark_percent as nat));
    let t5 = t4 + h5 + truth(s.protective_eviction_enabled);
    assert(t4 + h5 + truth(s.protective_eviction_enabled) + empty =~= t5);
    text::lemma_assigned(t4, h5, "\n"@, "protective_eviction_enabled"@, truth(s.protective_eviction_enabled), empty);
    assert(t5 =~= t4 + (h5 + truth(s.protective_eviction_enabled)));
    text::lemma_assigns_sum(t4, h5 + truth(s.protective_eviction_enabled), "feature_level"@, text::dec(s.storage_feature_level as nat));
    text::lemma_assigns_sum(t4, h5 + truth(s.protective_eviction_enabled), "max_segment_bytes"@, text::dec(segment_bytes(s)));
    text::lemma_assigns_sum(t4, h5 + truth(s.protective_eviction_enabled), "min_free_bytes"@, text::dec(s.min_free_bytes as nat));
    text::lemma_assigns_sum(t4, h5 + truth(s.protective_eviction_enabled), "disk_high_watermark_percent"@, text::dec(s.disk_high_watermark_percent as nat));
    text::lemma_assigns_sum(t4, h5 + truth(s.protective_eviction_enabled), "disk_low_watermark_percent"@, text::dec(s.disk_low_watermark_percent as nat));
    let t6 = t5 + h6 + text::dec(s.disk_pressure_grace_seconds as nat);
    assert(t5 + h6 + text::dec(s.disk_pressure_grace_seconds as nat) + empty =~= t6);
    text::lemma_assigned(t5, h6, "\n"@, "disk_pressure_grace_seconds"@, text::dec(s.disk_pressure_grace_seconds as nat), empty);
    assert(t6 =~= t5 + (h6 + text::dec(s.disk_pressure_grace_seconds as nat)));
    text::lemma_assigns_sum(t5, h6 + text::dec(s.disk_pressure_grace_seconds as nat), "feature_level"@, text::dec(s.storage_feature_level as nat));
    text::lemma_assigns_sum(t5, h6 + text::dec(s.disk_pressure_grace_seconds as nat), "max_segment_bytes"@, text::dec(segment_bytes(s)));
    text::lemma_assigns_sum(t5, h6 + text::dec(s.disk_pressure_grace_seconds as nat), "min_free_bytes"@, text::dec(s.min_free_bytes as nat));
    text::lemma_assigns_sum(t5, h6 + text::dec(s.disk_pressure_grace_seconds as nat), "disk_high_watermark_percent"@, text::dec(s.disk_high_watermark_percent as nat));
    text::lemma_assigns_sum(t5, h6 + text::dec(s.disk_pressure_grace_seconds as nat), "disk_low_watermark_percent"@, text::dec(s.disk_low_watermark_percent as nat));
    text::lemma_assigns_sum(t5, h6 + text::dec(s.disk_pressure_grace_seconds as nat), "protective_eviction_enabled"@, truth(s.protective_eviction_enabled));
    let t7 = t6 + h7 + text::dec(s.maintenance_startup_delay_seconds as nat);
    assert(t6 + h7 + text::dec(s.maintenance_startup_delay_seconds as nat) + empty =~= t7);
    text::lemma_assigned(t6, h7, "\n"@, "maintenance_startup_delay_seconds"@, text::dec(s.maintenance_startup_delay_seconds as nat), empty);
    assert(t7 =~= t6 + (h7 + text::dec(s.maintenance_startup_delay_seconds as nat)));
    text::lemma_assigns_sum(t6, h7 + text::dec(s.maintenance_startup_delay_seconds as nat), "feature_level"@, text::dec(s.storage_feature_level as nat));
    text::lemma_assigns_sum(t6, h7 + text::dec(s.maintenance_startup_delay_seconds as nat), "max_segment_bytes"@, text::dec(segment_bytes(s)));
    text::lemma_assigns_sum(t6, h7 + text::dec(s.maintenance_startup_delay_seconds as nat), "min_free_bytes"@, text::dec(s.min_free_bytes as nat));
    text::lemma_assigns_sum(t6, h7 + text::dec(s.maintenance_startup_delay_seconds as nat), "disk_high_watermark_percent"@, text::dec(s.disk_high_watermark_percent as nat));
    text::lemma_assigns_sum(t6, h7 + text::dec(s.maintenance_startup_delay_seconds as nat), "disk_low_watermark_percent"@, text::dec(s.disk_low_watermark_percent as nat));
    text::lemma_assigns_sum(t6, h7 + text::dec(s.maintenance_startup_delay_seconds as nat), "protective_eviction_enabled"@, truth(s.protective_eviction_enabled));
    text::lemma_assigns_sum(t6, h7 + text::dec(s.maintenance_startup_delay_seconds as nat), "disk_pressure_grace_seconds"@, text::dec(s.disk_pressure_grace_seconds as nat));
    assert(storage_text(s) =~= t7);
    assert(storage_text(s).take("[storage]\n"@.len() as int) =~= "[storage]\n"@);
}

/// Each setting of the queue has the value of the field of its name.
pub proof fn law_queue_settings_are_those_of_the_spec(s: RustQueueSpec)
    ensures
        text::assigns(queue_text(s), "bootstrap_retention_seconds"@, text::dec(s.bootstrap_retention_seconds as nat)),
        text::assigns(queue_text(s), "max_message_bytes"@, text::dec(s.max_message_bytes as nat)),
        text::assigns(queue_text(s), "max_topics"@, text::dec(s.max_topics as nat)),
        text::assigns(queue_text(s), "max_publish_workers"@, text::dec(s.max_publish_workers as nat)),
        text::assigns(queue_text(s), "publish_worker_idle_seconds"@, text::dec(s.publish_worker_idle_seconds as nat)),
        text::starts(queue_text(s), "\n\n[queue]\n"@),
{
    reveal(queue_text);
    reveal_strlit("\n\n[queue]\nbootstrap_retention_seconds = ");
    reveal_strlit("bootstrap_retention_seconds");
    reveal_strlit("\nmax_message_bytes = ");
    reveal_strlit("max_message_bytes");
    reveal_strlit("\nmax_topics = ");
    reveal_strlit("max_topics");
    reveal_strlit("\nmax_publish_workers = ");
    reveal_strlit("max_publish_workers");
    reveal_strlit("\npublish_worker_idle_seconds = ");
    reveal_strlit("publish_worker_idle_seconds");
    reveal_strlit(" = ");
    reveal_strlit("\n");
    reveal_strlit("\n\n[queue]\n");
    let h0 = "\n\n[queue]\nbootstrap_retention_seconds = "@;
    assert(h0 =~= "\n\n[queue]\n"@ + "bootstrap_retention_seconds"@ + " = "@);
    let h1 = "\nmax_message_bytes = "@;
    assert(h1 =~= "\n"@ + "max_message_bytes"@ + " = "@);
    let h2 = "\nmax_topics = "@;
    assert(h2 =~= "\n"@ + "max_topics"@ + " = "@);
    let h3 = "\nmax_publish_workers = "@;
    assert(h3 =~= "\n"@ + "max_publish_workers"@ + " = "@);
    let h4 = "\npublish_worker_idle_seconds = "@;
    assert(h4 =~= "\n"@ + "publish_worker_idle_seconds"@ + " = "@);
    let empty = Seq::<char>::empty();
    let t0 = h0 + text::dec(s.bootstrap_retention_seconds as nat);
    assert(empty + h0 + text::dec(s.bootstrap_retention_seconds as nat) + empty =~= t0);
    text::lemma_assigned(empty, h0, "\n\n[queue]\n"@, "bootstrap_retention_seconds"@, text::dec(s.bootstrap_retention_seconds as nat), empty);
    let t1 = t0 + h1 + text::dec(s.max_message_bytes as nat);
    assert(t0 + h1 + text::dec(s.max_message_bytes as nat) + empty =~= t1);
    text::lemma_assigned(t0, h1, "\n"@, "max_message_bytes"@, text::dec(s.max_message_bytes as nat), empty);
    assert(t1 =~= t0 + (h1 + text::dec(s.max_message_bytes as nat)));
    text::lemma_assigns_sum(t0, h1 + text::dec(s.max_message_bytes as nat), "bootstrap_retention_seconds"@, text::dec(s.bootstrap_retention_seconds as nat));
    let t2 = t1 + h2 + text::dec(s.max_topics as nat);
    assert(t1 + h2 + text::dec(s.max_topics as nat) + empty =~= t2);
    text::lemma_assigned(t1, h2, "\n"@, "max_topics"@, text::dec(s.max_topics as nat), empty);
    assert(t2 =~= t1 + (h2 + text::dec(s.max_topics as nat)));
    text::lemma_assigns_sum(t1, h2 + text::dec(s.max_topics as nat), "bootstrap_retention_seconds"@, text::dec(s.bootstrap_retention_seconds as nat));
    text::lemma_assigns_sum(t1, h2 + text::dec(s.max_topics as nat), "max_message_bytes"@, text::dec(s.max_message_bytes as nat));
    let t3 = t2 + h3 + text::dec(s.max_publish_workers as nat);
    assert(t2 + h3 + text::dec(s.max_publish_workers as nat) + empty =~= t3);
    text::lemma_assigned(t2, h3, "\n"@, "max_publish_workers"@, text::dec(s.max_publish_workers as nat), empty);
    assert(t3 =~= t2 + (h3 + text::dec(s.max_publish_workers as nat)));
    text::lemma_assigns_sum(t2, h3 + text::dec(s.max_publish_workers as nat), "bootstrap_retention_seconds"@, text::dec(s.bootstrap_retention_seconds as nat));
    text::lemma_assigns_sum(t2, h3 + text::dec(s.max_publish_workers as nat), "max_message_bytes"@, text::dec(s.max_message_bytes as nat));
    text::lemma_assigns_sum(t2, h3 + text::dec(s.max_publish_workers as nat), "max_topics"@, text::dec(s.max_topics as nat));
    let t4 = t3 + h4 + text::dec(s.publish_worker_idle_seconds as nat);
    assert(t3 + h4 + text::dec(s.publish_worker_idle_seconds as nat) + empty =~= t4);
    text::lemma_assigned(t3, h4, "\n"@, "publish_worker_idle_seconds"@, text::dec(s.publish_worker_idle_seconds as nat), empty);
    assert(t4 =~= t3 + (h4 + text::dec(s.publish_worker_idle_seconds as nat)));
    text::lemma_assigns_sum(t3, h4 + text::dec(s.publish_worker_idle_seconds as nat), "bootstrap_retention_seconds"@, text::dec(s.bootstrap_retention_seconds as nat));
    text::lemma_assigns_sum(t3, h4 + text::dec(s.publish_worker_idle_seconds as nat), "max_message_bytes"@, text::dec(s.max_message_bytes as nat));
    text::lemma_assigns_sum(t3, h4 + text::dec(s.publish_worker_idle_seconds as nat), "max_topics"@, text::dec(s.max_topics as nat));
    text::lemma_assigns_sum(t3, h4 + text::dec(s.publish_worker_idle_seconds as nat), "max_publish_workers"@, text::dec(s.max_publish_workers as nat));
    assert(queue_text(s) =~= t4);
    assert(queue_text(s).take("\n\n[queue]\n"@.len() as int) =~= "\n\n[queue]\n"@);
}

/// The limits on deliveries are those of the spec, and those on publishing grow with the largest
/// message.
pub proof fn law_limits_are_those_of_the_spec(s: RustQueueSpec)
    ensures
        text::assigns(limits_text(s), "max_body_bytes"@, text::dec(largest_body(s))),
        text::assigns(limits_text(s), "node_publish_inflight_bytes"@, text::dec(if large_messages(s) { 1073741824 } else { 536870912 })),
        text::assigns(limits_text(s), "connection_publish_inflight_bytes"@, text::dec(if large_messages(s) { 167772160 } else { 83886080 })),
        text::assigns(limits_text(s), "node_delivery_inflight_bytes"@, text::dec(s.node_delivery_inflight_bytes as nat)),
        text::assigns(limits_text(s), "connection_delivery_inflight_bytes"@, text::dec(s.connection_delivery_inflight_bytes as nat)),
        text::starts(limits_text(s), "\n\n[limits]\n"@),
{
    reveal(limits_text);
    reveal_strlit("\n\n[limits]\nmax_body_bytes = ");
    reveal_strlit("max_body_bytes");
    reveal_strlit("\nnode_publish_inflight_bytes = ");
    reveal_strlit("node_publish_inflight_bytes");
    reveal_strlit("\nconnection_publish_inflight_bytes = ");
    reveal_strlit("connection_publish_inflight_bytes");
    reveal_strlit("\nnode_delivery_inflight_bytes = ");
    reveal_strlit("node_delivery_inflight_bytes");
    reveal_strlit("\nconnection_delivery_inflight_bytes = ");
    reveal_strlit("connection_delivery_inflight_bytes");
    reveal_strlit(" = ");
    reveal_strlit("\n");
    reveal_strlit("\n\n[limits]\n");
    reveal_strlit("\ndisconnect_on_retriable_publish_error = false");
    let h0 = "\n\n[limits]\nmax_body_bytes = "@;
    assert(h0 =~= "\n\n[limits]\n"@ + "max_body_bytes"@ + " = "@);
    let h1 = "\nnode_publish_inflight_bytes = "@;
    assert(h1 =~= "\n"@ + "node_publish_inflight_bytes"@ + " = "@);
    let h2 = "\nconnection_publish_inflight_bytes = "@;
    assert(h2 =~= "\n"@ + "connection_publish_inflight_bytes"@ + " = "@);
    let h3 = "\nnode_delivery_inflight_bytes = "@;
    assert(h3 =~= "\n"@ + "node_delivery_inflight_bytes"@ + " = "@);
    let h4 = "\nconnection_delivery_inflight_bytes = "@;
    assert(h4 =~= "\n"@ + "connection_delivery_inflight_bytes"@ + " = "@);
    let empty = Seq::<char>::empty();
    let t0 = h0 + text::dec(largest_body(s));
    assert(empty + h0 + text::dec(largest_body(s)) + empty =~= t0);
    text::lemma_assigned(empty, h0, "\n\n[limits]\n"@, "max_body_bytes"@, text::dec(largest_body(s)), empty);
    let t1 = t0 + h1 + text::dec(if large_messages(s) { 1073741824 } else { 536870912 });
    assert(t0 + h1 + text::dec(if large_messages(s) { 1073741824 } else { 536870912 }) + empty =~= t1);
    text::lemma_assigned(t0, h1, "\n"@, "node_publish_inflight_bytes"@, text::dec(if large_messages(s) { 1073741824 } else { 536870912 }), empty);
    assert(t1 =~= t0 + (h1 + text::dec(if large_messages(s) { 1073741824 } else { 536870912 })));
    text::lemma_assigns_sum(t0, h1 + text::dec(if large_messages(s) { 1073741824 } else { 536870912 }), "max_body_bytes"@, text::dec(largest_body(s)));
    let t2 = t1 + h2 + text::dec(if large_messages(s) { 167772160 } else { 83886080 });
    assert(t1 + h2 + text::dec(if large_messages(s) { 167772160 } else { 83886080 }) + empty =~= t2);
    text::lemma_assigned(t1, h2, "\n"@, "connection_publish_inflight_bytes"@, text::dec(if large_messages(s) { 167772160 } else { 83886080 }), empty);
    assert(t2 =~= t1 + (h2 + text::dec(if large_messages(s) { 167772160 } else { 83886080 })));
    text::lemma_assigns_sum(t1, h2 + text::dec(if large_messages(s) { 167772160 } else { 83886080 }), "max_body_bytes"@, text::dec(largest_body(s)));
    text::lemma_assigns_sum(t1, h2 + text::dec(if large_messages(s) { 167772160 } else { 83886080 }), "node_publish_inflight_bytes"@, text::dec(if large_messages(s) { 1073741824 } else { 536870912 }));
    let t3 = t2 + h3 + text::dec(s.node_delivery_inflight_bytes as nat);
    assert(t2 + h3 + text::dec(s.node_delivery_inflight_bytes as nat) + empty =~= t3);
    text::lemma_assigned(t2, h3, "\n"@, "node_delivery_inflight_bytes"@, text::dec(s.node_delivery_inflight_bytes as nat), empty);
    assert(t3 =~= t2 + (h3 + text::dec(s.node_delivery_inflight_bytes as nat)));
    text::lemma_assigns_sum(t2, h3 + text::dec(s.node_delivery_inflight_bytes as nat), "max_body_bytes"@, text::dec(largest_body(s)));
    text::lemma_assigns_sum(t2, h3 + text::dec(s.node_delivery_inflight_bytes as nat), "node_publish_inflight_bytes"@, text::dec(if large_messages(s) { 1073741824 } else { 536870912 }));
    text::lemma_assigns_sum(t2, h3 + text::dec(s.node_delivery_inflight_bytes as nat), "connection_publish_inflight_bytes"@, text::dec(if large_messages(s) { 167772160 } else { 83886080 }));
    let t4 = t3 + h4 + text::dec(s.connection_delivery_inflight_bytes as nat);
    assert(t3 + h4 + text::dec(s.connection_delivery_inflight_bytes as nat) + empty =~= t4);
    text::lemma_assigned(t3, h4, "\n"@, "connection_delivery_inflight_bytes"@, text::dec(s.connection_delivery_inflight_bytes as nat), empty);
    assert(t4 =~= t3 + (h4 + text::dec(s.connection_delivery_inflight_bytes as nat)));
    text::lemma_assigns_sum(t3, h4 + text::dec(s.connection_delivery_inflight_bytes as nat), "max_body_bytes"@, text::dec(largest_body(s)));
    text::lemma_assigns_sum(t3, h4 + text::dec(s.connection_delivery_inflight_bytes as nat), "node_publish_inflight_bytes"@, text::dec(if large_messages(s) { 1073741824 } else { 536870912 }));
    text::lemma_assigns_sum(t3, h4 + text::dec(s.connection_delivery_inflight_bytes as nat), "connection_publish_inflight_bytes"@, text::dec(if large_messages(s) { 167772160 } else { 83886080 }));
    text::lemma_assigns_sum(t3, h4 + text::dec(s.connection_delivery_inflight_bytes as nat), "node_delivery_inflight_bytes"@, text::dec(s.node_delivery_inflight_bytes as nat));
    let end = "\ndisconnect_on_retriable_publish_error = false"@;
    text::lemma_assigns_sum(t4, end, "max_body_bytes"@, text::dec(largest_body(s)));
    text::lemma_assigns_sum(t4, end, "node_publish_inflight_bytes"@, text::dec(if large_messages(s) { 1073741824 } else { 536870912 }));
    text::lemma_assigns_sum(t4, end, "connection_publish_inflight_bytes"@, text::dec(if large_messages(s) { 167772160 } else { 83886080 }));
    text::lemma_assigns_sum(t4, end, "node_delivery_inflight_bytes"@, text::dec(s.node_delivery_inflight_bytes as nat));
    text::lemma_assigns_sum(t4, end, "connection_delivery_inflight_bytes"@, text::dec(s.connection_delivery_inflight_bytes as nat));
    assert(limits_text(s) =~= t4 + end);
    assert(limits_text(s).take("\n\n[limits]\n"@.len() as int) =~= "\n\n[limits]\n"@);
}

/// Metrics and the console are switched as the spec says; producers of Kodo publish with the
/// token that operators have, and no one else is given one; and certificates are read exactly
/// where a secret holds them.
#[verifier::spinoff_prover]
#[verifier::rlimit(100)]
pub proof fn law_security_settings_are_those_of_the_spec(s: RustQueueSpec, secret_name: Seq<char>)
    ensures
        text::assigns(
            security_text(s, secret_name),
            "detailed_queue_metrics"@,
            if s.detailed_queue_metrics { "true"@ } else { "false"@ },
        ),
        text::assigns(
            security_text(s, secret_name),
            "max_detailed_series"@,
            text::dec(s.max_detailed_metric_series as nat),
        ),
        text::assigns(
            security_text(s, secret_name),
            "console_management_enabled"@,
            if s.console_management_enabled { "true"@ } else { "false"@ },
        ),
        text::assigns(
            security_text(s, secret_name),
            "admin_token_file"@,
            "\"/run/secrets/rustqueue/admin-token\""@,
        ),
        s.kodo_compatibility.enabled ==> text::assigns(
            security_text(s, secret_name),
            "publish_token_file"@,
            "\"/run/secrets/rustqueue/admin-token\""@,
        ),
        s.client_tls_secret_name is Some ==> text::assigns(
            security_text(s, secret_name),
            "certificate_file"@,
            "\"/run/tls/rustqueue/tls.crt\""@,
        ),
{
    reveal(security_text);
    let metrics = "\n\n[metrics]\ndetailed_queue_metrics = "@;
    let series = "\nmax_detailed_series = "@;
    let admin = "\n\n[security]\nadmin_token_file = \"/run/secrets/rustqueue/admin-token\"\n"@;
    let publish = if s.kodo_compatibility.enabled {
        "publish_token_file = \"/run/secrets/rustqueue/admin-token\"\n"@
    } else {
        ""@
    };
    let console =
        "registry_token_file = \"/run/secrets/rustqueue/registry-token\"\nconsole_token_file = \"/run/secrets/rustqueue/console-token\"\nconsole_management_enabled = "@;
    let secret = "\nkodo_cleanup_enabled = false\n# secret: "@;
    let tls = if s.client_tls_secret_name is Some {
        "\n[security.tls]\ncertificate_file = \"/run/tls/rustqueue/tls.crt\"\nprivate_key_file = \"/run/tls/rustqueue/tls.key\"\nclient_ca_file = \"/run/tls/rustqueue/ca.crt\"\nrequire_client_certificate = false\nrequired = false\n"@
    } else {
        ""@
    };
    let detailed = truth(s.detailed_queue_metrics);
    let count = text::dec(s.max_detailed_metric_series as nat);
    let managed = truth(s.console_management_enabled);
    let empty = Seq::<char>::empty();
    let t = security_text(s, secret_name);
    let file = "\"/run/secrets/rustqueue/admin-token\""@;
    let after_console = secret + secret_name + "\n"@ + tls;
    let after_admin = publish + (console + managed + after_console);
    let after_series = admin + after_admin;
    let before_admin = metrics + detailed + series + count;
    let before_console = before_admin + admin + publish;
    assert(t =~= before_admin + after_series);
    assert(text::assigns(t, "detailed_queue_metrics"@, detailed)) by {
        reveal_strlit(" = ");
        reveal_strlit("\n\n[metrics]\ndetailed_queue_metrics = ");
        reveal_strlit("\n\n[metrics]\n");
        reveal_strlit("detailed_queue_metrics");
        reveal_strlit("\nmax_detailed_series = ");
        assert(metrics =~= "\n\n[metrics]\n"@ + "detailed_queue_metrics"@ + " = "@);
        let rest = series + count + after_series;
        assert(t =~= empty + metrics + detailed + rest);
        text::lemma_assigned(
            empty,
            metrics,
            "\n\n[metrics]\n"@,
            "detailed_queue_metrics"@,
            detailed,
            rest,
        );
    }
    assert(text::assigns(t, "max_detailed_series"@, count)) by {
        reveal_strlit(" = ");
        reveal_strlit("\n");
        reveal_strlit("\nmax_detailed_series = ");
        reveal_strlit("max_detailed_series");
        reveal_strlit("\n\n[security]\nadmin_token_file = \"/run/secrets/rustqueue/admin-token\"\n");
        assert(series =~= "\n"@ + "max_detailed_series"@ + " = "@);
        assert(t =~= (metrics + detailed) + series + count + after_series);
        assert(after_series[0] == admin[0]);
        text::lemma_assigned(
            metrics + detailed,
            series,
            "\n"@,
            "max_detailed_series"@,
            count,
            after_series,
        );
    }
    assert(text::assigns(t, "admin_token_file"@, file)) by {
        lemma_admin_line(admin);
        reveal_strlit("\n");
        let head = "\n\n[security]\n"@ + "admin_token_file"@ + " = "@;
        let new_line = "\n"@ + after_admin;
        assert(t =~= before_admin + head + file + new_line);
        reveal_strlit("\n\n[security]\n");
        text::lemma_assigned(
            before_admin,
            head,
            "\n\n[security]\n"@,
            "admin_token_file"@,
            file,
            new_line,
        );
    }
    if s.kodo_compatibility.enabled {
        assert(text::assigns(t, "publish_token_file"@, file)) by {
            lemma_admin_line(admin);
            lemma_publish_line(publish);
            reveal_strlit("\n");
            let line = "\n"@ + "publish_token_file"@ + " = "@;
            let body = "\n\n[security]\n"@ + "admin_token_file"@ + " = "@ + file;
            let after = console + managed + after_console;
            let behind = "\n"@ + after;
            assert(admin + publish =~= body + line + file + "\n"@);
            assert(t =~= before_admin + (admin + publish) + after);
            assert(t =~= (before_admin + body) + line + file + behind);
            text::lemma_assigned(
                before_admin + body,
                line,
                "\n"@,
                "publish_token_file"@,
                file,
                behind,
            );
        }
    }
    assert(text::assigns(t, "console_management_enabled"@, managed)) by {
        let tokens =
            "registry_token_file = \"/run/secrets/rustqueue/registry-token\"\nconsole_token_file = \"/run/secrets/rustqueue/console-token\"\n"@;
        lemma_console_line(console, tokens);
        reveal_strlit("\nkodo_cleanup_enabled = false\n# secret: ");
        assert(after_console[0] == secret[0]);
        assert(t =~= before_console + console + managed + after_console);
        text::lemma_assigned(
            before_console,
            console,
            tokens,
            "console_management_enabled"@,
            managed,
            after_console,
        );
    }
    if s.client_tls_secret_name is Some {
        assert(text::assigns(t, "certificate_file"@, "\"/run/tls/rustqueue/tls.crt\""@)) by {
            let line = "\n[security.tls]\n"@ + "certificate_file"@ + " = "@;
            let path = "\"/run/tls/rustqueue/tls.crt\""@;
            let others = lemma_tls_line(tls);
            let before_tls = before_console + console + managed + secret + secret_name + "\n"@;
            assert(t =~= before_tls + tls);
            assert(t =~= before_tls + line + path + others);
            reveal_strlit("\n[security.tls]\n");
            text::lemma_assigned(
                before_tls,
                line,
                "\n[security.tls]\n"@,
                "certificate_file"@,
                path,
                others,
            );
        }
    }
}

proof fn lemma_admin_line(admin: Seq<char>)
    requires
        admin
            == "\n\n[security]\nadmin_token_file = \"/run/secrets/rustqueue/admin-token\"\n"@,
    ensures
        admin == "\n\n[security]\n"@ + "admin_token_file"@ + " = "@
            + "\"/run/secrets/rustqueue/admin-token\""@ + "\n"@,
{
    reveal_strlit("\n\n[security]\nadmin_token_file = \"/run/secrets/rustqueue/admin-token\"\n");
    reveal_strlit("\n\n[security]\n");
    reveal_strlit("admin_token_file");
    reveal_strlit(" = ");
    reveal_strlit("\"/run/secrets/rustqueue/admin-token\"");
    reveal_strlit("\n");
    assert(admin =~= "\n\n[security]\n"@ + "admin_token_file"@ + " = "@
        + "\"/run/secrets/rustqueue/admin-token\""@ + "\n"@);
}

proof fn lemma_publish_line(publish: Seq<char>)
    requires
        publish == "publish_token_file = \"/run/secrets/rustqueue/admin-token\"\n"@,
    ensures
        publish == "publish_token_file"@ + " = "@ + "\"/run/secrets/rustqueue/admin-token\""@
            + "\n"@,
{
    reveal_strlit("publish_token_file = \"/run/secrets/rustqueue/admin-token\"\n");
    reveal_strlit("publish_token_file");
    reveal_strlit(" = ");
    reveal_strlit("\"/run/secrets/rustqueue/admin-token\"");
    reveal_strlit("\n");
    assert(publish =~= "publish_token_file"@ + " = "@
        + "\"/run/secrets/rustqueue/admin-token\""@ + "\n"@);
}

proof fn lemma_console_line(console: Seq<char>, tokens: Seq<char>)
    requires
        console
            == "registry_token_file = \"/run/secrets/rustqueue/registry-token\"\nconsole_token_file = \"/run/secrets/rustqueue/console-token\"\nconsole_management_enabled = "@,
        tokens
            == "registry_token_file = \"/run/secrets/rustqueue/registry-token\"\nconsole_token_file = \"/run/secrets/rustqueue/console-token\"\n"@,
    ensures
        console == tokens + "console_management_enabled"@ + " = "@,
        tokens.len() > 0,
        tokens.last() == '\n',
{
    reveal_strlit(
        "registry_token_file = \"/run/secrets/rustqueue/registry-token\"\nconsole_token_file = \"/run/secrets/rustqueue/console-token\"\nconsole_management_enabled = ",
    );
    reveal_strlit(
        "registry_token_file = \"/run/secrets/rustqueue/registry-token\"\nconsole_token_file = \"/run/secrets/rustqueue/console-token\"\n",
    );
    reveal_strlit("console_management_enabled");
    reveal_strlit(" = ");
    assert(console =~= tokens + "console_management_enabled"@ + " = "@);
}

proof fn lemma_tls_line(tls: Seq<char>) -> (others: Seq<char>)
    requires
        tls
            == "\n[security.tls]\ncertificate_file = \"/run/tls/rustqueue/tls.crt\"\nprivate_key_file = \"/run/tls/rustqueue/tls.key\"\nclient_ca_file = \"/run/tls/rustqueue/ca.crt\"\nrequire_client_certificate = false\nrequired = false\n"@,
    ensures
        tls == "\n[security.tls]\n"@ + "certificate_file"@ + " = "@
            + "\"/run/tls/rustqueue/tls.crt\""@ + others,
        others.len() > 0,
        others[0] == '\n',
{
    reveal_strlit(
        "\n[security.tls]\ncertificate_file = \"/run/tls/rustqueue/tls.crt\"\nprivate_key_file = \"/run/tls/rustqueue/tls.key\"\nclient_ca_file = \"/run/tls/rustqueue/ca.crt\"\nrequire_client_certificate = false\nrequired = false\n",
    );
    reveal_strlit("\n[security.tls]\n");
    reveal_strlit("certificate_file");
    reveal_strlit(" = ");
    reveal_strlit("\"/run/tls/rustqueue/tls.crt\"");
    let head = "\n[security.tls]\n"@ + "certificate_file"@ + " = "@
        + "\"/run/tls/rustqueue/tls.crt\""@;
    let others = tls.skip(head.len() as int);
    assert(tls =~= head + others);
    others
}

/// The configuration has the parts for the storage, the queue, the limits and the security, in
/// this order.
pub proof fn law_configurations_have_all_their_parts(cluster: RustQueue, secret_name: Seq<char>)
    ensures
        text::starts(config_text(cluster, secret_name), storage_text(cluster.spec)),
        text::starts(
            config_text(cluster, secret_name).skip(storage_text(cluster.spec).len() as int),
            queue_text(cluster.spec) + limits_text(cluster.spec),
        ),
        text::ends(config_text(cluster, secret_name), security_text(cluster.spec, secret_name)),
{
    let t = config_text(cluster, secret_name);
    let a = storage_text(cluster.spec);
    let b = queue_text(cluster.spec) + limits_text(cluster.spec);
    let c = security_text(cluster.spec, secret_name);
    assert(t =~= a + b + c);
    assert(t.take(a.len() as int) =~= a);
    assert(t.skip(a.len() as int).take(b.len() as int) =~= b);
    assert(t.skip(t.len() - c.len()) =~= c);
}

// Parts of documents.

/// Tolerations, as documents.
pub open spec fn tolerations_json(v: Seq<BrokerToleration>) -> Seq<JsonView>
    decreases v.len(),
{
    if v.len() == 0 {
        json::none()
    } else {
        tolerations_json(v.drop_last()).push(toleration_json(v.last()))
    }
}

fn tolerations(v: &Vec<BrokerToleration>) -> (r: Vec<Value>)
    ensures
        json::all_held(r@) == tolerations_json(v@),
{
    let mut items = Items::new();
    let mut i: usize = 0;
    assert(v@.take(0) =~= Seq::<BrokerToleration>::empty());
    while i < v.len()
        invariant
            i <= v@.len(),
            items@ == tolerations_json(v@.take(i as int)),
        decreases v@.len() - i,
    {
        assert(v@.take(i + 1).drop_last() =~= v@.take(i as int));
        assert(v@.take(i + 1).last() == v@[i as int]);
        items = items.item(toleration(&v[i]));
        i += 1;
    }
    assert(v@.take(v@.len() as int) =~= v@);
    items.done()
}

/// The limits of a workload, if it has any.
pub open spec fn workload_limits(r: WorkloadResources) -> JsonView {
    let cpu = match r.cpu_limit {
        Some(c) => JsonView::object().text("cpu"@, c@),
        None => JsonView::object(),
    };
    match r.memory_limit {
        Some(m) => cpu.text("memory"@, m@),
        None => cpu,
    }
}

/// What a workload requests and is limited to.
pub open spec fn workload_json(r: WorkloadResources) -> JsonView {
    let requests = JsonView::object().with(
        "requests"@,
        JsonView::object().text("cpu"@, r.cpu_request@).text("memory"@, r.memory_request@),
    );
    if r.cpu_limit is Some || r.memory_limit is Some {
        requests.with("limits"@, workload_limits(r))
    } else {
        requests
    }
}

fn workload_resources(resources: &WorkloadResources) -> (r: Doc)
    ensures
        r@ == workload_json(*resources),
        r@ is Object,
{
    let requests = Doc::new().doc(
        "requests",
        Doc::new().text("cpu", resources.cpu_request.as_str()).text(
            "memory",
            resources.memory_request.as_str(),
        ),
    );
    if resources.cpu_limit.is_none() && resources.memory_limit.is_none() {
        return requests;
    }
    let cpu = match &resources.cpu_limit {
        Some(c) => Doc::new().text("cpu", c.as_str()),
        None => Doc::new(),
    };
    let limits = match &resources.memory_limit {
        Some(m) => cpu.text("memory", m.as_str()),
        None => cpu,
    };
    requests.doc("limits", limits)
}

/// A volume that holds a secret.
pub open spec fn secret_volume(name: Seq<char>, secret: Seq<char>) -> JsonView {
    JsonView::object().text("name"@, name).with(
        "secret"@,
        JsonView::object().text("secretName"@, secret),
    )
}

/// A place where a volume can be read.
pub open spec fn read_mount(name: Seq<char>, path: Seq<char>) -> JsonView {
    JsonView::object().text("name"@, name).text("mountPath"@, path).flag("readOnly"@, true)
}

fn read_mount_doc(name: &str, path: &str) -> (r: Doc)
    ensures
        r@ == read_mount(name@, path@),
        r@ is Object,
{
    Doc::new().text("name", name).text("mountPath", path).flag("readOnly", true)
}

fn secret_volume_doc(name: &str, secret: &str) -> (r: Doc)
    ensures
        r@ == secret_volume(name@, secret@),
        r@ is Object,
{
    Doc::new().text("name", name).doc("secret", Doc::new().text("secretName", secret))
}

/// The volumes of a broker.
pub open spec fn broker_volumes_json(i: BuildInput<'_>, f: FrameView) -> Seq<JsonView> {
    let v = json::none().push(
        JsonView::object().text("name"@, "config"@).with(
            "configMap"@,
            JsonView::object().text("name"@, f.name + "-config"@),
        ),
    ).push(secret_volume("auth"@, i.secret_name@));
    match i.cluster.spec.client_tls_secret_name {
        Some(tls) => v.push(secret_volume("client-tls"@, tls@)),
        None => v,
    }
}

fn broker_volumes(i: &BuildInput<'_>, f: &Frame<'_>) -> (r: Vec<Value>)
    ensures
        json::all_held(r@) == broker_volumes_json(*i, f@),
{
    let v = Items::new().doc(
        Doc::new().text("name", "config").doc(
            "configMap",
            Doc::new().text("name", suffixed(f.name, "-config").as_str()),
        ),
    ).doc(secret_volume_doc("auth", i.secret_name));
    match &i.cluster.spec.client_tls_secret_name {
        Some(tls) => v.doc(secret_volume_doc("client-tls", tls.as_str())).done(),
        None => v.done(),
    }
}

/// Where the volumes of a broker are.
pub open spec fn broker_mounts_json(i: BuildInput<'_>) -> Seq<JsonView> {
    let v = json::none().push(
        JsonView::object().text("name"@, "data"@).text("mountPath"@, "/data"@),
    ).push(read_mount("config"@, "/etc/rustqueue"@)).push(
        read_mount("auth"@, "/run/secrets/rustqueue"@),
    );
    if i.cluster.spec.client_tls_secret_name is Some {
        v.push(read_mount("client-tls"@, "/run/tls/rustqueue"@))
    } else {
        v
    }
}

fn broker_mounts(i: &BuildInput<'_>) -> (r: Vec<Value>)
    ensures
        json::all_held(r@) == broker_mounts_json(*i),
{
    let v = Items::new().doc(Doc::new().text("name", "data").text("mountPath", "/data")).doc(
        read_mount_doc("config", "/etc/rustqueue"),
    ).doc(read_mount_doc("auth", "/run/secrets/rustqueue"));
    if i.cluster.spec.client_tls_secret_name.is_some() {
        v.doc(read_mount_doc("client-tls", "/run/tls/rustqueue")).done()
    } else {
        v.done()
    }
}

/// The labels that the Discovery service selects, or that discovery pods have.
pub open spec fn discovery_selector(name: Seq<char>, kodo: Option<bool>) -> Seq<
    (Seq<char>, Seq<char>),
> {
    let base = component_entries(base_entries(name), "discovery"@);
    match kodo {
        Some(k) => string_map::put(
            base,
            "rustqueue.io/discovery-publisher-mode"@,
            if k {
                "kodo"@
            } else {
                "direct"@
            },
        ),
        None => base,
    }
}

fn discovery_selector_of(name: &str, kodo: Option<bool>) -> (r: StringMap)
    ensures
        r@ == discovery_selector(name@, kodo),
{
    let mut m = labels_for(&base_labels(name), "discovery");
    if let Some(k) = kodo {
        m.insert(
            "rustqueue.io/discovery-publisher-mode",
            if k {
                "kodo"
            } else {
                "direct"
            },
        );
    }
    m
}

/// A variable and its value.
pub open spec fn variable(name: Seq<char>, value: Seq<char>) -> JsonView {
    JsonView::object().text("name"@, name).text("value"@, value)
}

fn variable_doc(name: &str, value: &str) -> (r: Doc)
    ensures
        r@ == variable(name@, value@),
        r@ is Object,
{
    Doc::new().text("name", name).text("value", value)
}

/// The environment of Discovery.
pub open spec fn discovery_env_json(i: BuildInput<'_>, f: FrameView) -> Seq<JsonView> {
    let v = json::none().push(
        JsonView::object().text("name"@, "POD_NAMESPACE"@).with(
            "valueFrom"@,
            JsonView::object().with(
                "fieldRef"@,
                JsonView::object().text("fieldPath"@, "metadata.namespace"@),
            ),
        ),
    ).push(variable("RUSTQUEUE_BROKER_SERVICE"@, f.name + "-brokers"@)).push(
        variable("RUSTQUEUE_REGISTRY_TOKEN_FILE"@, "/run/secrets/rustqueue/registry-token"@),
    );
    if i.advertise_kodo_gateways {
        v.push(variable("RUSTQUEUE_KODO_COMPATIBILITY_ENABLED"@, "true"@)).push(
            variable("RUSTQUEUE_KODO_CLEANUP_ENABLED"@, "false"@),
        ).push(
            variable(
                "RUSTQUEUE_KODO_GATEWAY_ADDRESS"@,
                (f.name + "-kodo-publish"@) + "."@ + f.namespace + ".svc"@,
            ),
        )
    } else {
        v
    }
}

fn discovery_env(i: &BuildInput<'_>, f: &Frame<'_>) -> (r: Vec<Value>)
    ensures
        json::all_held(r@) == discovery_env_json(*i, f@),
{
    let v = Items::new().doc(
        Doc::new().text("name", "POD_NAMESPACE").doc(
            "valueFrom",
            Doc::new().doc("fieldRef", Doc::new().text("fieldPath", "metadata.namespace")),
        ),
    ).doc(
        variable_doc("RUSTQUEUE_BROKER_SERVICE", suffixed(f.name, "-brokers").as_str()),
    ).doc(
        variable_doc("RUSTQUEUE_REGISTRY_TOKEN_FILE", "/run/secrets/rustqueue/registry-token"),
    );
    if i.advertise_kodo_gateways {
        let mut address = suffixed(f.name, "-kodo-publish");
        address.append(".");
        address.append(f.namespace);
        address.append(".svc");
        v.doc(variable_doc("RUSTQUEUE_KODO_COMPATIBILITY_ENABLED", "true")).doc(
            variable_doc("RUSTQUEUE_KODO_CLEANUP_ENABLED", "false"),
        ).doc(variable_doc("RUSTQUEUE_KODO_GATEWAY_ADDRESS", address.as_str())).done()
    } else {
        v.done()
    }
}

/// A TCP port.
pub open spec fn tcp_port(port: int) -> JsonView {
    JsonView::object().text("protocol"@, "TCP"@).number("port"@, port)
}

fn tcp_port_doc(port: i64) -> (r: Doc)
    ensures
        r@ == tcp_port(port as int),
        r@ is Object,
{
    Doc::new().text("protocol", "TCP").number("port", port)
}

/// Everybody.
pub open spec fn any_namespace() -> JsonView {
    JsonView::object().with("namespaceSelector"@, JsonView::object())
}

fn any_namespace_doc() -> (r: Doc)
    ensures
        r@ == any_namespace(),
        r@ is Object,
{
    Doc::new().doc("namespaceSelector", Doc::new())
}

/// Who may reach which ports of the brokers: everybody, except that publishing is
/// left to the cluster and to Kodo where it is served.
#[verifier::opaque]
pub open spec fn broker_ingress_json(i: BuildInput<'_>, f: FrameView) -> Seq<JsonView> {
    let k = i.cluster.spec.kodo_compatibility;
    if k.enabled {
        json::none().push(
            JsonView::object().list(
                "from"@,
                json::none().push(
                    JsonView::object().with(
                        "podSelector"@,
                        JsonView::object().with(
                            "matchLabels"@,
                            JsonView::object().text("app.kubernetes.io/instance"@, f.name),
                        ),
                    ),
                ).push(kodo::peer_json(k)),
            ).list("ports"@, json::none().push(tcp_port(4150))),
        ).push(
            JsonView::object().list("from"@, json::none().push(any_namespace())).list(
                "ports"@,
                json::none().push(tcp_port(4151)),
            ),
        )
    } else {
        json::none().push(
            JsonView::object().list("from"@, json::none().push(any_namespace())).list(
                "ports"@,
                json::none().push(tcp_port(4150)).push(tcp_port(4151)),
            ),
        )
    }
}

fn broker_ingress(i: &BuildInput<'_>, f: &Frame<'_>) -> (r: Vec<Value>)
    ensures
        json::all_held(r@) == broker_ingress_json(*i, f@),
{
    reveal(broker_ingress_json);
    let k = &i.cluster.spec.kodo_compatibility;
    if k.enabled {
        let instance = Doc::new().doc(
            "podSelector",
            Doc::new().doc(
                "matchLabels",
                Doc::new().text("app.kubernetes.io/instance", f.name),
            ),
        );
        Items::new().doc(
            Doc::new().list(
                "from",
                Items::new().doc(instance).doc(kodo::allowed_peer(k)).done(),
            ).list("ports", Items::new().doc(tcp_port_doc(4150)).done()),
        ).doc(
            Doc::new().list("from", Items::new().doc(any_namespace_doc()).done()).list(
                "ports",
                Items::new().doc(tcp_port_doc(4151)).done(),
            ),
        ).done()
    } else {
        Items::new().doc(
            Doc::new().list("from", Items::new().doc(any_namespace_doc()).done()).list(
                "ports",
                Items::new().doc(tcp_port_doc(4150)).doc(tcp_port_doc(4151)).done(),
            ),
        ).done()
    }
}

/// How many brokers stay up: all but one, and at least one.
pub open spec fn kept_brokers(replicas: i32) -> int {
    if replicas <= 2 {
        1
    } else {
        replicas - 1
    }
}

/// The replicas of Discovery: at least two.
pub open spec fn discovery_count(replicas: i32) -> int {
    if replicas >= 2 {
        replicas as int
    } else {
        2
    }
}

// Documents.

/// What containers are denied.
#[verifier::opaque]
pub open spec fn container_security_json() -> JsonView {
    JsonView::object()
        .flag("allowPrivilegeEscalation"@, false)
        .flag("readOnlyRootFilesystem"@, true)
        .with(
            "capabilities"@,
            JsonView::object()
                .list(
                    "drop"@,
                    json::none()
                        .push(JsonView::Text("ALL"@)),
                ),
        )
}

fn container_security() -> (r: Doc)
    ensures
        r@ == container_security_json(),
        r@ is Object,
{
    reveal(container_security_json);
    Doc::new()
        .flag("allowPrivilegeEscalation", false)
        .flag("readOnlyRootFilesystem", true)
        .doc(
            "capabilities",
            Doc::new()
                .list(
                    "drop",
                    Items::new()
                        .text("ALL")
                        .done(),
                ),
        )
}

/// Who the containers of a pod run as.
#[verifier::opaque]
pub open spec fn pod_security_json() -> JsonView {
    JsonView::object()
        .flag("runAsNonRoot"@, true)
        .number("runAsUser"@, 65532)
        .number("runAsGroup"@, 65532)
        .with(
            "seccompProfile"@,
            JsonView::object()
                .text("type"@, "RuntimeDefault"@),
        )
}

fn pod_security() -> (r: Doc)
    ensures
        r@ == pod_security_json(),
        r@ is Object,
{
    reveal(pod_security_json);
    Doc::new()
        .flag("runAsNonRoot", true)
        .number("runAsUser", 65532)
        .number("runAsGroup", 65532)
        .doc(
            "seccompProfile",
            Doc::new()
                .text("type", "RuntimeDefault"),
        )
}

/// The metadata of a resource of the cluster.
#[verifier::opaque]
pub open spec fn metadata_json(f: FrameView, resource_name: Seq<char>, component: Seq<char>) -> JsonView {
    JsonView::object()
        .text("name"@, resource_name)
        .text("namespace"@, f.namespace)
        .with("labels"@, labels_json(f.name, component))
        .list(
            "ownerReferences"@,
            json::none()
                .push(f.owner),
        )
}

fn metadata(f: &Frame<'_>, resource_name: &str, component: &str) -> (r: Doc)
    ensures
        r@ == metadata_json(f@, resource_name@, component@),
        r@ is Object,
{
    reveal(metadata_json);
    Doc::new()
        .text("name", resource_name)
        .text("namespace", f.namespace)
        .doc("labels", labels(f.name, component))
        .list(
            "ownerReferences",
            Items::new()
                .item(json::json_copy(&f.owner))
                .done(),
        )
}

/// The reference to a cluster as an owner.
#[verifier::opaque]
pub open spec fn owner_json(name: Seq<char>, uid: Seq<char>) -> JsonView {
    JsonView::object()
        .text("apiVersion"@, "rustqueue.io/v1alpha1"@)
        .text("kind"@, "RustQueue"@)
        .text("name"@, name)
        .text("uid"@, uid)
        .flag("controller"@, true)
}

fn owner(name: &str, uid: &str) -> (r: Doc)
    ensures
        r@ == owner_json(name@, uid@),
        r@ is Object,
{
    reveal(owner_json);
    Doc::new()
        .text("apiVersion", "rustqueue.io/v1alpha1")
        .text("kind", "RustQueue")
        .text("name", name)
        .text("uid", uid)
        .flag("controller", true)
}

/// A toleration.
#[verifier::opaque]
pub open spec fn toleration_json(t: BrokerToleration) -> JsonView {
    JsonView::object()
        .opt_text("key"@, text::opt_text(t.key))
        .opt_text("operator"@, text::opt_text(t.operator))
        .opt_text("value"@, text::opt_text(t.value))
        .opt_text("effect"@, text::opt_text(t.effect))
        .opt_number("tolerationSeconds"@, t.toleration_seconds)
}

fn toleration(t: &BrokerToleration) -> (r: Value)
    ensures
        json::json_held(r) == toleration_json(*t),
{
    reveal(toleration_json);
    Doc::new()
        .opt_text("key", &t.key)
        .opt_text("operator", &t.operator)
        .opt_text("value", &t.value)
        .opt_text("effect", &t.effect)
        .opt_number("tolerationSeconds", t.toleration_seconds)
        .done()
}

/// Where broker pods may run.
#[verifier::opaque]
pub open spec fn scheduling_json(s: BrokerScheduling) -> JsonView {
    JsonView::object()
        .text("topologyKey"@, s.topology_key@)
        .opt_text("priorityClassName"@, text::opt_text(s.priority_class_name))
        .list("tolerations"@, tolerations_json(s.tolerations@))
}

fn scheduling(s: &BrokerScheduling) -> (r: Doc)
    ensures
        r@ == scheduling_json(*s),
        r@ is Object,
{
    reveal(scheduling_json);
    Doc::new()
        .text("topologyKey", s.topology_key.as_str())
        .opt_text("priorityClassName", &s.priority_class_name)
        .list("tolerations", tolerations(&s.tolerations))
}

/// What broker pods request and are limited to, in the contract of a revision.
#[verifier::opaque]
pub open spec fn resources_contract_json(w: WorkloadResources) -> JsonView {
    JsonView::object()
        .text("cpuRequest"@, w.cpu_request@)
        .text("memoryRequest"@, w.memory_request@)
        .opt_text("cpuLimit"@, text::opt_text(w.cpu_limit))
        .opt_text("memoryLimit"@, text::opt_text(w.memory_limit))
}

fn resources_contract(w: &WorkloadResources) -> (r: Doc)
    ensures
        r@ == resources_contract_json(*w),
        r@ is Object,
{
    reveal(resources_contract_json);
    Doc::new()
        .text("cpuRequest", w.cpu_request.as_str())
        .text("memoryRequest", w.memory_request.as_str())
        .opt_text("cpuLimit", &w.cpu_limit)
        .opt_text("memoryLimit", &w.memory_limit)
}

/// What a change of the brokers' revision rests on.
#[verifier::opaque]
pub open spec fn revision_contract_json(i: BuildInput<'_>) -> JsonView {
    JsonView::object()
        .text("image"@, i.image@)
        .text("imagePullPolicy"@, i.cluster.spec.image_pull_policy@)
        .text("config"@, config_text(*i.cluster, i.secret_name@))
        .text("secretName"@, i.secret_name@)
        .text("mountedSecretRevision"@, i.mounted_secret_revision@)
        .opt_text("clientTlsSecretName"@, text::opt_text(i.cluster.spec.client_tls_secret_name))
        .number("messageIndexCacheBytes"@, i.cluster.spec.message_index_cache_bytes as int)
        .text("eligibleNodeSelector"@, i.cluster.spec.eligible_node_selector@)
        .with("brokerScheduling"@, scheduling_json(i.cluster.spec.broker_scheduling))
        .with("brokerResources"@, resources_contract_json(i.cluster.spec.broker_resources))
}

fn revision_contract(i: &BuildInput<'_>) -> (r: Value)
    ensures
        json::json_held(r) == revision_contract_json(*i),
{
    reveal(revision_contract_json);
    Doc::new()
        .text("image", i.image)
        .text("imagePullPolicy", i.cluster.spec.image_pull_policy.as_str())
        .text("config", broker_config(i.cluster, i.secret_name).as_str())
        .text("secretName", i.secret_name)
        .text("mountedSecretRevision", i.mounted_secret_revision)
        .opt_text("clientTlsSecretName", &i.cluster.spec.client_tls_secret_name)
        .count("messageIndexCacheBytes", i.cluster.spec.message_index_cache_bytes as u64)
        .text("eligibleNodeSelector", i.cluster.spec.eligible_node_selector.as_str())
        .doc("brokerScheduling", scheduling(&i.cluster.spec.broker_scheduling))
        .doc("brokerResources", resources_contract(&i.cluster.spec.broker_resources))
        .done()
}

/// The configuration of the brokers.
#[verifier::opaque]
pub open spec fn config_json(i: BuildInput<'_>, f: FrameView) -> JsonView {
    JsonView::object()
        .text("apiVersion"@, "v1"@)
        .text("kind"@, "ConfigMap"@)
        .with("metadata"@, metadata_json(f, f.name + "-config"@, "broker"@))
        .with(
            "data"@,
            JsonView::object()
                .text("rustqueue.toml"@, config_text(*i.cluster, i.secret_name@)),
        )
}

fn config(i: &BuildInput<'_>, f: &Frame<'_>) -> (r: Value)
    ensures
        json::json_held(r) == config_json(*i, f@),
{
    reveal(config_json);
    Doc::new()
        .text("apiVersion", "v1")
        .text("kind", "ConfigMap")
        .doc("metadata", metadata(f, suffixed(f.name, "-config").as_str(), "broker"))
        .doc(
            "data",
            Doc::new()
                .text("rustqueue.toml", broker_config(i.cluster, i.secret_name).as_str()),
        )
        .done()
}

/// The account that pods run with.
#[verifier::opaque]
pub open spec fn service_account_json(f: FrameView) -> JsonView {
    JsonView::object()
        .text("apiVersion"@, "v1"@)
        .text("kind"@, "ServiceAccount"@)
        .with("metadata"@, metadata_json(f, f.name + "-runtime"@, "runtime"@))
}

fn service_account(f: &Frame<'_>) -> (r: Value)
    ensures
        json::json_held(r) == service_account_json(f@),
{
    reveal(service_account_json);
    Doc::new()
        .text("apiVersion", "v1")
        .text("kind", "ServiceAccount")
        .doc("metadata", metadata(f, suffixed(f.name, "-runtime").as_str(), "runtime"))
        .done()
}

/// What the account may do.
#[verifier::opaque]
pub open spec fn role_json(f: FrameView) -> JsonView {
    JsonView::object()
        .text("apiVersion"@, "rbac.authorization.k8s.io/v1"@)
        .text("kind"@, "Role"@)
        .with("metadata"@, metadata_json(f, f.name + "-runtime"@, "runtime"@))
        .list(
            "rules"@,
            json::none()
                .push(JsonView::object()
                    .list(
                        "apiGroups"@,
                        json::none()
                            .push(JsonView::Text("discovery.k8s.io"@)),
                    )
                    .list(
                        "resources"@,
                        json::none()
                            .push(JsonView::Text("endpointslices"@)),
                    )
                    .list(
                        "verbs"@,
                        json::none()
                            .push(JsonView::Text("get"@))
                            .push(JsonView::Text("list"@))
                            .push(JsonView::Text("watch"@)),
                    )),
        )
}

fn role(f: &Frame<'_>) -> (r: Value)
    ensures
        json::json_held(r) == role_json(f@),
{
    reveal(role_json);
    Doc::new()
        .text("apiVersion", "rbac.authorization.k8s.io/v1")
        .text("kind", "Role")
        .doc("metadata", metadata(f, suffixed(f.name, "-runtime").as_str(), "runtime"))
        .list(
            "rules",
            Items::new()
                .doc(Doc::new()
                    .list(
                        "apiGroups",
                        Items::new()
                            .text("discovery.k8s.io")
                            .done(),
                    )
                    .list(
                        "resources",
                        Items::new()
                            .text("endpointslices")
                            .done(),
                    )
                    .list(
                        "verbs",
                        Items::new()
                            .text("get")
                            .text("list")
                            .text("watch")
                            .done(),
                    ))
                .done(),
        )
        .done()
}

/// That the account may do it.
#[verifier::opaque]
pub open spec fn role_binding_json(f: FrameView) -> JsonView {
    JsonView::object()
        .text("apiVersion"@, "rbac.authorization.k8s.io/v1"@)
        .text("kind"@, "RoleBinding"@)
        .with("metadata"@, metadata_json(f, f.name + "-runtime"@, "runtime"@))
        .with(
            "roleRef"@,
            JsonView::object()
                .text("apiGroup"@, "rbac.authorization.k8s.io"@)
                .text("kind"@, "Role"@)
                .text("name"@, f.name + "-runtime"@),
        )
        .list(
            "subjects"@,
            json::none()
                .push(JsonView::object()
                    .text("kind"@, "ServiceAccount"@)
                    .text("name"@, f.name + "-runtime"@)
                    .text("namespace"@, f.namespace)),
        )
}

fn role_binding(f: &Frame<'_>) -> (r: Value)
    ensures
        json::json_held(r) == role_binding_json(f@),
{
    reveal(role_binding_json);
    Doc::new()
        .text("apiVersion", "rbac.authorization.k8s.io/v1")
        .text("kind", "RoleBinding")
        .doc("metadata", metadata(f, suffixed(f.name, "-runtime").as_str(), "runtime"))
        .doc(
            "roleRef",
            Doc::new()
                .text("apiGroup", "rbac.authorization.k8s.io")
                .text("kind", "Role")
                .text("name", suffixed(f.name, "-runtime").as_str()),
        )
        .list(
            "subjects",
            Items::new()
                .doc(Doc::new()
                    .text("kind", "ServiceAccount")
                    .text("name", suffixed(f.name, "-runtime").as_str())
                    .text("namespace", f.namespace))
                .done(),
        )
        .done()
}

/// The service that gives each broker its name.
#[verifier::opaque]
pub open spec fn broker_service_json(f: FrameView) -> JsonView {
    JsonView::object()
        .text("apiVersion"@, "v1"@)
        .text("kind"@, "Service"@)
        .with("metadata"@, metadata_json(f, f.name + "-brokers"@, "broker"@))
        .with(
            "spec"@,
            JsonView::object()
                .text("clusterIP"@, "None"@)
                .flag("publishNotReadyAddresses"@, true)
                .with("selector"@, labels_json(f.name, "broker"@))
                .list(
                    "ports"@,
                    json::none()
                        .push(JsonView::object()
                            .text("name"@, "tcp"@)
                            .number("port"@, 4150)
                            .text("targetPort"@, "tcp"@))
                        .push(JsonView::object()
                            .text("name"@, "http"@)
                            .number("port"@, 4151)
                            .text("targetPort"@, "http"@)),
                ),
        )
}

fn broker_service(f: &Frame<'_>) -> (r: Value)
    ensures
        json::json_held(r) == broker_service_json(f@),
{
    reveal(broker_service_json);
    Doc::new()
        .text("apiVersion", "v1")
        .text("kind", "Service")
        .doc("metadata", metadata(f, suffixed(f.name, "-brokers").as_str(), "broker"))
        .doc(
            "spec",
            Doc::new()
                .text("clusterIP", "None")
                .flag("publishNotReadyAddresses", true)
                .doc("selector", labels(f.name, "broker"))
                .list(
                    "ports",
                    Items::new()
                        .doc(Doc::new()
                            .text("name", "tcp")
                            .number("port", 4150)
                            .text("targetPort", "tcp"))
                        .doc(Doc::new()
                            .text("name", "http")
                            .number("port", 4151)
                            .text("targetPort", "http"))
                        .done(),
                ),
        )
        .done()
}

/// The container of a broker.
#[verifier::opaque]
pub open spec fn broker_container_json(i: BuildInput<'_>, f: FrameView) -> JsonView {
    JsonView::object()
        .text("name"@, "broker"@)
        .text("image"@, i.image@)
        .text("imagePullPolicy"@, i.cluster.spec.image_pull_policy@)
        .list(
            "command"@,
            json::none()
                .push(JsonView::Text("rustqueued"@)),
        )
        .list(
            "args"@,
            json::none()
                .push(JsonView::Text("--config"@))
                .push(JsonView::Text("/etc/rustqueue/rustqueue.toml"@)),
        )
        .list(
            "ports"@,
            json::none()
                .push(JsonView::object()
                    .text("name"@, "tcp"@)
                    .number("containerPort"@, 4150))
                .push(JsonView::object()
                    .text("name"@, "http"@)
                    .number("containerPort"@, 4151))
                .push(JsonView::object()
                    .text("name"@, "kodo-http"@)
                    .number("containerPort"@, 4152)),
        )
        .list(
            "env"@,
            json::none()
                .push(JsonView::object()
                    .text("name"@, "POD_NAME"@)
                    .with(
                        "valueFrom"@,
                        JsonView::object()
                            .with(
                                "fieldRef"@,
                                JsonView::object()
                                    .text("fieldPath"@, "metadata.name"@),
                            ),
                    ))
                .push(JsonView::object()
                    .text("name"@, "POD_NAMESPACE"@)
                    .with(
                        "valueFrom"@,
                        JsonView::object()
                            .with(
                                "fieldRef"@,
                                JsonView::object()
                                    .text("fieldPath"@, "metadata.namespace"@),
                            ),
                    ))
                .push(JsonView::object()
                    .text("name"@, "RUSTQUEUE_BROADCAST_ADDRESS"@)
                    .text("value"@, "$(POD_NAME)."@ + (f.name + "-brokers"@) + ".$(POD_NAMESPACE).svc"@))
                .push(JsonView::object()
                    .text("name"@, "RUSTQUEUE_DATA_PATH"@)
                    .text("value"@, "/data"@))
                .push(JsonView::object()
                    .text("name"@, "RUSTQUEUE_MESSAGE_INDEX_CACHE_BYTES"@)
                    .text("value"@, text::dec(i.cluster.spec.message_index_cache_bytes as nat))),
        )
        .list("volumeMounts"@, broker_mounts_json(i))
        .with("securityContext"@, container_security_json())
        .with(
            "readinessProbe"@,
            JsonView::object()
                .with(
                    "httpGet"@,
                    JsonView::object()
                        .text("path"@, "/v1/health"@)
                        .text("port"@, "http"@),
                )
                .number("periodSeconds"@, 2)
                .number("failureThreshold"@, 2),
        )
        .with(
            "livenessProbe"@,
            JsonView::object()
                .with(
                    "httpGet"@,
                    JsonView::object()
                        .text("path"@, "/ping"@)
                        .text("port"@, "http"@),
                )
                .number("periodSeconds"@, 10)
                .number("failureThreshold"@, 3),
        )
        .with("resources"@, workload_json(i.cluster.spec.broker_resources))
}

fn broker_container(i: &BuildInput<'_>, f: &Frame<'_>) -> (r: Doc)
    ensures
        r@ == broker_container_json(*i, f@),
        r@ is Object,
{
    reveal(broker_container_json);
    Doc::new()
        .text("name", "broker")
        .text("image", i.image)
        .text("imagePullPolicy", i.cluster.spec.image_pull_policy.as_str())
        .list(
            "command",
            Items::new()
                .text("rustqueued")
                .done(),
        )
        .list(
            "args",
            Items::new()
                .text("--config")
                .text("/etc/rustqueue/rustqueue.toml")
                .done(),
        )
        .list(
            "ports",
            Items::new()
                .doc(Doc::new()
                    .text("name", "tcp")
                    .number("containerPort", 4150))
                .doc(Doc::new()
                    .text("name", "http")
                    .number("containerPort", 4151))
                .doc(Doc::new()
                    .text("name", "kodo-http")
                    .number("containerPort", 4152))
                .done(),
        )
        .list(
            "env",
            Items::new()
                .doc(Doc::new()
                    .text("name", "POD_NAME")
                    .doc(
                        "valueFrom",
                        Doc::new()
                            .doc(
                                "fieldRef",
                                Doc::new()
                                    .text("fieldPath", "metadata.name"),
                            ),
                    ))
                .doc(Doc::new()
                    .text("name", "POD_NAMESPACE")
                    .doc(
                        "valueFrom",
                        Doc::new()
                            .doc(
                                "fieldRef",
                                Doc::new()
                                    .text("fieldPath", "metadata.namespace"),
                            ),
                    ))
                .doc(Doc::new()
                    .text("name", "RUSTQUEUE_BROADCAST_ADDRESS")
                    .text("value", around("$(POD_NAME).", suffixed(f.name, "-brokers").as_str(), ".$(POD_NAMESPACE).svc").as_str()))
                .doc(Doc::new()
                    .text("name", "RUSTQUEUE_DATA_PATH")
                    .text("value", "/data"))
                .doc(Doc::new()
                    .text("name", "RUSTQUEUE_MESSAGE_INDEX_CACHE_BYTES")
                    .text("value", text::decimal(i.cluster.spec.message_index_cache_bytes as u64).as_str()))
                .done(),
        )
        .list("volumeMounts", broker_mounts(i))
        .doc("securityContext", container_security())
        .doc(
            "readinessProbe",
            Doc::new()
                .doc(
                    "httpGet",
                    Doc::new()
                        .text("path", "/v1/health")
                        .text("port", "http"),
                )
                .number("periodSeconds", 2)
                .number("failureThreshold", 2),
        )
        .doc(
            "livenessProbe",
            Doc::new()
                .doc(
                    "httpGet",
                    Doc::new()
                        .text("path", "/ping")
                        .text("port", "http"),
                )
                .number("periodSeconds", 10)
                .number("failureThreshold", 3),
        )
        .doc("resources", workload_resources(&i.cluster.spec.broker_resources))
}

/// The pod of a broker.
#[verifier::opaque]
pub open spec fn broker_pod_json(i: BuildInput<'_>, f: FrameView, selector: Seq<(Seq<char>, Seq<char>)>) -> JsonView {
    JsonView::object()
        .text("serviceAccountName"@, f.name + "-runtime"@)
        .number("terminationGracePeriodSeconds"@, 45)
        .with(
            "securityContext"@,
            JsonView::object()
                .flag("runAsNonRoot"@, true)
                .number("runAsUser"@, 65532)
                .number("runAsGroup"@, 65532)
                .number("fsGroup"@, 65532)
                .text("fsGroupChangePolicy"@, "OnRootMismatch"@)
                .with(
                    "seccompProfile"@,
                    JsonView::object()
                        .text("type"@, "RuntimeDefault"@),
                ),
        )
        .with("nodeSelector"@, json::entries_json(selector))
        .with(
            "affinity"@,
            JsonView::object()
                .with(
                    "podAntiAffinity"@,
                    JsonView::object()
                        .list(
                            "requiredDuringSchedulingIgnoredDuringExecution"@,
                            json::none()
                                .push(JsonView::object()
                                    .with(
                                        "labelSelector"@,
                                        JsonView::object()
                                            .with("matchLabels"@, labels_json(f.name, "broker"@)),
                                    )
                                    .text("topologyKey"@, i.cluster.spec.broker_scheduling.topology_key@)),
                        ),
                ),
        )
        .opt_text("priorityClassName"@, text::opt_text(i.cluster.spec.broker_scheduling.priority_class_name))
        .list("tolerations"@, tolerations_json(i.cluster.spec.broker_scheduling.tolerations@))
        .list(
            "containers"@,
            json::none()
                .push(broker_container_json(i, f)),
        )
        .list("volumes"@, broker_volumes_json(i, f))
}

fn broker_pod(i: &BuildInput<'_>, f: &Frame<'_>, selector: &StringMap) -> (r: Doc)
    ensures
        r@ == broker_pod_json(*i, f@, selector@),
        r@ is Object,
{
    reveal(broker_pod_json);
    Doc::new()
        .text("serviceAccountName", suffixed(f.name, "-runtime").as_str())
        .number("terminationGracePeriodSeconds", 45)
        .doc(
            "securityContext",
            Doc::new()
                .flag("runAsNonRoot", true)
                .number("runAsUser", 65532)
                .number("runAsGroup", 65532)
                .number("fsGroup", 65532)
                .text("fsGroupChangePolicy", "OnRootMismatch")
                .doc(
                    "seccompProfile",
                    Doc::new()
                        .text("type", "RuntimeDefault"),
                ),
        )
        .doc("nodeSelector", Doc::of_map(selector))
        .doc(
            "affinity",
            Doc::new()
                .doc(
                    "podAntiAffinity",
                    Doc::new()
                        .list(
                            "requiredDuringSchedulingIgnoredDuringExecution",
                            Items::new()
                                .doc(Doc::new()
                                    .doc(
                                        "labelSelector",
                                        Doc::new()
                                            .doc("matchLabels", labels(f.name, "broker")),
                                    )
                                    .text("topologyKey", i.cluster.spec.broker_scheduling.topology_key.as_str()))
                                .done(),
                        ),
                ),
        )
        .opt_text("priorityClassName", &i.cluster.spec.broker_scheduling.priority_class_name)
        .list("tolerations", tolerations(&i.cluster.spec.broker_scheduling.tolerations))
        .list(
            "containers",
            Items::new()
                .doc(broker_container(i, f))
                .done(),
        )
        .list("volumes", broker_volumes(i, f))
}

/// The brokers.
#[verifier::opaque]
pub open spec fn brokers_json(i: BuildInput<'_>, f: FrameView, selector: Seq<(Seq<char>, Seq<char>)>) -> JsonView {
    JsonView::object()
        .text("apiVersion"@, "apps/v1"@)
        .text("kind"@, "StatefulSet"@)
        .with("metadata"@, metadata_json(f, f.name, "broker"@))
        .with(
            "spec"@,
            JsonView::object()
                .text("serviceName"@, f.name + "-brokers"@)
                .number("replicas"@, i.replicas as int)
                .text("podManagementPolicy"@, "Parallel"@)
                .with(
                    "updateStrategy"@,
                    JsonView::object()
                        .text("type"@, "OnDelete"@),
                )
                .with(
                    "persistentVolumeClaimRetentionPolicy"@,
                    JsonView::object()
                        .text("whenDeleted"@, "Retain"@)
                        .text("whenScaled"@, "Retain"@),
                )
                .with(
                    "selector"@,
                    JsonView::object()
                        .with("matchLabels"@, labels_json(f.name, "broker"@)),
                )
                .with(
                    "template"@,
                    JsonView::object()
                        .with(
                            "metadata"@,
                            JsonView::object()
                                .with("labels"@, labels_json(f.name, "broker"@))
                                .with(
                                    "annotations"@,
                                    JsonView::object()
                                        .text("rustqueue.io/revision"@, f.revision),
                                ),
                        )
                        .with("spec"@, broker_pod_json(i, f, selector)),
                )
                .list(
                    "volumeClaimTemplates"@,
                    json::none()
                        .push(JsonView::object()
                            .with(
                                "metadata"@,
                                JsonView::object()
                                    .text("name"@, "data"@)
                                    .with("labels"@, labels_json(f.name, "broker"@)),
                            )
                            .with(
                                "spec"@,
                                JsonView::object()
                                    .list(
                                        "accessModes"@,
                                        json::none()
                                            .push(JsonView::Text("ReadWriteOnce"@)),
                                    )
                                    .text("storageClassName"@, i.cluster.spec.storage_class_name@)
                                    .with(
                                        "resources"@,
                                        JsonView::object()
                                            .with(
                                                "requests"@,
                                                JsonView::object()
                                                    .text("storage"@, i.claim_template_size@),
                                            ),
                                    ),
                            )),
                ),
        )
}

fn brokers(i: &BuildInput<'_>, f: &Frame<'_>, selector: &StringMap) -> (r: Value)
    ensures
        json::json_held(r) == brokers_json(*i, f@, selector@),
{
    reveal(brokers_json);
    Doc::new()
        .text("apiVersion", "apps/v1")
        .text("kind", "StatefulSet")
        .doc("metadata", metadata(f, f.name, "broker"))
        .doc(
            "spec",
            Doc::new()
                .text("serviceName", suffixed(f.name, "-brokers").as_str())
                .number("replicas", i.replicas as i64)
                .text("podManagementPolicy", "Parallel")
                .doc(
                    "updateStrategy",
                    Doc::new()
                        .text("type", "OnDelete"),
                )
                .doc(
                    "persistentVolumeClaimRetentionPolicy",
                    Doc::new()
                        .text("whenDeleted", "Retain")
                        .text("whenScaled", "Retain"),
                )
                .doc(
                    "selector",
                    Doc::new()
                        .doc("matchLabels", labels(f.name, "broker")),
                )
                .doc(
                    "template",
                    Doc::new()
                        .doc(
                            "metadata",
                            Doc::new()
                                .doc("labels", labels(f.name, "broker"))
                                .doc(
                                    "annotations",
                                    Doc::new()
                                        .text("rustqueue.io/revision", f.revision.as_str()),
                                ),
                        )
                        .doc("spec", broker_pod(i, f, selector)),
                )
                .list(
                    "volumeClaimTemplates",
                    Items::new()
                        .doc(Doc::new()
                            .doc(
                                "metadata",
                                Doc::new()
                                    .text("name", "data")
                                    .doc("labels", labels(f.name, "broker")),
                            )
                            .doc(
                                "spec",
                                Doc::new()
                                    .list(
                                        "accessModes",
                                        Items::new()
                                            .text("ReadWriteOnce")
                                            .done(),
                                    )
                                    .text("storageClassName", i.cluster.spec.storage_class_name.as_str())
                                    .doc(
                                        "resources",
                                        Doc::new()
                                            .doc(
                                                "requests",
                                                Doc::new()
                                                    .text("storage", i.claim_template_size),
                                            ),
                                    ),
                            ))
                        .done(),
                ),
        )
        .done()
}

/// How many brokers stay up: all but one, and at least one.
#[verifier::opaque]
pub open spec fn broker_pdb_json(i: BuildInput<'_>, f: FrameView) -> JsonView {
    JsonView::object()
        .text("apiVersion"@, "policy/v1"@)
        .text("kind"@, "PodDisruptionBudget"@)
        .with("metadata"@, metadata_json(f, f.name + "-brokers"@, "broker"@))
        .with(
            "spec"@,
            JsonView::object()
                .number("minAvailable"@, kept_brokers(i.replicas))
                .with(
                    "selector"@,
                    JsonView::object()
                        .with("matchLabels"@, labels_json(f.name, "broker"@)),
                ),
        )
}

fn broker_pdb(i: &BuildInput<'_>, f: &Frame<'_>) -> (r: Value)
    ensures
        json::json_held(r) == broker_pdb_json(*i, f@),
{
    reveal(broker_pdb_json);
    Doc::new()
        .text("apiVersion", "policy/v1")
        .text("kind", "PodDisruptionBudget")
        .doc("metadata", metadata(f, suffixed(f.name, "-brokers").as_str(), "broker"))
        .doc(
            "spec",
            Doc::new()
                .number("minAvailable", if i.replicas <= 2 { 1 } else { (i.replicas - 1) as i64 })
                .doc(
                    "selector",
                    Doc::new()
                        .doc("matchLabels", labels(f.name, "broker")),
                ),
        )
        .done()
}

/// The service of Discovery.
#[verifier::opaque]
pub open spec fn discovery_service_json(i: BuildInput<'_>, f: FrameView) -> JsonView {
    JsonView::object()
        .text("apiVersion"@, "v1"@)
        .text("kind"@, "Service"@)
        .with("metadata"@, metadata_json(f, f.name + "-discovery"@, "discovery"@))
        .with(
            "spec"@,
            JsonView::object()
                .with("selector"@, json::entries_json(discovery_selector(f.name, i.discovery_service_kodo)))
                .list(
                    "ports"@,
                    json::none()
                        .push(JsonView::object()
                            .text("name"@, "http"@)
                            .number("port"@, 4161)
                            .text("targetPort"@, "http"@)),
                ),
        )
}

fn discovery_service(i: &BuildInput<'_>, f: &Frame<'_>) -> (r: Value)
    ensures
        json::json_held(r) == discovery_service_json(*i, f@),
{
    reveal(discovery_service_json);
    Doc::new()
        .text("apiVersion", "v1")
        .text("kind", "Service")
        .doc("metadata", metadata(f, suffixed(f.name, "-discovery").as_str(), "discovery"))
        .doc(
            "spec",
            Doc::new()
                .doc("selector", Doc::of_map(&discovery_selector_of(f.name, i.discovery_service_kodo)))
                .list(
                    "ports",
                    Items::new()
                        .doc(Doc::new()
                            .text("name", "http")
                            .number("port", 4161)
                            .text("targetPort", "http"))
                        .done(),
                ),
        )
        .done()
}

/// The container of Discovery.
#[verifier::opaque]
pub open spec fn discovery_container_json(i: BuildInput<'_>, f: FrameView) -> JsonView {
    JsonView::object()
        .text("name"@, "discovery"@)
        .text("image"@, i.image@)
        .text("imagePullPolicy"@, i.cluster.spec.image_pull_policy@)
        .list(
            "command"@,
            json::none()
                .push(JsonView::Text("rustqueue-discovery"@)),
        )
        .list(
            "ports"@,
            json::none()
                .push(JsonView::object()
                    .text("name"@, "http"@)
                    .number("containerPort"@, 4161)),
        )
        .list("env"@, discovery_env_json(i, f))
        .list(
            "volumeMounts"@,
            json::none()
                .push(JsonView::object()
                    .text("name"@, "auth"@)
                    .text("mountPath"@, "/run/secrets/rustqueue"@)
                    .flag("readOnly"@, true)),
        )
        .with("securityContext"@, container_security_json())
        .with(
            "readinessProbe"@,
            JsonView::object()
                .with(
                    "httpGet"@,
                    JsonView::object()
                        .text("path"@, "/v1/health"@)
                        .text("port"@, "http"@),
                )
                .number("periodSeconds"@, 2),
        )
        .with(
            "livenessProbe"@,
            JsonView::object()
                .with(
                    "httpGet"@,
                    JsonView::object()
                        .text("path"@, "/ping"@)
                        .text("port"@, "http"@),
                )
                .number("periodSeconds"@, 10)
                .number("failureThreshold"@, 3),
        )
        .with(
            "resources"@,
            JsonView::object()
                .with(
                    "requests"@,
                    JsonView::object()
                        .text("cpu"@, "50m"@)
                        .text("memory"@, "64Mi"@),
                ),
        )
}

fn discovery_container(i: &BuildInput<'_>, f: &Frame<'_>) -> (r: Doc)
    ensures
        r@ == discovery_container_json(*i, f@),
        r@ is Object,
{
    reveal(discovery_container_json);
    Doc::new()
        .text("name", "discovery")
        .text("image", i.image)
        .text("imagePullPolicy", i.cluster.spec.image_pull_policy.as_str())
        .list(
            "command",
            Items::new()
                .text("rustqueue-discovery")
                .done(),
        )
        .list(
            "ports",
            Items::new()
                .doc(Doc::new()
                    .text("name", "http")
                    .number("containerPort", 4161))
                .done(),
        )
        .list("env", discovery_env(i, f))
        .list(
            "volumeMounts",
            Items::new()
                .doc(Doc::new()
                    .text("name", "auth")
                    .text("mountPath", "/run/secrets/rustqueue")
                    .flag("readOnly", true))
                .done(),
        )
        .doc("securityContext", container_security())
        .doc(
            "readinessProbe",
            Doc::new()
                .doc(
                    "httpGet",
                    Doc::new()
                        .text("path", "/v1/health")
                        .text("port", "http"),
                )
                .number("periodSeconds", 2),
        )
        .doc(
            "livenessProbe",
            Doc::new()
                .doc(
                    "httpGet",
                    Doc::new()
                        .text("path", "/ping")
                        .text("port", "http"),
                )
                .number("periodSeconds", 10)
                .number("failureThreshold", 3),
        )
        .doc(
            "resources",
            Doc::new()
                .doc(
                    "requests",
                    Doc::new()
                        .text("cpu", "50m")
                        .text("memory", "64Mi"),
                ),
        )
}

/// Discovery.
#[verifier::opaque]
pub open spec fn discovery_json(i: BuildInput<'_>, f: FrameView, grace: i32) -> JsonView {
    JsonView::object()
        .text("apiVersion"@, "apps/v1"@)
        .text("kind"@, "Deployment"@)
        .with("metadata"@, metadata_json(f, f.name + "-discovery"@, "discovery"@))
        .with(
            "spec"@,
            JsonView::object()
                .number("replicas"@, discovery_count(i.cluster.spec.discovery_replicas))
                .number("minReadySeconds"@, grace as int)
                .with(
                    "strategy"@,
                    JsonView::object()
                        .text("type"@, "RollingUpdate"@)
                        .with(
                            "rollingUpdate"@,
                            JsonView::object()
                                .number("maxUnavailable"@, 0)
                                .text("maxSurge"@, "100%"@),
                        ),
                )
                .with(
                    "selector"@,
                    JsonView::object()
                        .with("matchLabels"@, labels_json(f.name, "discovery"@)),
                )
                .with(
                    "template"@,
                    JsonView::object()
                        .with(
                            "metadata"@,
                            JsonView::object()
                                .with("labels"@, json::entries_json(discovery_selector(f.name, Some(i.advertise_kodo_gateways))))
                                .with(
                                    "annotations"@,
                                    JsonView::object()
                                        .text("rustqueue.io/revision"@, f.revision),
                                ),
                        )
                        .with(
                            "spec"@,
                            JsonView::object()
                                .text("serviceAccountName"@, f.name + "-runtime"@)
                                .with("securityContext"@, pod_security_json())
                                .list(
                                    "containers"@,
                                    json::none()
                                        .push(discovery_container_json(i, f)),
                                )
                                .list(
                                    "volumes"@,
                                    json::none()
                                        .push(JsonView::object()
                                            .text("name"@, "auth"@)
                                            .with(
                                                "secret"@,
                                                JsonView::object()
                                                    .text("secretName"@, i.secret_name@)
                                                    .list(
                                                        "items"@,
                                                        json::none()
                                                            .push(JsonView::object()
                                                                .text("key"@, "registry-token"@)
                                                                .text("path"@, "registry-token"@)),
                                                    ),
                                            )),
                                ),
                        ),
                ),
        )
}

fn discovery(i: &BuildInput<'_>, f: &Frame<'_>, grace: i32) -> (r: Value)
    ensures
        json::json_held(r) == discovery_json(*i, f@, grace),
{
    reveal(discovery_json);
    Doc::new()
        .text("apiVersion", "apps/v1")
        .text("kind", "Deployment")
        .doc("metadata", metadata(f, suffixed(f.name, "-discovery").as_str(), "discovery"))
        .doc(
            "spec",
            Doc::new()
                .number("replicas", if i.cluster.spec.discovery_replicas >= 2 { i.cluster.spec.discovery_replicas as i64 } else { 2 })
                .number("minReadySeconds", grace as i64)
                .doc(
                    "strategy",
                    Doc::new()
                        .text("type", "RollingUpdate")
                        .doc(
                            "rollingUpdate",
                            Doc::new()
                                .number("maxUnavailable", 0)
                                .text("maxSurge", "100%"),
                        ),
                )
                .doc(
                    "selector",
                    Doc::new()
                        .doc("matchLabels", labels(f.name, "discovery")),
                )
                .doc(
                    "template",
                    Doc::new()
                        .doc(
                            "metadata",
                            Doc::new()
                                .doc("labels", Doc::of_map(&discovery_selector_of(f.name, Some(i.advertise_kodo_gateways))))
                                .doc(
                                    "annotations",
                                    Doc::new()
                                        .text("rustqueue.io/revision", f.revision.as_str()),
                                ),
                        )
                        .doc(
                            "spec",
                            Doc::new()
                                .text("serviceAccountName", suffixed(f.name, "-runtime").as_str())
                                .doc("securityContext", pod_security())
                                .list(
                                    "containers",
                                    Items::new()
                                        .doc(discovery_container(i, f))
                                        .done(),
                                )
                                .list(
                                    "volumes",
                                    Items::new()
                                        .doc(Doc::new()
                                            .text("name", "auth")
                                            .doc(
                                                "secret",
                                                Doc::new()
                                                    .text("secretName", i.secret_name)
                                                    .list(
                                                        "items",
                                                        Items::new()
                                                            .doc(Doc::new()
                                                                .text("key", "registry-token")
                                                                .text("path", "registry-token"))
                                                            .done(),
                                                    ),
                                            ))
                                        .done(),
                                ),
                        ),
                ),
        )
        .done()
}

/// That Discovery stays up.
#[verifier::opaque]
pub open spec fn discovery_pdb_json(f: FrameView) -> JsonView {
    JsonView::object()
        .text("apiVersion"@, "policy/v1"@)
        .text("kind"@, "PodDisruptionBudget"@)
        .with("metadata"@, metadata_json(f, f.name + "-discovery-pdb"@, "discovery"@))
        .with(
            "spec"@,
            JsonView::object()
                .number("minAvailable"@, 1)
                .with(
                    "selector"@,
                    JsonView::object()
                        .with("matchLabels"@, labels_json(f.name, "discovery"@)),
                ),
        )
}

fn discovery_pdb(f: &Frame<'_>) -> (r: Value)
    ensures
        json::json_held(r) == discovery_pdb_json(f@),
{
    reveal(discovery_pdb_json);
    Doc::new()
        .text("apiVersion", "policy/v1")
        .text("kind", "PodDisruptionBudget")
        .doc("metadata", metadata(f, suffixed(f.name, "-discovery-pdb").as_str(), "discovery"))
        .doc(
            "spec",
            Doc::new()
                .number("minAvailable", 1)
                .doc(
                    "selector",
                    Doc::new()
                        .doc("matchLabels", labels(f.name, "discovery")),
                ),
        )
        .done()
}

/// The service of the proxies.
#[verifier::opaque]
pub open spec fn proxy_service_json(f: FrameView) -> JsonView {
    JsonView::object()
        .text("apiVersion"@, "v1"@)
        .text("kind"@, "Service"@)
        .with("metadata"@, metadata_json(f, f.name + "-proxy"@, "proxy"@))
        .with(
            "spec"@,
            JsonView::object()
                .with("selector"@, labels_json(f.name, "proxy"@))
                .list(
                    "ports"@,
                    json::none()
                        .push(JsonView::object()
                            .text("name"@, "tcp"@)
                            .number("port"@, 4150)
                            .text("targetPort"@, "tcp"@))
                        .push(JsonView::object()
                            .text("name"@, "http"@)
                            .number("port"@, 4151)
                            .text("targetPort"@, "http"@)),
                ),
        )
}

fn proxy_service(f: &Frame<'_>) -> (r: Value)
    ensures
        json::json_held(r) == proxy_service_json(f@),
{
    reveal(proxy_service_json);
    Doc::new()
        .text("apiVersion", "v1")
        .text("kind", "Service")
        .doc("metadata", metadata(f, suffixed(f.name, "-proxy").as_str(), "proxy"))
        .doc(
            "spec",
            Doc::new()
                .doc("selector", labels(f.name, "proxy"))
                .list(
                    "ports",
                    Items::new()
                        .doc(Doc::new()
                            .text("name", "tcp")
                            .number("port", 4150)
                            .text("targetPort", "tcp"))
                        .doc(Doc::new()
                            .text("name", "http")
                            .number("port", 4151)
                            .text("targetPort", "http"))
                        .done(),
                ),
        )
        .done()
}

/// The container of a proxy.
#[verifier::opaque]
pub open spec fn proxy_container_json(i: BuildInput<'_>, f: FrameView) -> JsonView {
    JsonView::object()
        .text("name"@, "proxy"@)
        .text("image"@, i.image@)
        .text("imagePullPolicy"@, i.cluster.spec.image_pull_policy@)
        .list(
            "command"@,
            json::none()
                .push(JsonView::Text("rustqueue-proxy"@)),
        )
        .list(
            "ports"@,
            json::none()
                .push(JsonView::object()
                    .text("name"@, "tcp"@)
                    .number("containerPort"@, 4150))
                .push(JsonView::object()
                    .text("name"@, "http"@)
                    .number("containerPort"@, 4151)),
        )
        .list(
            "env"@,
            json::none()
                .push(JsonView::object()
                    .text("name"@, "RUSTQUEUE_DISCOVERY_URLS"@)
                    .text("value"@, "http://"@ + (f.name + "-discovery"@) + ":4161"@))
                .push(JsonView::object()
                    .text("name"@, "RUSTQUEUE_PROXY_TCP_MAX_CONNECTION_AGE_SECONDS"@)
                    .text("value"@, text::dec(i.cluster.spec.proxy_tcp_max_connection_age_seconds as nat)))
                .push(JsonView::object()
                    .text("name"@, "RUSTQUEUE_PROXY_SHUTDOWN_GRACE_SECONDS"@)
                    .text("value"@, "30"@)),
        )
        .with("securityContext"@, container_security_json())
        .with(
            "readinessProbe"@,
            JsonView::object()
                .with(
                    "httpGet"@,
                    JsonView::object()
                        .text("path"@, "/v1/health"@)
                        .text("port"@, "http"@),
                )
                .number("periodSeconds"@, 2),
        )
        .with(
            "livenessProbe"@,
            JsonView::object()
                .with(
                    "httpGet"@,
                    JsonView::object()
                        .text("path"@, "/ping"@)
                        .text("port"@, "http"@),
                )
                .number("periodSeconds"@, 10)
                .number("failureThreshold"@, 3),
        )
        .with(
            "resources"@,
            JsonView::object()
                .with(
                    "requests"@,
                    JsonView::object()
                        .text("cpu"@, "50m"@)
                        .text("memory"@, "64Mi"@),
                ),
        )
}

fn proxy_container(i: &BuildInput<'_>, f: &Frame<'_>) -> (r: Doc)
    ensures
        r@ == proxy_container_json(*i, f@),
        r@ is Object,
{
    reveal(proxy_container_json);
    Doc::new()
        .text("name", "proxy")
        .text("image", i.image)
        .text("imagePullPolicy", i.cluster.spec.image_pull_policy.as_str())
        .list(
            "command",
            Items::new()
                .text("rustqueue-proxy")
                .done(),
        )
        .list(
            "ports",
            Items::new()
                .doc(Doc::new()
                    .text("name", "tcp")
                    .number("containerPort", 4150))
                .doc(Doc::new()
                    .text("name", "http")
                    .number("containerPort", 4151))
                .done(),
        )
        .list(
            "env",
            Items::new()
                .doc(Doc::new()
                    .text("name", "RUSTQUEUE_DISCOVERY_URLS")
                    .text("value", around("http://", suffixed(f.name, "-discovery").as_str(), ":4161").as_str()))
                .doc(Doc::new()
                    .text("name", "RUSTQUEUE_PROXY_TCP_MAX_CONNECTION_AGE_SECONDS")
                    .text("value", text::decimal(i.cluster.spec.proxy_tcp_max_connection_age_seconds).as_str()))
                .doc(Doc::new()
                    .text("name", "RUSTQUEUE_PROXY_SHUTDOWN_GRACE_SECONDS")
                    .text("value", "30"))
                .done(),
        )
        .doc("securityContext", container_security())
        .doc(
            "readinessProbe",
            Doc::new()
                .doc(
                    "httpGet",
                    Doc::new()
                        .text("path", "/v1/health")
                        .text("port", "http"),
                )
                .number("periodSeconds", 2),
        )
        .doc(
            "livenessProbe",
            Doc::new()
                .doc(
                    "httpGet",
                    Doc::new()
                        .text("path", "/ping")
                        .text("port", "http"),
                )
                .number("periodSeconds", 10)
                .number("failureThreshold", 3),
        )
        .doc(
            "resources",
            Doc::new()
                .doc(
                    "requests",
                    Doc::new()
                        .text("cpu", "50m")
                        .text("memory", "64Mi"),
                ),
        )
}

/// The proxies.
#[verifier::opaque]
pub open spec fn proxy_json(i: BuildInput<'_>, f: FrameView) -> JsonView {
    JsonView::object()
        .text("apiVersion"@, "apps/v1"@)
        .text("kind"@, "DaemonSet"@)
        .with("metadata"@, metadata_json(f, f.name + "-proxy"@, "proxy"@))
        .with(
            "spec"@,
            JsonView::object()
                .with(
                    "selector"@,
                    JsonView::object()
                        .with("matchLabels"@, labels_json(f.name, "proxy"@)),
                )
                .with(
                    "template"@,
                    JsonView::object()
                        .with(
                            "metadata"@,
                            JsonView::object()
                                .with("labels"@, labels_json(f.name, "proxy"@))
                                .with(
                                    "annotations"@,
                                    JsonView::object()
                                        .text("rustqueue.io/revision"@, f.revision),
                                ),
                        )
                        .with(
                            "spec"@,
                            JsonView::object()
                                .with("nodeSelector"@, json::entries_json(i.cluster.spec.proxy_node_selector@))
                                .number("terminationGracePeriodSeconds"@, 45)
                                .with("securityContext"@, pod_security_json())
                                .list(
                                    "containers"@,
                                    json::none()
                                        .push(proxy_container_json(i, f)),
                                ),
                        ),
                ),
        )
}

fn proxy(i: &BuildInput<'_>, f: &Frame<'_>) -> (r: Value)
    ensures
        json::json_held(r) == proxy_json(*i, f@),
{
    reveal(proxy_json);
    Doc::new()
        .text("apiVersion", "apps/v1")
        .text("kind", "DaemonSet")
        .doc("metadata", metadata(f, suffixed(f.name, "-proxy").as_str(), "proxy"))
        .doc(
            "spec",
            Doc::new()
                .doc(
                    "selector",
                    Doc::new()
                        .doc("matchLabels", labels(f.name, "proxy")),
                )
                .doc(
                    "template",
                    Doc::new()
                        .doc(
                            "metadata",
                            Doc::new()
                                .doc("labels", labels(f.name, "proxy"))
                                .doc(
                                    "annotations",
                                    Doc::new()
                                        .text("rustqueue.io/revision", f.revision.as_str()),
                                ),
                        )
                        .doc(
                            "spec",
                            Doc::new()
                                .doc("nodeSelector", Doc::of_map(&i.cluster.spec.proxy_node_selector))
                                .number("terminationGracePeriodSeconds", 45)
                                .doc("securityContext", pod_security())
                                .list(
                                    "containers",
                                    Items::new()
                                        .doc(proxy_container(i, f))
                                        .done(),
                                ),
                        ),
                ),
        )
        .done()
}

/// Who may reach the brokers.
#[verifier::opaque]
pub open spec fn broker_network_policy_json(i: BuildInput<'_>, f: FrameView) -> JsonView {
    JsonView::object()
        .text("apiVersion"@, "networking.k8s.io/v1"@)
        .text("kind"@, "NetworkPolicy"@)
        .with("metadata"@, metadata_json(f, f.name + "-broker-ingress"@, "broker"@))
        .with(
            "spec"@,
            JsonView::object()
                .with(
                    "podSelector"@,
                    JsonView::object()
                        .with("matchLabels"@, labels_json(f.name, "broker"@)),
                )
                .list(
                    "policyTypes"@,
                    json::none()
                        .push(JsonView::Text("Ingress"@)),
                )
                .list("ingress"@, broker_ingress_json(i, f)),
        )
}

fn broker_network_policy(i: &BuildInput<'_>, f: &Frame<'_>) -> (r: Value)
    ensures
        json::json_held(r) == broker_network_policy_json(*i, f@),
{
    reveal(broker_network_policy_json);
    Doc::new()
        .text("apiVersion", "networking.k8s.io/v1")
        .text("kind", "NetworkPolicy")
        .doc("metadata", metadata(f, suffixed(f.name, "-broker-ingress").as_str(), "broker"))
        .doc(
            "spec",
            Doc::new()
                .doc(
                    "podSelector",
                    Doc::new()
                        .doc("matchLabels", labels(f.name, "broker")),
                )
                .list(
                    "policyTypes",
                    Items::new()
                        .text("Ingress")
                        .done(),
                )
                .list("ingress", broker_ingress(i, f)),
        )
        .done()
}

/// Who may reach the other pods.
#[verifier::opaque]
pub open spec fn network_policy_json(f: FrameView) -> JsonView {
    JsonView::object()
        .text("apiVersion"@, "networking.k8s.io/v1"@)
        .text("kind"@, "NetworkPolicy"@)
        .with("metadata"@, metadata_json(f, f.name + "-internal"@, "runtime"@))
        .with(
            "spec"@,
            JsonView::object()
                .with(
                    "podSelector"@,
                    JsonView::object()
                        .with(
                            "matchLabels"@,
                            JsonView::object()
                                .text("app.kubernetes.io/instance"@, f.name),
                        )
                        .list(
                            "matchExpressions"@,
                            json::none()
                                .push(JsonView::object()
                                    .text("key"@, "app.kubernetes.io/component"@)
                                    .text("operator"@, "NotIn"@)
                                    .list(
                                        "values"@,
                                        json::none()
                                            .push(JsonView::Text("broker"@))
                                            .push(JsonView::Text("kodo-gateway"@)),
                                    )),
                        ),
                )
                .list(
                    "policyTypes"@,
                    json::none()
                        .push(JsonView::Text("Ingress"@)),
                )
                .list(
                    "ingress"@,
                    json::none()
                        .push(JsonView::object()
                            .list(
                                "from"@,
                                json::none()
                                    .push(JsonView::object()
                                        .with("namespaceSelector"@, JsonView::object())),
                            )),
                ),
        )
}

fn network_policy(f: &Frame<'_>) -> (r: Value)
    ensures
        json::json_held(r) == network_policy_json(f@),
{
    reveal(network_policy_json);
    Doc::new()
        .text("apiVersion", "networking.k8s.io/v1")
        .text("kind", "NetworkPolicy")
        .doc("metadata", metadata(f, suffixed(f.name, "-internal").as_str(), "runtime"))
        .doc(
            "spec",
            Doc::new()
                .doc(
                    "podSelector",
                    Doc::new()
                        .doc(
                            "matchLabels",
                            Doc::new()
                                .text("app.kubernetes.io/instance", f.name),
                        )
                        .list(
                            "matchExpressions",
                            Items::new()
                                .doc(Doc::new()
                                    .text("key", "app.kubernetes.io/component")
                                    .text("operator", "NotIn")
                                    .list(
                                        "values",
                                        Items::new()
                                            .text("broker")
                                            .text("kodo-gateway")
                                            .done(),
                                    ))
                                .done(),
                        ),
                )
                .list(
                    "policyTypes",
                    Items::new()
                        .text("Ingress")
                        .done(),
                )
                .list(
                    "ingress",
                    Items::new()
                        .doc(Doc::new()
                            .list(
                                "from",
                                Items::new()
                                    .doc(Doc::new()
                                        .doc("namespaceSelector", Doc::new()))
                                    .done(),
                            ))
                        .done(),
                ),
        )
        .done()
}

// The set.

/// The revision of the brokers: the digest of everything that a change of it
/// rests on.
pub open spec fn revision_of(i: BuildInput<'_>) -> Seq<char> {
    digest::digest_tag(digest::sha256(json::json_bytes(revision_contract_json(i))))
}

/// The revision of the brokers.
pub fn broker_revision(i: &BuildInput<'_>) -> (r: String)
    ensures
        r@ == revision_of(*i),
        r@.len() == 32,
{
    let contract = json::json_to_vec(&revision_contract(i));
    let digest = digest::sha256_of(contract.as_slice());
    digest::tag_of(digest.as_slice())
}

/// Whether the resources for Kodo are part of the set.
pub open spec fn serves_kodo(i: BuildInput<'_>) -> bool {
    i.cluster.spec.kodo_compatibility.enabled || i.retain_existing_kodo_resources
}

/// How long a discovery pod must be ready before it counts, in seconds.
pub open spec fn ready_seconds(i: BuildInput<'_>) -> int {
    if serves_kodo(i) {
        let grace = i.cluster.spec.kodo_compatibility.cutover_grace_seconds;
        if grace + 30 > u64::MAX {
            u64::MAX as int
        } else {
            grace + 30
        }
    } else {
        30
    }
}

/// Why the resources cannot be built.
pub open spec fn build_fault(i: BuildInput<'_>) -> Option<BuildError> {
    if i.cluster.metadata.namespace is None {
        Some(BuildError::NoNamespace)
    } else if i.cluster.metadata.uid is None {
        Some(BuildError::NoOwner)
    } else if node_selector(i.cluster.spec.eligible_node_selector@) is None {
        Some(BuildError::NodeSelector)
    } else if ready_seconds(i) > i32::MAX {
        Some(BuildError::CutoverGrace)
    } else {
        None
    }
}

/// What every resource of a cluster carries.
pub open spec fn frame_of(i: BuildInput<'_>, revision: Seq<char>) -> FrameView {
    FrameView {
        name: i.cluster.metadata.name@,
        namespace: i.cluster.metadata.namespace->0@,
        owner: owner_json(i.cluster.metadata.name@, i.cluster.metadata.uid->0@),
        revision,
    }
}

/// The view of an optional document.
pub open spec fn opt_held(o: Option<Value>) -> Option<JsonView> {
    match o {
        Some(v) => Some(json::json_held(v)),
        None => None,
    }
}

/// A document where the resources for Kodo are part of the set.
pub open spec fn for_kodo(i: BuildInput<'_>, d: JsonView) -> Option<JsonView> {
    if serves_kodo(i) {
        Some(d)
    } else {
        None
    }
}

/// Whether a set is what the input asks for, with a revision.
pub open spec fn is_built(s: ResourceSet, i: BuildInput<'_>, revision: Seq<char>) -> bool {
    let f = frame_of(i, revision);
    let selector = node_selector(i.cluster.spec.eligible_node_selector@)->0;
    &&& s.revision@ == revision
    &&& s.retain_existing_kodo_resources == i.retain_existing_kodo_resources
    &&& json::json_held(s.config) == config_json(i, f)
    &&& json::json_held(s.service_account) == service_account_json(f)
    &&& json::json_held(s.role) == role_json(f)
    &&& json::json_held(s.role_binding) == role_binding_json(f)
    &&& json::json_held(s.broker_service) == broker_service_json(f)
    &&& json::json_held(s.brokers) == brokers_json(i, f, selector)
    &&& json::json_held(s.broker_pdb) == broker_pdb_json(i, f)
    &&& json::json_held(s.broker_network_policy) == broker_network_policy_json(i, f)
    &&& json::json_held(s.discovery_service) == discovery_service_json(i, f)
    &&& json::json_held(s.discovery) == discovery_json(i, f, ready_seconds(i) as i32)
    &&& json::json_held(s.discovery_pdb) == discovery_pdb_json(f)
    &&& json::json_held(s.proxy_service) == proxy_service_json(f)
    &&& json::json_held(s.proxy) == proxy_json(i, f)
    &&& opt_held(s.kodo_gateway_service) == for_kodo(i, kodo::service_json(f))
    &&& opt_held(s.kodo_gateway_headless_service) == for_kodo(i, kodo::headless_service_json(f))
    &&& opt_held(s.kodo_gateway) == for_kodo(i, kodo::gateway_json(i, f))
    &&& opt_held(s.kodo_gateway_pdb) == for_kodo(i, kodo::pdb_json(i, f))
    &&& opt_held(s.kodo_gateway_network_policy) == for_kodo(i, kodo::network_policy_json(i, f))
    &&& json::json_held(s.network_policy) == network_policy_json(f)
}

/// The resources of a cluster, with a revision.
pub fn build_with_revision(i: &BuildInput<'_>, revision: String) -> (r: Result<
    ResourceSet,
    BuildError,
>)
    ensures
        match r {
            Ok(s) => build_fault(*i) is None && is_built(s, *i, revision@),
            Err(e) => build_fault(*i) == Some(e),
        },
{
    let namespace = match &i.cluster.metadata.namespace {
        Some(n) => n.as_str(),
        None => {
            return Err(BuildError::NoNamespace);
        },
    };
    let name = i.cluster.metadata.name.as_str();
    let owner_value = match &i.cluster.metadata.uid {
        Some(uid) => owner(name, uid.as_str()).done(),
        None => {
            return Err(BuildError::NoOwner);
        },
    };
    let selector = match pod_node_selector(i.cluster.spec.eligible_node_selector.as_str()) {
        Ok(m) => m,
        Err(e) => {
            return Err(e);
        },
    };
    let kodo = i.cluster.spec.kodo_compatibility.enabled || i.retain_existing_kodo_resources;
    let grace: u64 = i.cluster.spec.kodo_compatibility.cutover_grace_seconds;
    if kodo && grace > 2147483617 {
        return Err(BuildError::CutoverGrace);
    }
    let seconds: i32 = if kodo {
        (grace + 30) as i32
    } else {
        30
    };
    let frame = Frame { name, namespace, owner: owner_value, revision };
    let f = &frame;
    let gateways = if kodo {
        Some(kodo::build(i, f))
    } else {
        None
    };
    let (service, headless, gateway, pdb, policy) = match gateways {
        Some(k) => (
            Some(k.service),
            Some(k.headless_service),
            Some(k.gateway),
            Some(k.pdb),
            Some(k.network_policy),
        ),
        None => (None, None, None, None, None),
    };
    Ok(
        ResourceSet {
            config: config(i, f),
            service_account: service_account(f),
            role: role(f),
            role_binding: role_binding(f),
            broker_service: broker_service(f),
            brokers: brokers(i, f, &selector),
            broker_pdb: broker_pdb(i, f),
            broker_network_policy: broker_network_policy(i, f),
            discovery_service: discovery_service(i, f),
            discovery: discovery(i, f, seconds),
            discovery_pdb: discovery_pdb(f),
            proxy_service: proxy_service(f),
            proxy: proxy(i, f),
            kodo_gateway_service: service,
            kodo_gateway_headless_service: headless,
            kodo_gateway: gateway,
            kodo_gateway_pdb: pdb,
            kodo_gateway_network_policy: policy,
            network_policy: network_policy(f),
            revision: frame.revision,
            retain_existing_kodo_resources: i.retain_existing_kodo_resources,
        },
    )
}

/// The resources of a cluster.
pub fn build(i: BuildInput<'_>) -> (r: Result<ResourceSet, BuildError>)
    ensures
        match r {
            Ok(s) => build_fault(i) is None && is_built(s, i, revision_of(i)),
            Err(e) => build_fault(i) == Some(e),
        },
{
    let revision = broker_revision(&i);
    build_with_revision(&i, revision)
}

/// Neither the number of brokers nor anything that is decided for Kodo changes the
/// revision of the brokers: resources that are staged and those that are applied
/// after further decisions roll out the same revision.
pub proof fn law_staged_and_applied_resources_share_a_revision(
    a: BuildInput<'_>,
    b: BuildInput<'_>,
)
    requires
        a.cluster == b.cluster,
        a.image == b.image,
        a.secret_name == b.secret_name,
        a.mounted_secret_revision == b.mounted_secret_revision,
    ensures
        revision_of(a) == revision_of(b),
{
    reveal(revision_contract_json);
}

impl ResourceSet {
    /// What every pod but the brokers needs, in the order in which it is applied.
    pub open spec fn runtime_order(self) -> Seq<Value> {
        let accounts = Seq::empty().push(self.service_account).push(self.role).push(
            self.role_binding,
        ).push(self.network_policy);
        let policies = pushed(accounts, self.kodo_gateway_network_policy);
        let services = pushed(
            pushed(
                policies.push(self.broker_service).push(self.discovery_service).push(
                    self.proxy_service,
                ),
                self.kodo_gateway_service,
            ),
            self.kodo_gateway_headless_service,
        );
        pushed(
            pushed(
                services.push(self.discovery).push(self.proxy),
                self.kodo_gateway,
            ).push(self.discovery_pdb),
            self.kodo_gateway_pdb,
        )
    }

    /// Everything, in the order in which it is applied: the configuration of the
    /// brokers and who may reach them before the brokers, then the rest.
    pub open spec fn full_order(self) -> Seq<Value> {
        Seq::empty().push(self.config).push(self.broker_network_policy).push(self.brokers).push(
            self.broker_pdb,
        ) + self.runtime_order()
    }

    /// What every pod but the brokers needs, in the order in which it is applied.
    pub fn into_runtime(self) -> (r: Vec<Value>)
        ensures
            r@ == self.runtime_order(),
    {
        let mut v: Vec<Value> = Vec::new();
        v.push(self.service_account);
        v.push(self.role);
        v.push(self.role_binding);
        v.push(self.network_policy);
        push_some(&mut v, self.kodo_gateway_network_policy);
        v.push(self.broker_service);
        v.push(self.discovery_service);
        v.push(self.proxy_service);
        push_some(&mut v, self.kodo_gateway_service);
        push_some(&mut v, self.kodo_gateway_headless_service);
        v.push(self.discovery);
        v.push(self.proxy);
        push_some(&mut v, self.kodo_gateway);
        v.push(self.discovery_pdb);
        push_some(&mut v, self.kodo_gateway_pdb);
        v
    }

    /// Everything, in the order in which it is applied.
    pub fn into_all(self) -> (r: Vec<Value>)
        ensures
            r@ == self.full_order(),
    {
        let mut v: Vec<Value> = Vec::new();
        v.push(self.config);
        v.push(self.broker_network_policy);
        v.push(self.brokers);
        v.push(self.broker_pdb);
        let ghost head = v@;
        v.push(self.service_account);
        v.push(self.role);
        v.push(self.role_binding);
        v.push(self.network_policy);
        push_some(&mut v, self.kodo_gateway_network_policy);
        v.push(self.broker_service);
        v.push(self.discovery_service);
        v.push(self.proxy_service);
        push_some(&mut v, self.kodo_gateway_service);
        push_some(&mut v, self.kodo_gateway_headless_service);
        v.push(self.discovery);
        v.push(self.proxy);
        push_some(&mut v, self.kodo_gateway);
        v.push(self.discovery_pdb);
        push_some(&mut v, self.kodo_gateway_pdb);
        assert(v@ =~= head + self.runtime_order());
        v
    }
}

/// A sequence with one more element, if there is one.
pub open spec fn pushed(v: Seq<Value>, o: Option<Value>) -> Seq<Value> {
    match o {
        Some(x) => v.push(x),
        None => v,
    }
}

fn push_some(v: &mut Vec<Value>, o: Option<Value>)
    ensures
        final(v)@ == pushed(old(v)@, o),
{
    match o {
        Some(x) => {
            v.push(x);
        },
        None => {},
    }
}

/// The names of the resources for Kodo that are deleted once they are not part of
/// the set any more.
pub struct ObsoleteNames {
    pub gateway: String,
    pub publish_service: String,
    pub headless_service: String,
    pub pdb: String,
    pub network_policy: String,
}

/// The names of the resources for Kodo.
pub fn kodo_names(cluster: &str) -> (r: ObsoleteNames)
    ensures
        r.gateway@ == cluster@ + "-kodo-gateway"@,
        r.publish_service@ == cluster@ + "-kodo-publish"@,
        r.headless_service@ == cluster@ + "-kodo-gateways"@,
        r.pdb@ == cluster@ + "-kodo-gateway-pdb"@,
        r.network_policy@ == cluster@ + "-kodo-gateway-ingress"@,
{
    ObsoleteNames {
        gateway: suffixed(cluster, "-kodo-gateway"),
        publish_service: suffixed(cluster, "-kodo-publish"),
        headless_service: suffixed(cluster, "-kodo-gateways"),
        pdb: suffixed(cluster, "-kodo-gateway-pdb"),
        network_policy: suffixed(cluster, "-kodo-gateway-ingress"),
    }
}

/// Whether an existing resource for Kodo is deleted: it is not part of the set,
/// is not to be kept, and belongs to the cluster.
pub fn is_obsolete(
    in_set: bool,
    retain_existing: bool,
    owners: &Vec<OwnerRef>,
    owner_uid: &Option<String>,
) -> (r: bool)
    ensures
        r == (!in_set && !retain_existing && owner_uid is Some && kube::owned_by(
            owners@,
            owner_uid->0@,
        )),
{
    !in_set && !retain_existing && kube::controlled_by(owners, owner_uid)
}

/// The set of brokers has the replicas, the Service, the class and size of volumes and the
/// revision that are asked for; its pods bear the labels by which they are selected; a broker
/// is replaced only when it is deleted, and its volume outlives it.
#[verifier::rlimit(60)]
#[verifier::spinoff_prover]
pub proof fn law_brokers_are_the_set_that_is_asked_for(
    i: BuildInput<'_>,
    f: FrameView,
    selector: Seq<(Seq<char>, Seq<char>)>,
)
    ensures
        ({
            let d = brokers_json(i, f, selector);
            &&& json::member(d, "kind"@) == Some(JsonView::Text("StatefulSet"@))
            &&& json::of(json::member(d, "spec"@), "replicas"@) == Some(JsonView::Number(i.replicas as int))
            &&& json::of(json::member(d, "spec"@), "serviceName"@) == Some(JsonView::Text(f.name + "-brokers"@))
            &&& json::of(json::of(json::member(d, "spec"@), "selector"@), "matchLabels"@) == Some(labels_json(f.name, "broker"@))
            &&& json::of(json::of(json::of(json::member(d, "spec"@), "template"@), "metadata"@), "labels"@) == Some(labels_json(f.name, "broker"@))
            &&& json::of(json::of(json::of(json::of(json::member(d, "spec"@), "template"@), "metadata"@), "annotations"@), "rustqueue.io/revision"@) == Some(JsonView::Text(f.revision))
            &&& json::of(json::of(json::member(d, "spec"@), "updateStrategy"@), "type"@) == Some(JsonView::Text("OnDelete"@))
            &&& json::of(json::of(json::member(d, "spec"@), "persistentVolumeClaimRetentionPolicy"@), "whenDeleted"@) == Some(JsonView::Text("Retain"@))
            &&& json::of(json::of(json::member(d, "spec"@), "persistentVolumeClaimRetentionPolicy"@), "whenScaled"@) == Some(JsonView::Text("Retain"@))
            &&& json::of(json::of(json::nth(json::of(json::member(d, "spec"@), "volumeClaimTemplates"@), 0), "spec"@), "storageClassName"@) == Some(JsonView::Text(i.cluster.spec.storage_class_name@))
            &&& json::of(json::of(json::of(json::of(json::nth(json::of(json::member(d, "spec"@), "volumeClaimTemplates"@), 0), "spec"@), "resources"@), "requests"@), "storage"@) == Some(JsonView::Text(i.claim_template_size@))
            &&& json::of(json::of(json::nth(json::of(json::member(d, "spec"@), "volumeClaimTemplates"@), 0), "metadata"@), "name"@) == Some(JsonView::Text("data"@))
            &&& json::of(json::of(json::member(d, "spec"@), "template"@), "spec"@) == Some(broker_pod_json(i, f, selector))
            &&& json::of(json::member(d, "metadata"@), "name"@) == Some(JsonView::Text(f.name))
        }),
{
    reveal(JsonView::with);
    reveal(brokers_json);
    reveal(metadata_json);
    reveal_strlit("accessModes");
    reveal_strlit("annotations");
    reveal_strlit("apiVersion");
    reveal_strlit("kind");
    reveal_strlit("labels");
    reveal_strlit("matchLabels");
    reveal_strlit("metadata");
    reveal_strlit("name");
    reveal_strlit("namespace");
    reveal_strlit("ownerReferences");
    reveal_strlit("persistentVolumeClaimRetentionPolicy");
    reveal_strlit("podManagementPolicy");
    reveal_strlit("replicas");
    reveal_strlit("requests");
    reveal_strlit("resources");
    reveal_strlit("rustqueue.io/revision");
    reveal_strlit("selector");
    reveal_strlit("serviceName");
    reveal_strlit("spec");
    reveal_strlit("storage");
    reveal_strlit("storageClassName");
    reveal_strlit("template");
    reveal_strlit("type");
    reveal_strlit("updateStrategy");
    reveal_strlit("volumeClaimTemplates");
    reveal_strlit("whenDeleted");
    reveal_strlit("whenScaled");
    assert("accessModes"@.len() == 11 && "annotations"@.len() == 11 && "apiVersion"@.len() == 10 && "kind"@.len() == 4);
    assert("labels"@.len() == 6 && "matchLabels"@.len() == 11 && "metadata"@.len() == 8 && "name"@.len() == 4);
    assert("namespace"@.len() == 9 && "ownerReferences"@.len() == 15 && "persistentVolumeClaimRetentionPolicy"@.len() == 36 && "podManagementPolicy"@.len() == 19);
    assert("replicas"@.len() == 8 && "requests"@.len() == 8 && "resources"@.len() == 9 && "rustqueue.io/revision"@.len() == 21);
    assert("selector"@.len() == 8 && "serviceName"@.len() == 11 && "spec"@.len() == 4 && "storage"@.len() == 7);
    assert("storageClassName"@.len() == 16 && "template"@.len() == 8 && "type"@.len() == 4 && "updateStrategy"@.len() == 14);
    assert("volumeClaimTemplates"@.len() == 20 && "whenDeleted"@.len() == 11 && "whenScaled"@.len() == 10);
    assert("kind"@[0] == 'k');
    assert("replicas"@[0] == 'r');
    assert("selector"@[0] == 's');
    assert("spec"@[0] == 's');
    assert("template"@[0] == 't');
}

/// A pod of a broker runs one broker, on nodes of the selector, apart from the others by the
/// topology key, under the account of the cluster, with its configuration, its secrets and its
/// tolerations.
#[verifier::rlimit(60)]
#[verifier::spinoff_prover]
pub proof fn law_broker_pods_are_made_as_asked_for(
    i: BuildInput<'_>,
    f: FrameView,
    selector: Seq<(Seq<char>, Seq<char>)>,
)
    ensures
        ({
            let d = broker_pod_json(i, f, selector);
            &&& json::nth(json::member(d, "containers"@), 0) == Some(broker_container_json(i, f))
            &&& json::member(d, "nodeSelector"@) == Some(json::entries_json(selector))
            &&& json::member(d, "serviceAccountName"@) == Some(JsonView::Text(f.name + "-runtime"@))
            &&& json::of(json::nth(json::of(json::of(json::member(d, "affinity"@), "podAntiAffinity"@), "requiredDuringSchedulingIgnoredDuringExecution"@), 0), "topologyKey"@) == Some(JsonView::Text(i.cluster.spec.broker_scheduling.topology_key@))
            &&& json::of(json::of(json::nth(json::of(json::of(json::member(d, "affinity"@), "podAntiAffinity"@), "requiredDuringSchedulingIgnoredDuringExecution"@), 0), "labelSelector"@), "matchLabels"@) == Some(labels_json(f.name, "broker"@))
            &&& json::of(json::member(d, "securityContext"@), "runAsNonRoot"@) == Some(JsonView::Bool(true))
            &&& json::of(json::member(d, "securityContext"@), "fsGroup"@) == Some(JsonView::Number(65532))
            &&& json::member(d, "terminationGracePeriodSeconds"@) == Some(JsonView::Number(45))
            &&& json::member(d, "tolerations"@) == Some(JsonView::List(tolerations_json(i.cluster.spec.broker_scheduling.tolerations@)))
            &&& json::member(d, "volumes"@) == Some(JsonView::List(broker_volumes_json(i, f)))
        }),
{
    reveal(JsonView::with);
    reveal(broker_pod_json);
    reveal_strlit("affinity");
    reveal_strlit("containers");
    reveal_strlit("fsGroup");
    reveal_strlit("fsGroupChangePolicy");
    reveal_strlit("labelSelector");
    reveal_strlit("matchLabels");
    reveal_strlit("nodeSelector");
    reveal_strlit("podAntiAffinity");
    reveal_strlit("priorityClassName");
    reveal_strlit("requiredDuringSchedulingIgnoredDuringExecution");
    reveal_strlit("runAsGroup");
    reveal_strlit("runAsNonRoot");
    reveal_strlit("runAsUser");
    reveal_strlit("seccompProfile");
    reveal_strlit("securityContext");
    reveal_strlit("serviceAccountName");
    reveal_strlit("terminationGracePeriodSeconds");
    reveal_strlit("tolerations");
    reveal_strlit("topologyKey");
    reveal_strlit("volumes");
    assert("affinity"@.len() == 8 && "containers"@.len() == 10 && "fsGroup"@.len() == 7 && "fsGroupChangePolicy"@.len() == 19);
    assert("labelSelector"@.len() == 13 && "matchLabels"@.len() == 11 && "nodeSelector"@.len() == 12 && "podAntiAffinity"@.len() == 15);
    assert("priorityClassName"@.len() == 17 && "requiredDuringSchedulingIgnoredDuringExecution"@.len() == 46 && "runAsGroup"@.len() == 10 && "runAsNonRoot"@.len() == 12);
    assert("runAsUser"@.len() == 9 && "seccompProfile"@.len() == 14 && "securityContext"@.len() == 15 && "serviceAccountName"@.len() == 18);
    assert("terminationGracePeriodSeconds"@.len() == 29 && "tolerations"@.len() == 11 && "topologyKey"@.len() == 11 && "volumes"@.len() == 7);
}

/// The container of a broker runs the image that is asked for, with its configuration, its
/// address, its cache and its resources, and serves at the ports of brokers.
#[verifier::rlimit(60)]
#[verifier::spinoff_prover]
pub proof fn law_broker_containers_run_the_image(
    i: BuildInput<'_>,
    f: FrameView,
)
    ensures
        ({
            let d = broker_container_json(i, f);
            &&& json::member(d, "name"@) == Some(JsonView::Text("broker"@))
            &&& json::member(d, "image"@) == Some(JsonView::Text(i.image@))
            &&& json::member(d, "imagePullPolicy"@) == Some(JsonView::Text(i.cluster.spec.image_pull_policy@))
            &&& json::nth(json::member(d, "command"@), 0) == Some(JsonView::Text("rustqueued"@))
            &&& json::nth(json::member(d, "args"@), 1) == Some(JsonView::Text("/etc/rustqueue/rustqueue.toml"@))
            &&& json::of(json::nth(json::member(d, "ports"@), 0), "containerPort"@) == Some(JsonView::Number(4150))
            &&& json::of(json::nth(json::member(d, "ports"@), 0), "name"@) == Some(JsonView::Text("tcp"@))
            &&& json::of(json::nth(json::member(d, "ports"@), 1), "containerPort"@) == Some(JsonView::Number(4151))
            &&& json::of(json::nth(json::member(d, "ports"@), 1), "name"@) == Some(JsonView::Text("http"@))
            &&& json::of(json::nth(json::member(d, "env"@), 2), "name"@) == Some(JsonView::Text("RUSTQUEUE_BROADCAST_ADDRESS"@))
            &&& json::of(json::nth(json::member(d, "env"@), 2), "value"@) == Some(JsonView::Text("$(POD_NAME)."@ + (f.name + "-brokers"@) + ".$(POD_NAMESPACE).svc"@))
            &&& json::of(json::nth(json::member(d, "env"@), 3), "value"@) == Some(JsonView::Text("/data"@))
            &&& json::of(json::nth(json::member(d, "env"@), 4), "name"@) == Some(JsonView::Text("RUSTQUEUE_MESSAGE_INDEX_CACHE_BYTES"@))
            &&& json::of(json::nth(json::member(d, "env"@), 4), "value"@) == Some(JsonView::Text(text::dec(i.cluster.spec.message_index_cache_bytes as nat)))
            &&& json::member(d, "volumeMounts"@) == Some(JsonView::List(broker_mounts_json(i)))
            &&& json::member(d, "resources"@) == Some(workload_json(i.cluster.spec.broker_resources))
            &&& json::of(json::of(json::member(d, "readinessProbe"@), "httpGet"@), "path"@) == Some(JsonView::Text("/v1/health"@))
            &&& json::of(json::of(json::member(d, "livenessProbe"@), "httpGet"@), "path"@) == Some(JsonView::Text("/ping"@))
        }),
{
    reveal(JsonView::with);
    reveal(broker_container_json);
    reveal_strlit("args");
    reveal_strlit("command");
    reveal_strlit("containerPort");
    reveal_strlit("env");
    reveal_strlit("failureThreshold");
    reveal_strlit("httpGet");
    reveal_strlit("image");
    reveal_strlit("imagePullPolicy");
    reveal_strlit("livenessProbe");
    reveal_strlit("name");
    reveal_strlit("path");
    reveal_strlit("periodSeconds");
    reveal_strlit("port");
    reveal_strlit("ports");
    reveal_strlit("readinessProbe");
    reveal_strlit("resources");
    reveal_strlit("securityContext");
    reveal_strlit("value");
    reveal_strlit("volumeMounts");
    assert("args"@.len() == 4 && "command"@.len() == 7 && "containerPort"@.len() == 13 && "env"@.len() == 3);
    assert("failureThreshold"@.len() == 16 && "httpGet"@.len() == 7 && "image"@.len() == 5 && "imagePullPolicy"@.len() == 15);
    assert("livenessProbe"@.len() == 13 && "name"@.len() == 4 && "path"@.len() == 4 && "periodSeconds"@.len() == 13);
    assert("port"@.len() == 4 && "ports"@.len() == 5 && "readinessProbe"@.len() == 14 && "resources"@.len() == 9);
    assert("securityContext"@.len() == 15 && "value"@.len() == 5 && "volumeMounts"@.len() == 12);
    assert("args"@[0] == 'a');
    assert("image"@[0] == 'i');
    assert("imagePullPolicy"@[0] == 'i');
    assert("name"@[0] == 'n');
    assert("path"@[1] == 'a');
    assert("port"@[1] == 'o');
    assert("ports"@[0] == 'p');
    assert("securityContext"@[0] == 's');
}

/// All brokers but one are kept available, at least one, and they are found and guarded by the
/// labels of their pods.
#[verifier::rlimit(60)]
#[verifier::spinoff_prover]
pub proof fn law_brokers_are_kept_available(
    i: BuildInput<'_>,
    f: FrameView,
)
    ensures
        ({
            let d = broker_pdb_json(i, f);
            let s = broker_service_json(f);
            let n = broker_network_policy_json(i, f);
            &&& json::of(json::member(d, "spec"@), "minAvailable"@) == Some(JsonView::Number(if i.replicas >= 2 {
                i.replicas - 1
            } else {
                1
            }))
            &&& json::of(json::of(json::member(d, "spec"@), "selector"@), "matchLabels"@) == Some(labels_json(f.name, "broker"@))
            &&& json::of(json::member(s, "spec"@), "selector"@) == Some(labels_json(f.name, "broker"@))
            &&& json::of(json::member(s, "spec"@), "clusterIP"@) == Some(JsonView::Text("None"@))
            &&& json::of(json::member(s, "spec"@), "publishNotReadyAddresses"@) == Some(JsonView::Bool(true))
            &&& json::of(json::nth(json::of(json::member(s, "spec"@), "ports"@), 0), "port"@) == Some(JsonView::Number(4150))
            &&& json::of(json::nth(json::of(json::member(s, "spec"@), "ports"@), 0), "targetPort"@) == Some(JsonView::Text("tcp"@))
            &&& json::of(json::nth(json::of(json::member(s, "spec"@), "ports"@), 1), "port"@) == Some(JsonView::Number(4151))
            &&& json::of(json::nth(json::of(json::member(s, "spec"@), "ports"@), 1), "targetPort"@) == Some(JsonView::Text("http"@))
            &&& json::of(json::member(s, "metadata"@), "name"@) == Some(JsonView::Text(f.name + "-brokers"@))
            &&& json::of(json::of(json::member(n, "spec"@), "podSelector"@), "matchLabels"@) == Some(labels_json(f.name, "broker"@))
            &&& json::nth(json::of(json::member(n, "spec"@), "policyTypes"@), 0) == Some(JsonView::Text("Ingress"@))
            &&& json::of(json::member(n, "spec"@), "ingress"@) == Some(JsonView::List(broker_ingress_json(i, f)))
        }),
{
    reveal(JsonView::with);
    reveal(broker_network_policy_json);
    reveal(broker_pdb_json);
    reveal(broker_service_json);
    reveal(metadata_json);
    reveal_strlit("apiVersion");
    reveal_strlit("clusterIP");
    reveal_strlit("ingress");
    reveal_strlit("kind");
    reveal_strlit("labels");
    reveal_strlit("matchLabels");
    reveal_strlit("metadata");
    reveal_strlit("minAvailable");
    reveal_strlit("name");
    reveal_strlit("namespace");
    reveal_strlit("ownerReferences");
    reveal_strlit("podSelector");
    reveal_strlit("policyTypes");
    reveal_strlit("port");
    reveal_strlit("ports");
    reveal_strlit("publishNotReadyAddresses");
    reveal_strlit("selector");
    reveal_strlit("spec");
    reveal_strlit("targetPort");
    assert("apiVersion"@.len() == 10 && "clusterIP"@.len() == 9 && "ingress"@.len() == 7 && "kind"@.len() == 4);
    assert("labels"@.len() == 6 && "matchLabels"@.len() == 11 && "metadata"@.len() == 8 && "minAvailable"@.len() == 12);
    assert("name"@.len() == 4 && "namespace"@.len() == 9 && "ownerReferences"@.len() == 15 && "podSelector"@.len() == 11);
    assert("policyTypes"@.len() == 11 && "port"@.len() == 4 && "ports"@.len() == 5 && "publishNotReadyAddresses"@.len() == 24);
    assert("selector"@.len() == 8 && "spec"@.len() == 4 && "targetPort"@.len() == 10);
    assert("kind"@[0] == 'k');
    assert("name"@[0] == 'n');
    assert("podSelector"@[2] == 'd');
    assert("policyTypes"@[2] == 'l');
    assert("port"@[0] == 'p');
    assert("spec"@[0] == 's');
}

/// Discovery has the replicas that are asked for, two at least, never loses one on the way to
/// another revision, and bears the mode in which it publishes; its Service goes to the mode
/// that is asked for.
#[verifier::rlimit(60)]
#[verifier::spinoff_prover]
pub proof fn law_discovery_is_the_deployment_that_is_asked_for(
    i: BuildInput<'_>,
    f: FrameView,
    grace: i32,
)
    ensures
        ({
            let d = discovery_json(i, f, grace);
            let s = discovery_service_json(i, f);
            let p = discovery_pdb_json(f);
            let c = discovery_container_json(i, f);
            &&& json::member(d, "kind"@) == Some(JsonView::Text("Deployment"@))
            &&& json::of(json::member(d, "spec"@), "replicas"@) == Some(JsonView::Number(if i.cluster.spec.discovery_replicas >= 2 {
                i.cluster.spec.discovery_replicas as int
            } else {
                2
            }))
            &&& json::of(json::member(d, "spec"@), "minReadySeconds"@) == Some(JsonView::Number(grace as int))
            &&& json::of(json::of(json::of(json::member(d, "spec"@), "strategy"@), "rollingUpdate"@), "maxUnavailable"@) == Some(JsonView::Number(0))
            &&& json::of(json::of(json::member(d, "spec"@), "selector"@), "matchLabels"@) == Some(labels_json(f.name, "discovery"@))
            &&& json::of(json::of(json::of(json::member(d, "spec"@), "template"@), "metadata"@), "labels"@) == Some(json::entries_json(
                discovery_selector(f.name, Some(i.advertise_kodo_gateways)),
            ))
            &&& json::of(json::of(json::of(json::of(json::member(d, "spec"@), "template"@), "metadata"@), "annotations"@), "rustqueue.io/revision"@) == Some(JsonView::Text(f.revision))
            &&& json::nth(json::of(json::of(json::of(json::member(d, "spec"@), "template"@), "spec"@), "containers"@), 0) == Some(discovery_container_json(i, f))
            &&& json::of(json::of(json::nth(json::of(json::of(json::of(json::member(d, "spec"@), "template"@), "spec"@), "volumes"@), 0), "secret"@), "secretName"@) == Some(JsonView::Text(i.secret_name@))
            &&& json::of(json::nth(json::of(json::of(json::nth(json::of(json::of(json::of(json::member(d, "spec"@), "template"@), "spec"@), "volumes"@), 0), "secret"@), "items"@), 0), "key"@) == Some(JsonView::Text("registry-token"@))
            &&& json::of(json::of(json::of(json::member(d, "spec"@), "template"@), "spec"@), "serviceAccountName"@) == Some(JsonView::Text(f.name + "-runtime"@))
            &&& json::of(json::member(s, "spec"@), "selector"@) == Some(json::entries_json(
                discovery_selector(f.name, i.discovery_service_kodo),
            ))
            &&& json::of(json::nth(json::of(json::member(s, "spec"@), "ports"@), 0), "port"@) == Some(JsonView::Number(4161))
            &&& json::of(json::member(s, "metadata"@), "name"@) == Some(JsonView::Text(f.name + "-discovery"@))
            &&& json::of(json::member(p, "spec"@), "minAvailable"@) == Some(JsonView::Number(1))
            &&& json::of(json::of(json::member(p, "spec"@), "selector"@), "matchLabels"@) == Some(labels_json(f.name, "discovery"@))
            &&& json::member(c, "image"@) == Some(JsonView::Text(i.image@))
            &&& json::nth(json::member(c, "command"@), 0) == Some(JsonView::Text("rustqueue-discovery"@))
            &&& json::of(json::nth(json::member(c, "ports"@), 0), "containerPort"@) == Some(JsonView::Number(4161))
            &&& json::member(c, "env"@) == Some(JsonView::List(discovery_env_json(i, f)))
            &&& json::member(c, "imagePullPolicy"@) == Some(JsonView::Text(i.cluster.spec.image_pull_policy@))
        }),
{
    reveal(JsonView::with);
    reveal(discovery_container_json);
    reveal(discovery_json);
    reveal(discovery_pdb_json);
    reveal(discovery_service_json);
    reveal(metadata_json);
    reveal_strlit("annotations");
    reveal_strlit("apiVersion");
    reveal_strlit("command");
    reveal_strlit("containerPort");
    reveal_strlit("containers");
    reveal_strlit("env");
    reveal_strlit("image");
    reveal_strlit("imagePullPolicy");
    reveal_strlit("items");
    reveal_strlit("key");
    reveal_strlit("kind");
    reveal_strlit("labels");
    reveal_strlit("livenessProbe");
    reveal_strlit("matchLabels");
    reveal_strlit("maxSurge");
    reveal_strlit("maxUnavailable");
    reveal_strlit("metadata");
    reveal_strlit("minAvailable");
    reveal_strlit("minReadySeconds");
    reveal_strlit("name");
    reveal_strlit("namespace");
    reveal_strlit("ownerReferences");
    reveal_strlit("path");
    reveal_strlit("port");
    reveal_strlit("ports");
    reveal_strlit("readinessProbe");
    reveal_strlit("replicas");
    reveal_strlit("resources");
    reveal_strlit("rollingUpdate");
    reveal_strlit("rustqueue.io/revision");
    reveal_strlit("secret");
    reveal_strlit("secretName");
    reveal_strlit("securityContext");
    reveal_strlit("selector");
    reveal_strlit("serviceAccountName");
    reveal_strlit("spec");
    reveal_strlit("strategy");
    reveal_strlit("targetPort");
    reveal_strlit("template");
    reveal_strlit("type");
    reveal_strlit("volumeMounts");
    reveal_strlit("volumes");
    assert("annotations"@.len() == 11 && "apiVersion"@.len() == 10 && "command"@.len() == 7 && "containerPort"@.len() == 13);
    assert("containers"@.len() == 10 && "env"@.len() == 3 && "image"@.len() == 5 && "imagePullPolicy"@.len() == 15);
    assert("items"@.len() == 5 && "key"@.len() == 3 && "kind"@.len() == 4 && "labels"@.len() == 6);
    assert("livenessProbe"@.len() == 13 && "matchLabels"@.len() == 11 && "maxSurge"@.len() == 8 && "maxUnavailable"@.len() == 14);
    assert("metadata"@.len() == 8 && "minAvailable"@.len() == 12 && "minReadySeconds"@.len() == 15 && "name"@.len() == 4);
    assert("namespace"@.len() == 9 && "ownerReferences"@.len() == 15 && "path"@.len() == 4 && "port"@.len() == 4);
    assert("ports"@.len() == 5 && "readinessProbe"@.len() == 14 && "replicas"@.len() == 8 && "resources"@.len() == 9);
    assert("rollingUpdate"@.len() == 13 && "rustqueue.io/revision"@.len() == 21 && "secret"@.len() == 6 && "secretName"@.len() == 10);
    assert("securityContext"@.len() == 15 && "selector"@.len() == 8 && "serviceAccountName"@.len() == 18 && "spec"@.len() == 4);
    assert("strategy"@.len() == 8 && "targetPort"@.len() == 10 && "template"@.len() == 8 && "type"@.len() == 4);
    assert("volumeMounts"@.len() == 12 && "volumes"@.len() == 7);
    assert("image"@[0] == 'i');
    assert("imagePullPolicy"@[0] == 'i');
    assert("kind"@[0] == 'k');
    assert("name"@[0] == 'n');
    assert("port"@[0] == 'p');
    assert("ports"@[0] == 'p');
    assert("replicas"@[0] == 'r');
    assert("securityContext"@[0] == 's');
    assert("selector"@[0] == 's');
    assert("selector"@[1] == 'e');
    assert("spec"@[0] == 's');
    assert("strategy"@[0] == 's');
    assert("strategy"@[1] == 't');
    assert("template"@[0] == 't');
}

/// A proxy runs on each node of its selector, with the image that is asked for, asks Discovery
/// of its cluster, and is found by its labels.
#[verifier::rlimit(60)]
#[verifier::spinoff_prover]
pub proof fn law_proxies_run_on_every_chosen_node(
    i: BuildInput<'_>,
    f: FrameView,
)
    ensures
        ({
            let d = proxy_json(i, f);
            let s = proxy_service_json(f);
            &&& json::member(d, "kind"@) == Some(JsonView::Text("DaemonSet"@))
            &&& json::of(json::of(json::member(d, "spec"@), "selector"@), "matchLabels"@) == Some(labels_json(f.name, "proxy"@))
            &&& json::of(json::of(json::of(json::member(d, "spec"@), "template"@), "metadata"@), "labels"@) == Some(labels_json(f.name, "proxy"@))
            &&& json::of(json::of(json::of(json::of(json::member(d, "spec"@), "template"@), "metadata"@), "annotations"@), "rustqueue.io/revision"@) == Some(JsonView::Text(f.revision))
            &&& json::of(json::of(json::of(json::member(d, "spec"@), "template"@), "spec"@), "nodeSelector"@) == Some(json::entries_json(i.cluster.spec.proxy_node_selector@))
            &&& json::of(json::nth(json::of(json::of(json::of(json::member(d, "spec"@), "template"@), "spec"@), "containers"@), 0), "image"@) == Some(JsonView::Text(i.image@))
            &&& json::nth(json::of(json::nth(json::of(json::of(json::of(json::member(d, "spec"@), "template"@), "spec"@), "containers"@), 0), "command"@), 0) == Some(JsonView::Text("rustqueue-proxy"@))
            &&& json::of(json::nth(json::of(json::nth(json::of(json::of(json::of(json::member(d, "spec"@), "template"@), "spec"@), "containers"@), 0), "env"@), 0), "value"@) == Some(JsonView::Text("http://"@ + (f.name + "-discovery"@) + ":4161"@))
            &&& json::of(json::nth(json::of(json::nth(json::of(json::of(json::of(json::member(d, "spec"@), "template"@), "spec"@), "containers"@), 0), "env"@), 1), "name"@) == Some(JsonView::Text("RUSTQUEUE_PROXY_TCP_MAX_CONNECTION_AGE_SECONDS"@))
            &&& json::of(json::nth(json::of(json::nth(json::of(json::of(json::of(json::member(d, "spec"@), "template"@), "spec"@), "containers"@), 0), "env"@), 1), "value"@) == Some(JsonView::Text(text::dec(i.cluster.spec.proxy_tcp_max_connection_age_seconds as nat)))
            &&& json::of(json::nth(json::of(json::nth(json::of(json::of(json::of(json::member(d, "spec"@), "template"@), "spec"@), "containers"@), 0), "ports"@), 0), "containerPort"@) == Some(JsonView::Number(4150))
            &&& json::of(json::nth(json::of(json::nth(json::of(json::of(json::of(json::member(d, "spec"@), "template"@), "spec"@), "containers"@), 0), "ports"@), 1), "containerPort"@) == Some(JsonView::Number(4151))
            &&& json::of(json::of(json::of(json::member(d, "spec"@), "template"@), "spec"@), "terminationGracePeriodSeconds"@) == Some(JsonView::Number(45))
            &&& json::of(json::member(s, "spec"@), "selector"@) == Some(labels_json(f.name, "proxy"@))
            &&& json::of(json::nth(json::of(json::member(s, "spec"@), "ports"@), 0), "port"@) == Some(JsonView::Number(4150))
            &&& json::of(json::nth(json::of(json::member(s, "spec"@), "ports"@), 0), "targetPort"@) == Some(JsonView::Text("tcp"@))
            &&& json::of(json::nth(json::of(json::member(s, "spec"@), "ports"@), 1), "port"@) == Some(JsonView::Number(4151))
            &&& json::of(json::nth(json::of(json::member(s, "spec"@), "ports"@), 1), "targetPort"@) == Some(JsonView::Text("http"@))
            &&& json::of(json::member(s, "metadata"@), "name"@) == Some(JsonView::Text(f.name + "-proxy"@))
        }),
{
    reveal(JsonView::with);
    reveal(metadata_json);
    reveal(proxy_container_json);
    reveal(proxy_json);
    reveal(proxy_service_json);
    reveal_strlit("annotations");
    reveal_strlit("apiVersion");
    reveal_strlit("command");
    reveal_strlit("containerPort");
    reveal_strlit("containers");
    reveal_strlit("env");
    reveal_strlit("image");
    reveal_strlit("imagePullPolicy");
    reveal_strlit("kind");
    reveal_strlit("labels");
    reveal_strlit("livenessProbe");
    reveal_strlit("matchLabels");
    reveal_strlit("metadata");
    reveal_strlit("name");
    reveal_strlit("namespace");
    reveal_strlit("nodeSelector");
    reveal_strlit("ownerReferences");
    reveal_strlit("port");
    reveal_strlit("ports");
    reveal_strlit("readinessProbe");
    reveal_strlit("resources");
    reveal_strlit("rustqueue.io/revision");
    reveal_strlit("securityContext");
    reveal_strlit("selector");
    reveal_strlit("spec");
    reveal_strlit("targetPort");
    reveal_strlit("template");
    reveal_strlit("terminationGracePeriodSeconds");
    reveal_strlit("value");
    assert("annotations"@.len() == 11 && "apiVersion"@.len() == 10 && "command"@.len() == 7 && "containerPort"@.len() == 13);
    assert("containers"@.len() == 10 && "env"@.len() == 3 && "image"@.len() == 5 && "imagePullPolicy"@.len() == 15);
    assert("kind"@.len() == 4 && "labels"@.len() == 6 && "livenessProbe"@.len() == 13 && "matchLabels"@.len() == 11);
    assert("metadata"@.len() == 8 && "name"@.len() == 4 && "namespace"@.len() == 9 && "nodeSelector"@.len() == 12);
    assert("ownerReferences"@.len() == 15 && "port"@.len() == 4 && "ports"@.len() == 5 && "readinessProbe"@.len() == 14);
    assert("resources"@.len() == 9 && "rustqueue.io/revision"@.len() == 21 && "securityContext"@.len() == 15 && "selector"@.len() == 8);
    assert("spec"@.len() == 4 && "targetPort"@.len() == 10 && "template"@.len() == 8 && "terminationGracePeriodSeconds"@.len() == 29);
    assert("value"@.len() == 5);
    assert("image"@[0] == 'i');
    assert("imagePullPolicy"@[0] == 'i');
    assert("kind"@[0] == 'k');
    assert("name"@[0] == 'n');
    assert("port"@[0] == 'p');
    assert("ports"@[0] == 'p');
    assert("securityContext"@[0] == 's');
    assert("selector"@[0] == 's');
    assert("spec"@[0] == 's');
    assert("template"@[0] == 't');
}

/// The configuration of the brokers is written where their pods look for it, and what is made
/// for a cluster is named, labelled and owned as its own.
#[verifier::rlimit(60)]
#[verifier::spinoff_prover]
pub proof fn law_configurations_and_owners_are_written(
    i: BuildInput<'_>,
    f: FrameView,
    resource: Seq<char>,
    component: Seq<char>,
    uid: Seq<char>,
)
    ensures
        ({
            let c = config_json(i, f);
            let m = metadata_json(f, resource, component);
            let o = owner_json(f.name, uid);
            &&& json::of(json::member(c, "data"@), "rustqueue.toml"@) == Some(JsonView::Text(config_text(*i.cluster, i.secret_name@)))
            &&& json::of(json::member(c, "metadata"@), "name"@) == Some(JsonView::Text(f.name + "-config"@))
            &&& json::member(m, "name"@) == Some(JsonView::Text(resource))
            &&& json::member(m, "namespace"@) == Some(JsonView::Text(f.namespace))
            &&& json::member(m, "labels"@) == Some(labels_json(f.name, component))
            &&& json::nth(json::member(m, "ownerReferences"@), 0) == Some(f.owner)
            &&& json::member(o, "kind"@) == Some(JsonView::Text("RustQueue"@))
            &&& json::member(o, "name"@) == Some(JsonView::Text(f.name))
            &&& json::member(o, "uid"@) == Some(JsonView::Text(uid))
            &&& json::member(o, "controller"@) == Some(JsonView::Bool(true))
        }),
{
    reveal(JsonView::with);
    reveal(config_json);
    reveal(metadata_json);
    reveal(owner_json);
    reveal_strlit("apiVersion");
    reveal_strlit("controller");
    reveal_strlit("data");
    reveal_strlit("kind");
    reveal_strlit("labels");
    reveal_strlit("metadata");
    reveal_strlit("name");
    reveal_strlit("namespace");
    reveal_strlit("ownerReferences");
    reveal_strlit("rustqueue.toml");
    reveal_strlit("uid");
    assert("apiVersion"@.len() == 10 && "controller"@.len() == 10 && "data"@.len() == 4 && "kind"@.len() == 4);
    assert("labels"@.len() == 6 && "metadata"@.len() == 8 && "name"@.len() == 4 && "namespace"@.len() == 9);
    assert("ownerReferences"@.len() == 15 && "rustqueue.toml"@.len() == 14 && "uid"@.len() == 3);
    assert("apiVersion"@[0] == 'a');
    assert("controller"@[0] == 'c');
    assert("data"@[0] == 'd');
    assert("kind"@[0] == 'k');
    assert("name"@[0] == 'n');
}

/// A revision is made of what a broker runs with: its image, its configuration, its secrets and
/// their revision, its cache, its nodes, its scheduling and its resources.
#[verifier::rlimit(60)]
#[verifier::spinoff_prover]
pub proof fn law_revisions_depend_on_what_brokers_run_with(
    i: BuildInput<'_>,
)
    ensures
        ({
            let d = revision_contract_json(i);
            &&& json::member(d, "image"@) == Some(JsonView::Text(i.image@))
            &&& json::member(d, "imagePullPolicy"@) == Some(JsonView::Text(i.cluster.spec.image_pull_policy@))
            &&& json::member(d, "config"@) == Some(JsonView::Text(config_text(*i.cluster, i.secret_name@)))
            &&& json::member(d, "secretName"@) == Some(JsonView::Text(i.secret_name@))
            &&& json::member(d, "mountedSecretRevision"@) == Some(JsonView::Text(i.mounted_secret_revision@))
            &&& json::member(d, "messageIndexCacheBytes"@) == Some(JsonView::Number(i.cluster.spec.message_index_cache_bytes as int))
            &&& json::member(d, "eligibleNodeSelector"@) == Some(JsonView::Text(i.cluster.spec.eligible_node_selector@))
            &&& json::member(d, "brokerScheduling"@) == Some(scheduling_json(i.cluster.spec.broker_scheduling))
            &&& json::member(d, "brokerResources"@) == Some(resources_contract_json(i.cluster.spec.broker_resources))
        }),
{
    reveal(JsonView::with);
    reveal(revision_contract_json);
    reveal_strlit("brokerResources");
    reveal_strlit("brokerScheduling");
    reveal_strlit("clientTlsSecretName");
    reveal_strlit("config");
    reveal_strlit("eligibleNodeSelector");
    reveal_strlit("image");
    reveal_strlit("imagePullPolicy");
    reveal_strlit("messageIndexCacheBytes");
    reveal_strlit("mountedSecretRevision");
    reveal_strlit("secretName");
    assert("brokerResources"@.len() == 15 && "brokerScheduling"@.len() == 16 && "clientTlsSecretName"@.len() == 19 && "config"@.len() == 6);
    assert("eligibleNodeSelector"@.len() == 20 && "image"@.len() == 5 && "imagePullPolicy"@.len() == 15 && "messageIndexCacheBytes"@.len() == 22);
    assert("mountedSecretRevision"@.len() == 21 && "secretName"@.len() == 10);
    assert("brokerResources"@[0] == 'b');
    assert("imagePullPolicy"@[0] == 'i');
}

/// Pods and what selects them are labelled with their cluster and their component.
pub proof fn law_labels_tell_cluster_and_component(name: Seq<char>, component: Seq<char>)
    ensures
        ({
            let e = component_entries(base_entries(name), component);
            &&& string_map::lookup(e, "app.kubernetes.io/instance"@) == Some(name)
            &&& string_map::lookup(e, "app.kubernetes.io/component"@) == Some(component)
            &&& string_map::lookup(e, "app.kubernetes.io/name"@) == Some("rustqueue"@)
            &&& string_map::lookup(e, "app.kubernetes.io/managed-by"@) == Some(
                "rustqueue-operator"@,
            )
        }),
        string_map::keys_sorted(component_entries(base_entries(name), component)),
{
    lemma_label_names();
    let a = string_map::put(Seq::empty(), "app.kubernetes.io/name"@, "rustqueue"@);
    string_map::lemma_put(Seq::empty(), "app.kubernetes.io/name"@, "rustqueue"@);
    let b = string_map::put(a, "app.kubernetes.io/instance"@, name);
    string_map::lemma_put(a, "app.kubernetes.io/instance"@, name);
    string_map::lemma_put(b, "app.kubernetes.io/managed-by"@, "rustqueue-operator"@);
    string_map::lemma_put(base_entries(name), "app.kubernetes.io/component"@, component);
}

proof fn lemma_label_names()
    ensures
        "app.kubernetes.io/name"@.len() == 22,
        "app.kubernetes.io/instance"@.len() == 26,
        "app.kubernetes.io/managed-by"@.len() == 28,
        "app.kubernetes.io/component"@.len() == 27,
        "rustqueue.io/discovery-publisher-mode"@.len() == 37,
{
    reveal_strlit("app.kubernetes.io/name");
    reveal_strlit("app.kubernetes.io/instance");
    reveal_strlit("app.kubernetes.io/managed-by");
    reveal_strlit("app.kubernetes.io/component");
    reveal_strlit("rustqueue.io/discovery-publisher-mode");
}

/// Discovery is selected by its mode where there is one, and bears all its other labels in either
/// mode.
pub proof fn law_discovery_is_selected_by_its_mode(name: Seq<char>, kodo: Option<bool>)
    ensures
        ({
            let e = discovery_selector(name, kodo);
            let mode = string_map::lookup(e, "rustqueue.io/discovery-publisher-mode"@);
            &&& kodo == Some(true) ==> mode == Some("kodo"@)
            &&& kodo == Some(false) ==> mode == Some("direct"@)
            &&& kodo is None ==> mode is None
            &&& string_map::lookup(e, "app.kubernetes.io/instance"@) == Some(name)
            &&& string_map::lookup(e, "app.kubernetes.io/component"@) == Some("discovery"@)
        }),
{
    lemma_label_names();
    law_labels_tell_cluster_and_component(name, "discovery"@);
    let base = component_entries(base_entries(name), "discovery"@);
    let key = "rustqueue.io/discovery-publisher-mode"@;
    string_map::lemma_put(base, key, "kodo"@);
    string_map::lemma_put(base, key, "direct"@);
    let a = string_map::put(Seq::empty(), "app.kubernetes.io/name"@, "rustqueue"@);
    string_map::lemma_put(Seq::empty(), "app.kubernetes.io/name"@, "rustqueue"@);
    let b = string_map::put(a, "app.kubernetes.io/instance"@, name);
    string_map::lemma_put(a, "app.kubernetes.io/instance"@, name);
    string_map::lemma_put(b, "app.kubernetes.io/managed-by"@, "rustqueue-operator"@);
    string_map::lemma_put(base_entries(name), "app.kubernetes.io/component"@, "discovery"@);
    assert(string_map::lookup(Seq::<(Seq<char>, Seq<char>)>::empty(), key) is None);
}

/// A broker asks for the processor and the memory that are set, and is limited only where a limit
/// is set.
pub proof fn law_resources_are_those_of_the_workload(w: WorkloadResources)
    ensures
        ({
            let r = workload_json(w);
            let requests = json::member(r, "requests"@);
            let limits = json::member(r, "limits"@);
            &&& json::of(requests, "cpu"@) == Some(JsonView::Text(w.cpu_request@))
            &&& json::of(requests, "memory"@) == Some(JsonView::Text(w.memory_request@))
            &&& limits is Some <==> w.cpu_limit is Some || w.memory_limit is Some
            &&& w.cpu_limit is Some ==> json::of(limits, "cpu"@) == Some(
                JsonView::Text(w.cpu_limit->0@),
            )
            &&& w.cpu_limit is None ==> json::of(limits, "cpu"@) is None
            &&& w.memory_limit is Some ==> json::of(limits, "memory"@) == Some(
                JsonView::Text(w.memory_limit->0@),
            )
            &&& w.memory_limit is None ==> json::of(limits, "memory"@) is None
        }),
{
    reveal(JsonView::with);
    reveal_strlit("requests");
    reveal_strlit("limits");
    reveal_strlit("cpu");
    reveal_strlit("memory");
    assert("requests"@.len() == 8 && "limits"@.len() == 6 && "cpu"@.len() == 3 && "memory"@.len()
        == 6);
}

/// The volumes of a broker are its configuration, its tokens and, where it has one, its
/// certificate; each is mounted where the configuration looks for it.
pub proof fn law_volumes_hold_configuration_and_secrets(i: BuildInput<'_>, f: FrameView)
    ensures
        ({
            let v = Some(JsonView::List(broker_volumes_json(i, f)));
            let m = Some(JsonView::List(broker_mounts_json(i)));
            let tls = i.cluster.spec.client_tls_secret_name;
            &&& json::of(json::nth(v, 0), "name"@) == Some(JsonView::Text("config"@))
            &&& json::of(json::of(json::nth(v, 0), "configMap"@), "name"@) == Some(
                JsonView::Text(f.name + "-config"@),
            )
            &&& json::of(json::nth(v, 1), "name"@) == Some(JsonView::Text("auth"@))
            &&& json::of(json::of(json::nth(v, 1), "secret"@), "secretName"@) == Some(
                JsonView::Text(i.secret_name@),
            )
            &&& tls is Some ==> json::of(json::of(json::nth(v, 2), "secret"@), "secretName"@)
                == Some(JsonView::Text(tls->0@)) && json::of(json::nth(v, 2), "name"@) == Some(
                JsonView::Text("client-tls"@),
            ) && json::of(json::nth(m, 3), "name"@) == Some(JsonView::Text("client-tls"@))
                && json::of(json::nth(m, 3), "mountPath"@) == Some(
                JsonView::Text("/run/tls/rustqueue"@),
            )
            &&& tls is None ==> json::nth(v, 2) is None && json::nth(m, 3) is None
            &&& json::of(json::nth(m, 0), "name"@) == Some(JsonView::Text("data"@))
            &&& json::of(json::nth(m, 0), "mountPath"@) == Some(JsonView::Text("/data"@))
            &&& json::of(json::nth(m, 1), "name"@) == Some(JsonView::Text("config"@))
            &&& json::of(json::nth(m, 1), "mountPath"@) == Some(JsonView::Text("/etc/rustqueue"@))
            &&& json::of(json::nth(m, 2), "name"@) == Some(JsonView::Text("auth"@))
            &&& json::of(json::nth(m, 2), "mountPath"@) == Some(
                JsonView::Text("/run/secrets/rustqueue"@),
            )
            &&& json::of(json::nth(m, 2), "readOnly"@) == Some(JsonView::Bool(true))
        }),
{
    reveal(JsonView::with);
    reveal_strlit("name");
    reveal_strlit("configMap");
    reveal_strlit("secret");
    reveal_strlit("secretName");
    reveal_strlit("mountPath");
    reveal_strlit("readOnly");
    assert("name"@.len() == 4 && "configMap"@.len() == 9 && "secret"@.len() == 6
        && "secretName"@.len() == 10 && "mountPath"@.len() == 9 && "readOnly"@.len() == 8);
    assert("configMap"@[0] == 'c' && "mountPath"@[0] == 'm');
}

/// Discovery is told of the brokers of its cluster, and of the gateways exactly where it is to
/// name them.
pub proof fn law_discovery_is_told_of_gateways_when_it_names_them(i: BuildInput<'_>, f: FrameView)
    ensures
        ({
            let v = discovery_env_json(i, f);
            let e = Some(JsonView::List(v));
            &&& v.len() == if i.advertise_kodo_gateways {
                6nat
            } else {
                3
            }
            &&& json::of(json::nth(e, 1), "name"@) == Some(
                JsonView::Text("RUSTQUEUE_BROKER_SERVICE"@),
            )
            &&& json::of(json::nth(e, 1), "value"@) == Some(JsonView::Text(f.name + "-brokers"@))
            &&& json::of(json::nth(e, 2), "value"@) == Some(
                JsonView::Text("/run/secrets/rustqueue/registry-token"@),
            )
            &&& i.advertise_kodo_gateways ==> json::of(json::nth(e, 3), "name"@) == Some(
                JsonView::Text("RUSTQUEUE_KODO_COMPATIBILITY_ENABLED"@),
            ) && json::of(json::nth(e, 3), "value"@) == Some(JsonView::Text("true"@))
                && json::of(json::nth(e, 4), "value"@) == Some(JsonView::Text("false"@))
                && json::of(json::nth(e, 5), "value"@) == Some(
                JsonView::Text((f.name + "-kodo-publish"@) + "."@ + f.namespace + ".svc"@),
            )
        }),
{
    reveal(JsonView::with);
    reveal_strlit("name");
    reveal_strlit("value");
    reveal_strlit("valueFrom");
    assert("name"@.len() == 4 && "value"@.len() == 5 && "valueFrom"@.len() == 9);
}

/// Brokers are reached by all, but where Kodo is served the port for producers is for the cluster
/// itself and those who are allowed.
pub proof fn law_brokers_are_reached_by_those_allowed(i: BuildInput<'_>, f: FrameView)
    ensures
        ({
            let e = Some(JsonView::List(broker_ingress_json(i, f)));
            let k = i.cluster.spec.kodo_compatibility;
            let first = json::nth(e, 0);
            let everyone = Some(
                JsonView::object().with("namespaceSelector"@, JsonView::object()),
            );
            &&& json::of(json::nth(json::of(first, "ports"@), 0), "port"@) == Some(
                JsonView::Number(4150),
            )
            &&& k.enabled ==> json::nth(json::of(first, "from"@), 1) == Some(kodo::peer_json(k))
                && json::nth(json::of(first, "ports"@), 1) is None && json::of(
                json::nth(json::of(json::nth(e, 1), "ports"@), 0),
                "port"@,
            ) == Some(JsonView::Number(4151)) && json::nth(
                json::of(json::nth(e, 1), "from"@),
                0,
            ) == everyone
            &&& k.enabled ==> json::of(
                json::of(
                    json::of(json::nth(json::of(first, "from"@), 0), "podSelector"@),
                    "matchLabels"@,
                ),
                "app.kubernetes.io/instance"@,
            ) == Some(JsonView::Text(f.name))
            &&& !k.enabled ==> json::nth(json::of(first, "from"@), 0) == everyone && json::of(
                json::nth(json::of(first, "ports"@), 1),
                "port"@,
            ) == Some(JsonView::Number(4151)) && json::nth(e, 1) is None
        }),
{
    reveal(broker_ingress_json);
    reveal(JsonView::with);
    reveal_strlit("from");
    reveal_strlit("ports");
    reveal_strlit("port");
    reveal_strlit("protocol");
    reveal_strlit("podSelector");
    reveal_strlit("matchLabels");
    assert("from"@.len() == 4 && "ports"@.len() == 5 && "port"@.len() == 4 && "protocol"@.len()
        == 8);
}

/// Tolerations are taken over one by one, with what each has.
pub proof fn law_tolerations_are_taken_over(v: Seq<BrokerToleration>, k: int)
    requires
        0 <= k < v.len(),
    ensures
        tolerations_json(v).len() == v.len(),
        tolerations_json(v)[k] == toleration_json(v[k]),
    decreases v.len(),
{
    if k < v.len() - 1 {
        law_tolerations_are_taken_over(v.drop_last(), k);
    } else if v.len() > 1 {
        law_tolerations_are_taken_over(v.drop_last(), 0);
    } else {
        assert(tolerations_json(v.drop_last()).len() == 0);
    }
}

/// Nodes are chosen by one label, `key=value`, without the spaces round either.
pub proof fn law_nodes_are_chosen_by_one_label(key: Seq<char>, value: Seq<char>)
    requires
        text::split_first(key + "="@ + value, '=') == Some((key, value)),
    ensures
        ({
            let r = node_selector(key + "="@ + value);
            &&& r is Some <==> !text::is_blank(key) && !text::is_blank(value) && !text::has_text(
                key,
                ","@,
            ) && !text::has_text(value, ","@)
            &&& r is Some ==> r->0 == seq![(text::trimmed(key), text::trimmed(value))]
        }),
{
}

/// Resources can be built exactly where the cluster has a namespace and an identity, its nodes can
/// be chosen, and its grace is not too long.
pub proof fn law_resources_can_be_built(i: BuildInput<'_>)
    ensures
        ({
            let k = i.cluster.spec.kodo_compatibility;
            let served = k.enabled || i.retain_existing_kodo_resources;
            build_fault(i) is None <==> i.cluster.metadata.namespace is Some
                && i.cluster.metadata.uid is Some && node_selector(
                i.cluster.spec.eligible_node_selector@,
            ) is Some && (served ==> k.cutover_grace_seconds + 30 <= i32::MAX)
        }),
        build_fault(i) == Some(BuildError::NoNamespace) <==> i.cluster.metadata.namespace is None,
        build_fault(i) == Some(BuildError::NoOwner) ==> i.cluster.metadata.uid is None,
        build_fault(i) == Some(BuildError::NodeSelector) ==> node_selector(
            i.cluster.spec.eligible_node_selector@,
        ) is None,
{
}

/// Discovery is ready half a minute after it is, and where Kodo is served or left only when the
/// grace is over as well.
pub proof fn law_discovery_waits_for_the_grace(i: BuildInput<'_>)
    requires
        i.cluster.spec.kodo_compatibility.cutover_grace_seconds <= i32::MAX,
    ensures
        ({
            let k = i.cluster.spec.kodo_compatibility;
            &&& k.enabled || i.retain_existing_kodo_resources ==> ready_seconds(i)
                == k.cutover_grace_seconds + 30
            &&& !k.enabled && !i.retain_existing_kodo_resources ==> ready_seconds(i) == 30
        }),
{
}

/// What is built is what the cluster asks for: the gateways exactly where Kodo is served or they
/// are kept, and everything else always.
pub proof fn law_gateways_are_built_for_kodo(
    s: ResourceSet,
    i: BuildInput<'_>,
    revision: Seq<char>,
)
    requires
        is_built(s, i, revision),
    ensures
        ({
            let f = frame_of(i, revision);
            let served = i.cluster.spec.kodo_compatibility.enabled
                || i.retain_existing_kodo_resources;
            &&& s.revision@ == revision
            &&& f.name == i.cluster.metadata.name@ && f.revision == revision
            &&& f.namespace == i.cluster.metadata.namespace->0@
            &&& s.kodo_gateway is Some <==> served
            &&& s.kodo_gateway_service is Some <==> served
            &&& s.kodo_gateway_headless_service is Some <==> served
            &&& s.kodo_gateway_pdb is Some <==> served
            &&& s.kodo_gateway_network_policy is Some <==> served
            &&& served ==> json::json_held(s.kodo_gateway->0) == kodo::gateway_json(i, f)
            &&& json::json_held(s.brokers) == brokers_json(
                i,
                f,
                node_selector(i.cluster.spec.eligible_node_selector@)->0,
            )
            &&& json::json_held(s.config) == config_json(i, f)
            &&& json::json_held(s.discovery) == discovery_json(i, f, ready_seconds(i) as i32)
            &&& json::json_held(s.proxy) == proxy_json(i, f)
        }),
{
}

/// What is applied is everything that was built, each once: what guards and configures the
/// brokers and the brokers themselves come before what runs beside them.
pub proof fn law_everything_that_is_built_is_applied(s: ResourceSet)
    ensures
        ({
            let all = s.full_order();
            let r = s.runtime_order();
            &&& all.len() == 4 + r.len()
            &&& all[0] == s.config && all[1] == s.broker_network_policy && all[2] == s.brokers
                && all[3] == s.broker_pdb
            &&& forall|n: int| 0 <= n < r.len() ==> all[n + 4] == #[trigger] r[n]
            &&& r.len() == 10 + (if s.kodo_gateway is Some {
                1int
            } else {
                0
            }) + (if s.kodo_gateway_service is Some {
                1int
            } else {
                0
            }) + (if s.kodo_gateway_headless_service is Some {
                1int
            } else {
                0
            }) + (if s.kodo_gateway_pdb is Some {
                1int
            } else {
                0
            }) + (if s.kodo_gateway_network_policy is Some {
                1int
            } else {
                0
            })
            &&& r[0] == s.service_account && r[1] == s.role && r[2] == s.role_binding && r[3]
                == s.network_policy
        }),
{
}

/// A thing of the gateways is removed exactly where it is no longer wanted, need not be kept, and
/// belongs to the cluster.
pub proof fn law_only_own_things_are_removed(
    in_set: bool,
    retain: bool,
    owners: Vec<OwnerRef>,
    uid: Option<String>,
    r: bool,
)
    requires
        call_ensures(is_obsolete, (in_set, retain, &owners, &uid), r),
    ensures
        in_set || retain || uid is None ==> !r,
        !in_set && !retain && uid is Some ==> (r <==> exists|k: int|
            0 <= k < owners@.len() && (#[trigger] owners@[k]).controller && owners@[k].uid@
                == uid->0@),
{
}

/// Entries are written under their keys, and nothing else is.
pub proof fn law_entries_are_written_under_their_keys(
    v: Seq<(Seq<char>, Seq<char>)>,
    key: Seq<char>,
)
    ensures
        json::entries_json(v) is Object,
        json::member(json::entries_json(v), key) == (match string_map::lookup(v, key) {
            Some(t) => Some(JsonView::Text(t)),
            None => None,
        }),
    decreases v.len(),
{
    if v.len() > 0 {
        let d = v.drop_last();
        law_entries_are_written_under_their_keys(d, key);
        json::lemma_member(
            json::entries_json(d),
            v.last().0,
            JsonView::Text(v.last().1),
            key,
        );
    }
}

} // verus!
