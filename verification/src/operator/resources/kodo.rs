//! The resources of the gateways that serve Kodo.
use crate::json::{self, Doc, Items, JsonView};
use crate::operator::crd::KodoCompatibility;
use crate::operator::resources::{self, BuildInput, Frame, FrameView};
use crate::string_map::{self, StringMap};
use serde_json::Value;
use vstd::prelude::*;
use vstd::string::*;

verus! {

/// The resources of the gateways, as documents.
pub struct KodoResources {
    pub service: Value,
    pub headless_service: Value,
    pub gateway: Value,
    pub pdb: Value,
    pub network_policy: Value,
}

/// The labels of the service that Kodo publishes to.
pub open spec fn publish_labels(name: Seq<char>) -> Seq<(Seq<char>, Seq<char>)> {
    string_map::put(
        resources::component_entries(resources::base_entries(name), "kodo-gateway"@),
        "rustqueue.io/metrics"@,
        "true"@,
    )
}

fn publish_labels_of(name: &str) -> (r: StringMap)
    ensures
        r@ == publish_labels(name@),
{
    let mut m = resources::labels_for(&resources::base_labels(name), "kodo-gateway");
    m.insert("rustqueue.io/metrics", "true");
    m
}

/// Who may reach the gateways: the pods that are named, in the namespaces that
/// are named, or in that of the cluster.
pub open spec fn peer_json(k: KodoCompatibility) -> JsonView {
    let pods = JsonView::object().with(
        "podSelector"@,
        JsonView::object().with("matchLabels"@, json::entries_json(k.effective_pods())),
    );
    if k.allowed_namespace_selector@.len() == 0 {
        pods
    } else {
        pods.with(
            "namespaceSelector"@,
            JsonView::object().with(
                "matchLabels"@,
                json::entries_json(k.allowed_namespace_selector@),
            ),
        )
    }
}

/// Who may reach the gateways.
pub fn allowed_peer(k: &KodoCompatibility) -> (r: Doc)
    ensures
        r@ == peer_json(*k),
        r@ is Object,
{
    let pods = Doc::new().doc(
        "podSelector",
        Doc::new().doc("matchLabels", Doc::of_map(&k.effective_allowed_pod_selector())),
    );
    if k.allowed_namespace_selector.is_empty() {
        pods
    } else {
        pods.doc(
            "namespaceSelector",
            Doc::new().doc("matchLabels", Doc::of_map(&k.allowed_namespace_selector)),
        )
    }
}

/// The service that Kodo publishes to.
#[verifier::opaque]
pub open spec fn service_json(f: FrameView) -> JsonView {
    JsonView::object()
        .text("apiVersion"@, "v1"@)
        .text("kind"@, "Service"@)
        .with(
            "metadata"@,
            JsonView::object()
                .text("name"@, f.name + "-kodo-publish"@)
                .text("namespace"@, f.namespace)
                .with("labels"@, json::entries_json(publish_labels(f.name)))
                .list(
                    "ownerReferences"@,
                    json::none()
                        .push(f.owner),
                ),
        )
        .with(
            "spec"@,
            JsonView::object()
                .with("selector"@, resources::labels_json(f.name, "kodo-gateway"@))
                .list(
                    "ports"@,
                    json::none()
                        .push(JsonView::object()
                            .text("name"@, "tcp-0"@)
                            .number("port"@, 4150)
                            .text("targetPort"@, "tcp"@))
                        .push(JsonView::object()
                            .text("name"@, "tcp-1"@)
                            .number("port"@, 4152)
                            .text("targetPort"@, "tcp"@))
                        .push(JsonView::object()
                            .text("name"@, "tcp-2"@)
                            .number("port"@, 4153)
                            .text("targetPort"@, "tcp"@))
                        .push(JsonView::object()
                            .text("name"@, "http-0"@)
                            .number("port"@, 4151)
                            .text("targetPort"@, "http-0"@))
                        .push(JsonView::object()
                            .text("name"@, "http-1"@)
                            .number("port"@, 4154)
                            .text("targetPort"@, "http-1"@))
                        .push(JsonView::object()
                            .text("name"@, "http-2"@)
                            .number("port"@, 4155)
                            .text("targetPort"@, "http-2"@))
                        .push(JsonView::object()
                            .text("name"@, "metrics"@)
                            .number("port"@, 4160)
                            .text("targetPort"@, "metrics"@)),
                ),
        )
}

fn service(f: &Frame<'_>) -> (r: Value)
    ensures
        json::json_held(r) == service_json(f@),
{
    reveal(service_json);
    Doc::new()
        .text("apiVersion", "v1")
        .text("kind", "Service")
        .doc(
            "metadata",
            Doc::new()
                .text("name", resources::suffixed(f.name, "-kodo-publish").as_str())
                .text("namespace", f.namespace)
                .doc("labels", Doc::of_map(&publish_labels_of(f.name)))
                .list(
                    "ownerReferences",
                    Items::new()
                        .item(json::json_copy(&f.owner))
                        .done(),
                ),
        )
        .doc(
            "spec",
            Doc::new()
                .doc("selector", resources::labels(f.name, "kodo-gateway"))
                .list(
                    "ports",
                    Items::new()
                        .doc(Doc::new()
                            .text("name", "tcp-0")
                            .number("port", 4150)
                            .text("targetPort", "tcp"))
                        .doc(Doc::new()
                            .text("name", "tcp-1")
                            .number("port", 4152)
                            .text("targetPort", "tcp"))
                        .doc(Doc::new()
                            .text("name", "tcp-2")
                            .number("port", 4153)
                            .text("targetPort", "tcp"))
                        .doc(Doc::new()
                            .text("name", "http-0")
                            .number("port", 4151)
                            .text("targetPort", "http-0"))
                        .doc(Doc::new()
                            .text("name", "http-1")
                            .number("port", 4154)
                            .text("targetPort", "http-1"))
                        .doc(Doc::new()
                            .text("name", "http-2")
                            .number("port", 4155)
                            .text("targetPort", "http-2"))
                        .doc(Doc::new()
                            .text("name", "metrics")
                            .number("port", 4160)
                            .text("targetPort", "metrics"))
                        .done(),
                ),
        )
        .done()
}

/// The service that gives each gateway its name.
#[verifier::opaque]
pub open spec fn headless_service_json(f: FrameView) -> JsonView {
    JsonView::object()
        .text("apiVersion"@, "v1"@)
        .text("kind"@, "Service"@)
        .with("metadata"@, resources::metadata_json(f, f.name + "-kodo-gateways"@, "kodo-gateway"@))
        .with(
            "spec"@,
            JsonView::object()
                .text("clusterIP"@, "None"@)
                .flag("publishNotReadyAddresses"@, true)
                .with("selector"@, resources::labels_json(f.name, "kodo-gateway"@))
                .list(
                    "ports"@,
                    json::none()
                        .push(JsonView::object()
                            .text("name"@, "tcp"@)
                            .number("port"@, 4150)
                            .text("targetPort"@, "tcp"@))
                        .push(JsonView::object()
                            .text("name"@, "http-0"@)
                            .number("port"@, 4151)
                            .text("targetPort"@, "http-0"@)),
                ),
        )
}

fn headless_service(f: &Frame<'_>) -> (r: Value)
    ensures
        json::json_held(r) == headless_service_json(f@),
{
    reveal(headless_service_json);
    Doc::new()
        .text("apiVersion", "v1")
        .text("kind", "Service")
        .doc("metadata", resources::metadata(f, resources::suffixed(f.name, "-kodo-gateways").as_str(), "kodo-gateway"))
        .doc(
            "spec",
            Doc::new()
                .text("clusterIP", "None")
                .flag("publishNotReadyAddresses", true)
                .doc("selector", resources::labels(f.name, "kodo-gateway"))
                .list(
                    "ports",
                    Items::new()
                        .doc(Doc::new()
                            .text("name", "tcp")
                            .number("port", 4150)
                            .text("targetPort", "tcp"))
                        .doc(Doc::new()
                            .text("name", "http-0")
                            .number("port", 4151)
                            .text("targetPort", "http-0"))
                        .done(),
                ),
        )
        .done()
}

/// The container of a gateway.
#[verifier::opaque]
pub open spec fn gateway_container_json(i: BuildInput<'_>, f: FrameView) -> JsonView {
    JsonView::object()
        .text("name"@, "gateway"@)
        .text("image"@, i.image@)
        .text("imagePullPolicy"@, i.cluster.spec.image_pull_policy@)
        .list(
            "command"@,
            json::none()
                .push(JsonView::Text("rustqueue-proxy"@)),
        )
        .list(
            "ports"@,
            json::none()
                .push(JsonView::object()
                    .text("name"@, "tcp"@)
                    .number("containerPort"@, 4150))
                .push(JsonView::object()
                    .text("name"@, "http-0"@)
                    .number("containerPort"@, 4151))
                .push(JsonView::object()
                    .text("name"@, "http-1"@)
                    .number("containerPort"@, 4154))
                .push(JsonView::object()
                    .text("name"@, "http-2"@)
                    .number("containerPort"@, 4155))
                .push(JsonView::object()
                    .text("name"@, "metrics"@)
                    .number("containerPort"@, 4160)),
        )
        .list(
            "env"@,
            json::none()
                .push(JsonView::object()
                    .text("name"@, "POD_NAME"@)
                    .with(
                        "valueFrom"@,
                        JsonView::object()
                            .with(
                                "fieldRef"@,
                                JsonView::object()
                                    .text("fieldPath"@, "metadata.name"@),
                            ),
                    ))
                .push(JsonView::object()
                    .text("name"@, "RUSTQUEUE_DISCOVERY_URLS"@)
                    .text("value"@, "http://"@ + (f.name + "-discovery"@) + ":4161"@))
                .push(JsonView::object()
                    .text("name"@, "RUSTQUEUE_KODO_COMPATIBILITY_ENABLED"@)
                    .text("value"@, "true"@))
                .push(JsonView::object()
                    .text("name"@, "RUSTQUEUE_KODO_CLEANUP_ENABLED"@)
                    .text("value"@, "false"@))
                .push(JsonView::object()
                    .text("name"@, "RUSTQUEUE_PROXY_MAX_MESSAGE_BYTES"@)
                    .text("value"@, "104857600"@))
                .push(JsonView::object()
                    .text("name"@, "RUSTQUEUE_PROXY_MAX_BODY_BYTES"@)
                    .text("value"@, "134217728"@))
                .push(JsonView::object()
                    .text("name"@, "RUSTQUEUE_PROXY_MAX_INFLIGHT_BYTES"@)
                    .text("value"@, "536870912"@))
                .push(JsonView::object()
                    .text("name"@, "RUSTQUEUE_PROXY_TCP_COMMAND_TIMEOUT_MS"@)
                    .text("value"@, "120000"@))
                .push(JsonView::object()
                    .text("name"@, "RUSTQUEUE_PROXY_TCP_MAX_CONNECTION_AGE_SECONDS"@)
                    .text("value"@, "0"@))
                .push(JsonView::object()
                    .text("name"@, "RUSTQUEUE_PROXY_SHUTDOWN_GRACE_SECONDS"@)
                    .text("value"@, "60"@)),
        )
        .list("volumeMounts"@, json::none())
        .with("securityContext"@, resources::container_security_json())
        .with(
            "readinessProbe"@,
            JsonView::object()
                .with(
                    "httpGet"@,
                    JsonView::object()
                        .text("path"@, "/v1/health"@)
                        .text("port"@, "http-0"@),
                )
                .number("periodSeconds"@, 2)
                .number("failureThreshold"@, 2),
        )
        .with(
            "livenessProbe"@,
            JsonView::object()
                .with(
                    "httpGet"@,
                    JsonView::object()
                        .text("path"@, "/ping"@)
                        .text("port"@, "http-0"@),
                )
                .number("periodSeconds"@, 10)
                .number("failureThreshold"@, 3),
        )
        .with(
            "resources"@,
            JsonView::object()
                .with(
                    "requests"@,
                    JsonView::object()
                        .text("cpu"@, "1"@)
                        .text("memory"@, "768Mi"@),
                )
                .with(
                    "limits"@,
                    JsonView::object()
                        .text("memory"@, "1Gi"@),
                ),
        )
}

fn gateway_container(i: &BuildInput<'_>, f: &Frame<'_>) -> (r: Doc)
    ensures
        r@ == gateway_container_json(*i, f@),
        r@ is Object,
{
    reveal(gateway_container_json);
    Doc::new()
        .text("name", "gateway")
        .text("image", i.image)
        .text("imagePullPolicy", i.cluster.spec.image_pull_policy.as_str())
        .list(
            "command",
            Items::new()
                .text("rustqueue-proxy")
                .done(),
        )
        .list(
            "ports",
            Items::new()
                .doc(Doc::new()
                    .text("name", "tcp")
                    .number("containerPort", 4150))
                .doc(Doc::new()
                    .text("name", "http-0")
                    .number("containerPort", 4151))
                .doc(Doc::new()
                    .text("name", "http-1")
                    .number("containerPort", 4154))
                .doc(Doc::new()
                    .text("name", "http-2")
                    .number("containerPort", 4155))
                .doc(Doc::new()
                    .text("name", "metrics")
                    .number("containerPort", 4160))
                .done(),
        )
        .list(
            "env",
            Items::new()
                .doc(Doc::new()
                    .text("name", "POD_NAME")
                    .doc(
                        "valueFrom",
                        Doc::new()
                            .doc(
                                "fieldRef",
                                Doc::new()
                                    .text("fieldPath", "metadata.name"),
                            ),
                    ))
                .doc(Doc::new()
                    .text("name", "RUSTQUEUE_DISCOVERY_URLS")
                    .text("value", resources::around("http://", resources::suffixed(f.name, "-discovery").as_str(), ":4161").as_str()))
                .doc(Doc::new()
                    .text("name", "RUSTQUEUE_KODO_COMPATIBILITY_ENABLED")
                    .text("value", "true"))
                .doc(Doc::new()
                    .text("name", "RUSTQUEUE_KODO_CLEANUP_ENABLED")
                    .text("value", "false"))
                .doc(Doc::new()
                    .text("name", "RUSTQUEUE_PROXY_MAX_MESSAGE_BYTES")
                    .text("value", "104857600"))
                .doc(Doc::new()
                    .text("name", "RUSTQUEUE_PROXY_MAX_BODY_BYTES")
                    .text("value", "134217728"))
                .doc(Doc::new()
                    .text("name", "RUSTQUEUE_PROXY_MAX_INFLIGHT_BYTES")
                    .text("value", "536870912"))
                .doc(Doc::new()
                    .text("name", "RUSTQUEUE_PROXY_TCP_COMMAND_TIMEOUT_MS")
                    .text("value", "120000"))
                .doc(Doc::new()
                    .text("name", "RUSTQUEUE_PROXY_TCP_MAX_CONNECTION_AGE_SECONDS")
                    .text("value", "0"))
                .doc(Doc::new()
                    .text("name", "RUSTQUEUE_PROXY_SHUTDOWN_GRACE_SECONDS")
                    .text("value", "60"))
                .done(),
        )
        .list("volumeMounts", Items::new().done())
        .doc("securityContext", resources::container_security())
        .doc(
            "readinessProbe",
            Doc::new()
                .doc(
                    "httpGet",
                    Doc::new()
                        .text("path", "/v1/health")
                        .text("port", "http-0"),
                )
                .number("periodSeconds", 2)
                .number("failureThreshold", 2),
        )
        .doc(
            "livenessProbe",
            Doc::new()
                .doc(
                    "httpGet",
                    Doc::new()
                        .text("path", "/ping")
                        .text("port", "http-0"),
                )
                .number("periodSeconds", 10)
                .number("failureThreshold", 3),
        )
        .doc(
            "resources",
            Doc::new()
                .doc(
                    "requests",
                    Doc::new()
                        .text("cpu", "1")
                        .text("memory", "768Mi"),
                )
                .doc(
                    "limits",
                    Doc::new()
                        .text("memory", "1Gi"),
                ),
        )
}

/// The gateways.
#[verifier::opaque]
pub open spec fn gateway_json(i: BuildInput<'_>, f: FrameView) -> JsonView {
    JsonView::object()
        .text("apiVersion"@, "apps/v1"@)
        .text("kind"@, "StatefulSet"@)
        .with("metadata"@, resources::metadata_json(f, f.name + "-kodo-gateway"@, "kodo-gateway"@))
        .with(
            "spec"@,
            JsonView::object()
                .text("serviceName"@, f.name + "-kodo-gateways"@)
                .number("replicas"@, i.kodo_gateway_replicas as int)
                .text("podManagementPolicy"@, "Parallel"@)
                .with(
                    "selector"@,
                    JsonView::object()
                        .with("matchLabels"@, resources::labels_json(f.name, "kodo-gateway"@)),
                )
                .with(
                    "template"@,
                    JsonView::object()
                        .with(
                            "metadata"@,
                            JsonView::object()
                                .with("labels"@, resources::labels_json(f.name, "kodo-gateway"@))
                                .with(
                                    "annotations"@,
                                    JsonView::object()
                                        .text("rustqueue.io/revision"@, f.revision),
                                ),
                        )
                        .with(
                            "spec"@,
                            JsonView::object()
                                .text("serviceAccountName"@, f.name + "-runtime"@)
                                .number("terminationGracePeriodSeconds"@, 75)
                                .with("nodeSelector"@, json::entries_json(i.cluster.spec.proxy_node_selector@))
                                .with(
                                    "affinity"@,
                                    JsonView::object()
                                        .with(
                                            "podAntiAffinity"@,
                                            JsonView::object()
                                                .list(
                                                    "requiredDuringSchedulingIgnoredDuringExecution"@,
                                                    json::none()
                                                        .push(JsonView::object()
                                                            .with(
                                                                "labelSelector"@,
                                                                JsonView::object()
                                                                    .with("matchLabels"@, resources::labels_json(f.name, "kodo-gateway"@)),
                                                            )
                                                            .text("topologyKey"@, "kubernetes.io/hostname"@)),
                                                ),
                                        ),
                                )
                                .with("securityContext"@, resources::pod_security_json())
                                .list(
                                    "containers"@,
                                    json::none()
                                        .push(gateway_container_json(i, f)),
                                )
                                .list("volumes"@, json::none()),
                        ),
                ),
        )
}

fn gateway(i: &BuildInput<'_>, f: &Frame<'_>) -> (r: Value)
    ensures
        json::json_held(r) == gateway_json(*i, f@),
{
    reveal(gateway_json);
    Doc::new()
        .text("apiVersion", "apps/v1")
        .text("kind", "StatefulSet")
        .doc("metadata", resources::metadata(f, resources::suffixed(f.name, "-kodo-gateway").as_str(), "kodo-gateway"))
        .doc(
            "spec",
            Doc::new()
                .text("serviceName", resources::suffixed(f.name, "-kodo-gateways").as_str())
                .number("replicas", i.kodo_gateway_replicas as i64)
                .text("podManagementPolicy", "Parallel")
                .doc(
                    "selector",
                    Doc::new()
                        .doc("matchLabels", resources::labels(f.name, "kodo-gateway")),
                )
                .doc(
                    "template",
                    Doc::new()
                        .doc(
                            "metadata",
                            Doc::new()
                                .doc("labels", resources::labels(f.name, "kodo-gateway"))
                                .doc(
                                    "annotations",
                                    Doc::new()
                                        .text("rustqueue.io/revision", f.revision.as_str()),
                                ),
                        )
                        .doc(
                            "spec",
                            Doc::new()
                                .text("serviceAccountName", resources::suffixed(f.name, "-runtime").as_str())
                                .number("terminationGracePeriodSeconds", 75)
                                .doc("nodeSelector", Doc::of_map(&i.cluster.spec.proxy_node_selector))
                                .doc(
                                    "affinity",
                                    Doc::new()
                                        .doc(
                                            "podAntiAffinity",
                                            Doc::new()
                                                .list(
                                                    "requiredDuringSchedulingIgnoredDuringExecution",
                                                    Items::new()
                                                        .doc(Doc::new()
                                                            .doc(
                                                                "labelSelector",
                                                                Doc::new()
                                                                    .doc("matchLabels", resources::labels(f.name, "kodo-gateway")),
                                                            )
                                                            .text("topologyKey", "kubernetes.io/hostname"))
                                                        .done(),
                                                ),
                                        ),
                                )
                                .doc("securityContext", resources::pod_security())
                                .list(
                                    "containers",
                                    Items::new()
                                        .doc(gateway_container(i, f))
                                        .done(),
                                )
                                .list("volumes", Items::new().done()),
                        ),
                ),
        )
        .done()
}

/// How many gateways stay up.
#[verifier::opaque]
pub open spec fn pdb_json(i: BuildInput<'_>, f: FrameView) -> JsonView {
    JsonView::object()
        .text("apiVersion"@, "policy/v1"@)
        .text("kind"@, "PodDisruptionBudget"@)
        .with("metadata"@, resources::metadata_json(f, f.name + "-kodo-gateway-pdb"@, "kodo-gateway"@))
        .with(
            "spec"@,
            JsonView::object()
                .number("minAvailable"@, if i.kodo_gateway_replicas == 0 { 0 } else { 2 })
                .with(
                    "selector"@,
                    JsonView::object()
                        .with("matchLabels"@, resources::labels_json(f.name, "kodo-gateway"@)),
                ),
        )
}

fn pdb(i: &BuildInput<'_>, f: &Frame<'_>) -> (r: Value)
    ensures
        json::json_held(r) == pdb_json(*i, f@),
{
    reveal(pdb_json);
    Doc::new()
        .text("apiVersion", "policy/v1")
        .text("kind", "PodDisruptionBudget")
        .doc("metadata", resources::metadata(f, resources::suffixed(f.name, "-kodo-gateway-pdb").as_str(), "kodo-gateway"))
        .doc(
            "spec",
            Doc::new()
                .number("minAvailable", if i.kodo_gateway_replicas == 0 { 0 } else { 2 })
                .doc(
                    "selector",
                    Doc::new()
                        .doc("matchLabels", resources::labels(f.name, "kodo-gateway")),
                ),
        )
        .done()
}

/// Who may reach the gateways.
#[verifier::opaque]
pub open spec fn network_policy_json(i: BuildInput<'_>, f: FrameView) -> JsonView {
    JsonView::object()
        .text("apiVersion"@, "networking.k8s.io/v1"@)
        .text("kind"@, "NetworkPolicy"@)
        .with("metadata"@, resources::metadata_json(f, f.name + "-kodo-gateway-ingress"@, "kodo-gateway"@))
        .with(
            "spec"@,
            JsonView::object()
                .with(
                    "podSelector"@,
                    JsonView::object()
                        .with("matchLabels"@, resources::labels_json(f.name, "kodo-gateway"@)),
                )
                .list(
                    "policyTypes"@,
                    json::none()
                        .push(JsonView::Text("Ingress"@)),
                )
                .list(
                    "ingress"@,
                    json::none()
                        .push(JsonView::object()
                            .list(
                                "from"@,
                                json::none()
                                    .push(peer_json(i.cluster.spec.kodo_compatibility)),
                            )
                            .list(
                                "ports"@,
                                json::none()
                                    .push(JsonView::object()
                                        .text("protocol"@, "TCP"@)
                                        .number("port"@, 4150))
                                    .push(JsonView::object()
                                        .text("protocol"@, "TCP"@)
                                        .number("port"@, 4152))
                                    .push(JsonView::object()
                                        .text("protocol"@, "TCP"@)
                                        .number("port"@, 4153))
                                    .push(JsonView::object()
                                        .text("protocol"@, "TCP"@)
                                        .number("port"@, 4151))
                                    .push(JsonView::object()
                                        .text("protocol"@, "TCP"@)
                                        .number("port"@, 4154))
                                    .push(JsonView::object()
                                        .text("protocol"@, "TCP"@)
                                        .number("port"@, 4155)),
                            ))
                        .push(JsonView::object()
                            .list(
                                "from"@,
                                json::none()
                                    .push(JsonView::object()
                                        .with("namespaceSelector"@, JsonView::object())),
                            )
                            .list(
                                "ports"@,
                                json::none()
                                    .push(JsonView::object()
                                        .text("protocol"@, "TCP"@)
                                        .number("port"@, 4160)),
                            )),
                ),
        )
}

fn network_policy(i: &BuildInput<'_>, f: &Frame<'_>) -> (r: Value)
    ensures
        json::json_held(r) == network_policy_json(*i, f@),
{
    reveal(network_policy_json);
    Doc::new()
        .text("apiVersion", "networking.k8s.io/v1")
        .text("kind", "NetworkPolicy")
        .doc("metadata", resources::metadata(f, resources::suffixed(f.name, "-kodo-gateway-ingress").as_str(), "kodo-gateway"))
        .doc(
            "spec",
            Doc::new()
                .doc(
                    "podSelector",
                    Doc::new()
                        .doc("matchLabels", resources::labels(f.name, "kodo-gateway")),
                )
                .list(
                    "policyTypes",
                    Items::new()
                        .text("Ingress")
                        .done(),
                )
                .list(
                    "ingress",
                    Items::new()
                        .doc(Doc::new()
                            .list(
                                "from",
                                Items::new()
                                    .doc(allowed_peer(&i.cluster.spec.kodo_compatibility))
                                    .done(),
                            )
                            .list(
                                "ports",
                                Items::new()
                                    .doc(Doc::new()
                                        .text("protocol", "TCP")
                                        .number("port", 4150))
                                    .doc(Doc::new()
                                        .text("protocol", "TCP")
                                        .number("port", 4152))
                                    .doc(Doc::new()
                                        .text("protocol", "TCP")
                                        .number("port", 4153))
                                    .doc(Doc::new()
                                        .text("protocol", "TCP")
                                        .number("port", 4151))
                                    .doc(Doc::new()
                                        .text("protocol", "TCP")
                                        .number("port", 4154))
                                    .doc(Doc::new()
                                        .text("protocol", "TCP")
                                        .number("port", 4155))
                                    .done(),
                            ))
                        .doc(Doc::new()
                            .list(
                                "from",
                                Items::new()
                                    .doc(Doc::new()
                                        .doc("namespaceSelector", Doc::new()))
                                    .done(),
                            )
                            .list(
                                "ports",
                                Items::new()
                                    .doc(Doc::new()
                                        .text("protocol", "TCP")
                                        .number("port", 4160))
                                    .done(),
                            ))
                        .done(),
                ),
        )
        .done()
}

/// The resources of the gateways.
pub fn build(i: &BuildInput<'_>, f: &Frame<'_>) -> (r: KodoResources)
    ensures
        json::json_held(r.service) == service_json(f@),
        json::json_held(r.headless_service) == headless_service_json(f@),
        json::json_held(r.gateway) == gateway_json(*i, f@),
        json::json_held(r.pdb) == pdb_json(*i, f@),
        json::json_held(r.network_policy) == network_policy_json(*i, f@),
{
    KodoResources {
        service: service(f),
        headless_service: headless_service(f),
        gateway: gateway(i, f),
        pdb: pdb(i, f),
        network_policy: network_policy(i, f),
    }
}

/// The gateways have the replicas and the revision that are asked for, one to a node, run the
/// image, ask Discovery, and serve Kodo with the limits of Kodo; their pods bear the labels by
/// which they are selected.
#[verifier::rlimit(60)]
#[verifier::spinoff_prover]
pub proof fn law_gateways_are_the_set_that_is_asked_for(
    i: BuildInput<'_>,
    f: FrameView,
)
    ensures
        ({
            let d = gateway_json(i, f);
            let p = pdb_json(i, f);
            &&& json::member(d, "kind"@) == Some(JsonView::Text("StatefulSet"@))
            &&& json::of(json::member(d, "spec"@), "replicas"@) == Some(JsonView::Number(i.kodo_gateway_replicas as int))
            &&& json::of(json::member(d, "spec"@), "serviceName"@) == Some(JsonView::Text(f.name + "-kodo-gateways"@))
            &&& json::of(json::of(json::member(d, "spec"@), "selector"@), "matchLabels"@) == Some(resources::labels_json(f.name, "kodo-gateway"@))
            &&& json::of(json::of(json::of(json::member(d, "spec"@), "template"@), "metadata"@), "labels"@) == Some(resources::labels_json(f.name, "kodo-gateway"@))
            &&& json::of(json::of(json::of(json::of(json::member(d, "spec"@), "template"@), "metadata"@), "annotations"@), "rustqueue.io/revision"@) == Some(JsonView::Text(f.revision))
            &&& json::of(json::of(json::of(json::member(d, "spec"@), "template"@), "spec"@), "nodeSelector"@) == Some(json::entries_json(i.cluster.spec.proxy_node_selector@))
            &&& json::nth(json::of(json::of(json::of(json::member(d, "spec"@), "template"@), "spec"@), "containers"@), 0) == Some(gateway_container_json(i, f))
            &&& json::of(json::nth(json::of(json::of(json::of(json::of(json::of(json::member(d, "spec"@), "template"@), "spec"@), "affinity"@), "podAntiAffinity"@), "requiredDuringSchedulingIgnoredDuringExecution"@), 0), "topologyKey"@) == Some(JsonView::Text("kubernetes.io/hostname"@))
            &&& json::of(json::member(d, "metadata"@), "name"@) == Some(JsonView::Text(f.name + "-kodo-gateway"@))
            &&& json::of(json::member(p, "spec"@), "minAvailable"@) == Some(JsonView::Number(if i.kodo_gateway_replicas == 0 {
                0
            } else {
                2
            }))
            &&& json::of(json::of(json::member(p, "spec"@), "selector"@), "matchLabels"@) == Some(resources::labels_json(f.name, "kodo-gateway"@))
        }),
{
    reveal(JsonView::with);
    reveal(gateway_json);
    reveal(resources::metadata_json);
    reveal(pdb_json);
    reveal_strlit("affinity");
    reveal_strlit("annotations");
    reveal_strlit("apiVersion");
    reveal_strlit("containers");
    reveal_strlit("kind");
    reveal_strlit("labelSelector");
    reveal_strlit("labels");
    reveal_strlit("matchLabels");
    reveal_strlit("metadata");
    reveal_strlit("minAvailable");
    reveal_strlit("name");
    reveal_strlit("namespace");
    reveal_strlit("nodeSelector");
    reveal_strlit("ownerReferences");
    reveal_strlit("podAntiAffinity");
    reveal_strlit("podManagementPolicy");
    reveal_strlit("replicas");
    reveal_strlit("requiredDuringSchedulingIgnoredDuringExecution");
    reveal_strlit("rustqueue.io/revision");
    reveal_strlit("securityContext");
    reveal_strlit("selector");
    reveal_strlit("serviceAccountName");
    reveal_strlit("serviceName");
    reveal_strlit("spec");
    reveal_strlit("template");
    reveal_strlit("terminationGracePeriodSeconds");
    reveal_strlit("topologyKey");
    reveal_strlit("volumes");
    assert("affinity"@.len() == 8 && "annotations"@.len() == 11 && "apiVersion"@.len() == 10 && "containers"@.len() == 10);
    assert("kind"@.len() == 4 && "labelSelector"@.len() == 13 && "labels"@.len() == 6 && "matchLabels"@.len() == 11);
    assert("metadata"@.len() == 8 && "minAvailable"@.len() == 12 && "name"@.len() == 4 && "namespace"@.len() == 9);
    assert("nodeSelector"@.len() == 12 && "ownerReferences"@.len() == 15 && "podAntiAffinity"@.len() == 15 && "podManagementPolicy"@.len() == 19);
    assert("replicas"@.len() == 8 && "requiredDuringSchedulingIgnoredDuringExecution"@.len() == 46 && "rustqueue.io/revision"@.len() == 21 && "securityContext"@.len() == 15);
    assert("selector"@.len() == 8 && "serviceAccountName"@.len() == 18 && "serviceName"@.len() == 11 && "spec"@.len() == 4);
    assert("template"@.len() == 8 && "terminationGracePeriodSeconds"@.len() == 29 && "topologyKey"@.len() == 11 && "volumes"@.len() == 7);
    assert("kind"@[0] == 'k');
    assert("replicas"@[0] == 'r');
    assert("selector"@[0] == 's');
    assert("spec"@[0] == 's');
    assert("template"@[0] == 't');
}

/// A gateway runs the image with Kodo enabled, cleanup disabled, and the largest messages and
/// batches that there are.
#[verifier::rlimit(60)]
#[verifier::spinoff_prover]
pub proof fn law_gateways_run_with_the_limits_of_kodo(
    i: BuildInput<'_>,
    f: FrameView,
)
    ensures
        ({
            let c = gateway_container_json(i, f);
            &&& json::member(c, "image"@) == Some(JsonView::Text(i.image@))
            &&& json::member(c, "imagePullPolicy"@) == Some(JsonView::Text(i.cluster.spec.image_pull_policy@))
            &&& json::nth(json::member(c, "command"@), 0) == Some(JsonView::Text("rustqueue-proxy"@))
            &&& json::of(json::nth(json::member(c, "env"@), 1), "value"@) == Some(JsonView::Text("http://"@ + (f.name + "-discovery"@) + ":4161"@))
            &&& json::of(json::nth(json::member(c, "env"@), 2), "name"@) == Some(JsonView::Text("RUSTQUEUE_KODO_COMPATIBILITY_ENABLED"@))
            &&& json::of(json::nth(json::member(c, "env"@), 2), "value"@) == Some(JsonView::Text("true"@))
            &&& json::of(json::nth(json::member(c, "env"@), 3), "name"@) == Some(JsonView::Text("RUSTQUEUE_KODO_CLEANUP_ENABLED"@))
            &&& json::of(json::nth(json::member(c, "env"@), 3), "value"@) == Some(JsonView::Text("false"@))
            &&& json::of(json::nth(json::member(c, "env"@), 4), "name"@) == Some(JsonView::Text("RUSTQUEUE_PROXY_MAX_MESSAGE_BYTES"@))
            &&& json::of(json::nth(json::member(c, "env"@), 4), "value"@) == Some(JsonView::Text("104857600"@))
            &&& json::of(json::nth(json::member(c, "env"@), 5), "name"@) == Some(JsonView::Text("RUSTQUEUE_PROXY_MAX_BODY_BYTES"@))
            &&& json::of(json::nth(json::member(c, "env"@), 5), "value"@) == Some(JsonView::Text("134217728"@))
            &&& json::of(json::nth(json::member(c, "env"@), 6), "value"@) == Some(JsonView::Text("536870912"@))
            &&& json::of(json::nth(json::member(c, "env"@), 8), "name"@) == Some(JsonView::Text("RUSTQUEUE_PROXY_TCP_MAX_CONNECTION_AGE_SECONDS"@))
            &&& json::of(json::nth(json::member(c, "env"@), 8), "value"@) == Some(JsonView::Text("0"@))
            &&& json::of(json::nth(json::member(c, "ports"@), 0), "containerPort"@) == Some(JsonView::Number(4150))
            &&& json::of(json::nth(json::member(c, "ports"@), 1), "containerPort"@) == Some(JsonView::Number(4151))
            &&& json::of(json::nth(json::member(c, "ports"@), 2), "containerPort"@) == Some(JsonView::Number(4154))
            &&& json::of(json::nth(json::member(c, "ports"@), 3), "containerPort"@) == Some(JsonView::Number(4155))
            &&& json::of(json::nth(json::member(c, "ports"@), 4), "containerPort"@) == Some(JsonView::Number(4160))
        }),
{
    reveal(JsonView::with);
    reveal(gateway_container_json);
    reveal_strlit("command");
    reveal_strlit("containerPort");
    reveal_strlit("env");
    reveal_strlit("image");
    reveal_strlit("imagePullPolicy");
    reveal_strlit("livenessProbe");
    reveal_strlit("name");
    reveal_strlit("ports");
    reveal_strlit("readinessProbe");
    reveal_strlit("resources");
    reveal_strlit("securityContext");
    reveal_strlit("value");
    reveal_strlit("volumeMounts");
    assert("command"@.len() == 7 && "containerPort"@.len() == 13 && "env"@.len() == 3 && "image"@.len() == 5);
    assert("imagePullPolicy"@.len() == 15 && "livenessProbe"@.len() == 13 && "name"@.len() == 4 && "ports"@.len() == 5);
    assert("readinessProbe"@.len() == 14 && "resources"@.len() == 9 && "securityContext"@.len() == 15 && "value"@.len() == 5);
    assert("volumeMounts"@.len() == 12);
    assert("image"@[0] == 'i');
    assert("imagePullPolicy"@[0] == 'i');
    assert("ports"@[0] == 'p');
    assert("securityContext"@[0] == 's');
}

/// The Services of the gateways go to their pods, each gateway at ports of its own; only those
/// who are allowed reach these, and metrics are for all.
#[verifier::rlimit(60)]
#[verifier::spinoff_prover]
pub proof fn law_gateways_are_reached_by_those_allowed(
    i: BuildInput<'_>,
    f: FrameView,
)
    ensures
        ({
            let s = service_json(f);
            let h = headless_service_json(f);
            let n = network_policy_json(i, f);
            &&& json::of(json::member(s, "spec"@), "selector"@) == Some(resources::labels_json(f.name, "kodo-gateway"@))
            &&& json::of(json::nth(json::of(json::member(s, "spec"@), "ports"@), 0), "port"@) == Some(JsonView::Number(4150))
            &&& json::of(json::nth(json::of(json::member(s, "spec"@), "ports"@), 1), "port"@) == Some(JsonView::Number(4152))
            &&& json::of(json::nth(json::of(json::member(s, "spec"@), "ports"@), 2), "port"@) == Some(JsonView::Number(4153))
            &&& json::of(json::nth(json::of(json::member(s, "spec"@), "ports"@), 3), "port"@) == Some(JsonView::Number(4151))
            &&& json::of(json::nth(json::of(json::member(s, "spec"@), "ports"@), 4), "port"@) == Some(JsonView::Number(4154))
            &&& json::of(json::nth(json::of(json::member(s, "spec"@), "ports"@), 5), "port"@) == Some(JsonView::Number(4155))
            &&& json::of(json::nth(json::of(json::member(s, "spec"@), "ports"@), 6), "port"@) == Some(JsonView::Number(4160))
            &&& json::of(json::nth(json::of(json::member(s, "spec"@), "ports"@), 0), "targetPort"@) == Some(JsonView::Text("tcp"@))
            &&& json::of(json::nth(json::of(json::member(s, "spec"@), "ports"@), 3), "targetPort"@) == Some(JsonView::Text("http-0"@))
            &&& json::of(json::nth(json::of(json::member(s, "spec"@), "ports"@), 4), "targetPort"@) == Some(JsonView::Text("http-1"@))
            &&& json::of(json::nth(json::of(json::member(s, "spec"@), "ports"@), 5), "targetPort"@) == Some(JsonView::Text("http-2"@))
            &&& json::of(json::member(s, "metadata"@), "name"@) == Some(JsonView::Text(f.name + "-kodo-publish"@))
            &&& json::of(json::member(h, "spec"@), "clusterIP"@) == Some(JsonView::Text("None"@))
            &&& json::of(json::member(h, "spec"@), "selector"@) == Some(resources::labels_json(f.name, "kodo-gateway"@))
            &&& json::of(json::of(json::member(n, "spec"@), "podSelector"@), "matchLabels"@) == Some(resources::labels_json(f.name, "kodo-gateway"@))
            &&& json::nth(json::of(json::nth(json::of(json::member(n, "spec"@), "ingress"@), 0), "from"@), 0) == Some(peer_json(i.cluster.spec.kodo_compatibility))
            &&& json::of(json::nth(json::of(json::nth(json::of(json::member(n, "spec"@), "ingress"@), 0), "ports"@), 0), "port"@) == Some(JsonView::Number(4150))
            &&& json::of(json::nth(json::of(json::nth(json::of(json::member(n, "spec"@), "ingress"@), 0), "ports"@), 1), "port"@) == Some(JsonView::Number(4152))
            &&& json::of(json::nth(json::of(json::nth(json::of(json::member(n, "spec"@), "ingress"@), 0), "ports"@), 2), "port"@) == Some(JsonView::Number(4153))
            &&& json::of(json::nth(json::of(json::nth(json::of(json::member(n, "spec"@), "ingress"@), 0), "ports"@), 3), "port"@) == Some(JsonView::Number(4151))
            &&& json::of(json::nth(json::of(json::nth(json::of(json::member(n, "spec"@), "ingress"@), 0), "ports"@), 4), "port"@) == Some(JsonView::Number(4154))
            &&& json::of(json::nth(json::of(json::nth(json::of(json::member(n, "spec"@), "ingress"@), 0), "ports"@), 5), "port"@) == Some(JsonView::Number(4155))
            &&& json::of(json::nth(json::of(json::nth(json::of(json::member(n, "spec"@), "ingress"@), 1), "ports"@), 0), "port"@) == Some(JsonView::Number(4160))
            &&& json::nth(json::of(json::nth(json::of(json::member(n, "spec"@), "ingress"@), 1), "from"@), 0) == Some(JsonView::object().with("namespaceSelector"@, JsonView::object()))
        }),
{
    reveal(JsonView::with);
    reveal(headless_service_json);
    reveal(network_policy_json);
    reveal(service_json);
    reveal_strlit("apiVersion");
    reveal_strlit("clusterIP");
    reveal_strlit("from");
    reveal_strlit("ingress");
    reveal_strlit("kind");
    reveal_strlit("labels");
    reveal_strlit("matchLabels");
    reveal_strlit("metadata");
    reveal_strlit("name");
    reveal_strlit("namespace");
    reveal_strlit("ownerReferences");
    reveal_strlit("podSelector");
    reveal_strlit("policyTypes");
    reveal_strlit("port");
    reveal_strlit("ports");
    reveal_strlit("protocol");
    reveal_strlit("publishNotReadyAddresses");
    reveal_strlit("selector");
    reveal_strlit("spec");
    reveal_strlit("targetPort");
    assert("apiVersion"@.len() == 10 && "clusterIP"@.len() == 9 && "from"@.len() == 4 && "ingress"@.len() == 7);
    assert("kind"@.len() == 4 && "labels"@.len() == 6 && "matchLabels"@.len() == 11 && "metadata"@.len() == 8);
    assert("name"@.len() == 4 && "namespace"@.len() == 9 && "ownerReferences"@.len() == 15 && "podSelector"@.len() == 11);
    assert("policyTypes"@.len() == 11 && "port"@.len() == 4 && "ports"@.len() == 5 && "protocol"@.len() == 8);
    assert("publishNotReadyAddresses"@.len() == 24 && "selector"@.len() == 8 && "spec"@.len() == 4 && "targetPort"@.len() == 10);
    assert("kind"@[0] == 'k');
    assert("name"@[0] == 'n');
    assert("podSelector"@[2] == 'd');
    assert("policyTypes"@[2] == 'l');
    assert("port"@[0] == 'p');
    assert("spec"@[0] == 's');
}

/// Those who reach the gateways are the pods that are named, or those of Kodo where none are, in
/// the namespaces that are named.
pub proof fn law_peers_are_those_named(k: KodoCompatibility)
    ensures
        ({
            let p = peer_json(k);
            &&& k.allowed_pod_selector@.len() > 0 ==> json::of(
                json::member(p, "podSelector"@),
                "matchLabels"@,
            ) == Some(json::entries_json(k.allowed_pod_selector@))
            &&& k.allowed_namespace_selector@.len() > 0 ==> json::of(
                json::member(p, "namespaceSelector"@),
                "matchLabels"@,
            ) == Some(json::entries_json(k.allowed_namespace_selector@))
            &&& k.allowed_namespace_selector@.len() == 0 ==> json::member(
                p,
                "namespaceSelector"@,
            ) is None
        }),
{
    reveal(JsonView::with);
    reveal_strlit("podSelector");
    reveal_strlit("namespaceSelector");
    assert("podSelector"@.len() == 11 && "namespaceSelector"@.len() == 17);
}

} // verus!
