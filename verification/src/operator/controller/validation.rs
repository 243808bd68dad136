//! What a RustQueue must satisfy before anything is done for it.
use crate::operator::crd::{RustQueue, RustQueueSpec};
use crate::string_map::StringMap;
use crate::text;
use vstd::prelude::*;
use vstd::string::*;

verus! {

/// The shortest bootstrap retention of clusters that serve Kodo.
pub const KODO_BOOTSTRAP_RETENTION_SECONDS: u64 = 180;

/// What is wrong with a RustQueue.
#[derive(Clone, Copy, Debug, PartialEq, Eq, Structural)]
pub enum SpecError {
    Image,
    BrokerLimits,
    Storage,
    FeatureLevel,
    Watermarks,
    QueueLimits,
    RecordBound,
    KodoProfile,
    CutoverGrace,
    Decommission,
    Cleanup,
    MutableImage,
    PodSelector,
    MemoryRequestUnreadable,
    MemoryRequest,
    CpuRequestUnreadable,
    CpuRequest,
    CpuLimitUnreadable,
    CpuLimit,
    MemoryLimitUnreadable,
    MemoryLimit,
    RolloutTimeout,
    RollbackImage,
    EmptyRequests,
}

/// What the resource texts of a RustQueue stand for, where they can be read:
/// the memory in bytes, whether the CPU request is at least one CPU, and whether
/// the CPU limit is at least the CPU request.
#[derive(Clone, Copy, Debug)]
pub struct ResourceReadings {
    pub memory_request: Option<u128>,
    pub memory_limit: Option<u128>,
    pub cpu_request_is_one: Option<bool>,
    pub cpu_limit_covers_request: Option<bool>,
}

/// The larger of two levels, and at least one.
pub open spec fn feature_level(requested: u32, active: u32) -> u32 {
    if requested >= active && requested >= 1 {
        requested
    } else if active >= 1 {
        active
    } else {
        1
    }
}

/// The feature level that a cluster runs with: never below the one in use.
pub fn effective_storage_feature_level(requested: u32, active: u32) -> (r: u32)
    ensures
        r == feature_level(requested, active),
{
    if requested >= active && requested >= 1 {
        requested
    } else if active >= 1 {
        active
    } else {
        1
    }
}

/// The largest record that messages of a size can lead to: one message with its
/// envelope, or a full batch.
pub open spec fn largest_record(max_message_bytes: int) -> int {
    let batch = (if max_message_bytes > 67108864 {
        max_message_bytes
    } else {
        67108864
    }) + 16 * 65536;
    if max_message_bytes + 24 > batch {
        max_message_bytes + 24
    } else {
        batch
    }
}

/// Whether records of a size need the second feature level.
pub open spec fn exceeds_record_bound(max_message_bytes: usize, level: u32) -> bool {
    largest_record(max_message_bytes as int) > 75497472 && level < 2
}

/// Checks that the storage can hold messages of a size.
pub fn validate_message_storage_contract(max_message_bytes: usize, storage_feature_level: u32) -> (r:
    Result<(), SpecError>)
    ensures
        r == if exceeds_record_bound(max_message_bytes, storage_feature_level) {
            Err(SpecError::RecordBound)
        } else {
            Ok(())
        },
{
    let message: u128 = max_message_bytes as u128;
    let body: u128 = if message > 67108864 {
        message
    } else {
        67108864
    };
    let batch: u128 = body + 1048576;
    let single: u128 = message + 24;
    let record: u128 = if single > batch {
        single
    } else {
        batch
    };
    if record > 75497472 && storage_feature_level < 2 {
        Err(SpecError::RecordBound)
    } else {
        Ok(())
    }
}

/// Whether a character is a digit of a digest.
pub open spec fn is_digest_char(c: char) -> bool {
    ('0' <= c && c <= '9') || ('a' <= c && c <= 'f')
}

/// Whether an image is named by its SHA-256 digest.
pub open spec fn is_immutable(image: Seq<char>) -> bool {
    let n = image.len() - 64;
    &&& image.len() >= 72
    &&& image.subrange(n - 8, n) == "@sha256:"@
    &&& forall|i: int| n <= i < image.len() ==> is_digest_char(#[trigger] image[i])
}

/// Whether an image is named by its SHA-256 digest.
pub fn has_sha256_digest(image: &str) -> (r: bool)
    ensures
        r == is_immutable(image@),
{
    let v = text::chars_of(image);
    if v.len() < 72 {
        return false;
    }
    let n: usize = v.len() - 64;
    let mark = text::text_of(v.as_slice(), n - 8, n);
    if !text::str_eq(mark.as_str(), "@sha256:") {
        return false;
    }
    let mut i: usize = n;
    while i < v.len()
        invariant
            v@ == image@,
            v@.len() >= 72,
            n == v@.len() - 64,
            n <= i <= v@.len(),
            forall|j: int| n <= j < i ==> is_digest_char(#[trigger] image@[j]),
        decreases v@.len() - i,
    {
        let c = v[i];
        if !(('0' <= c && c <= '9') || ('a' <= c && c <= 'f')) {
            assert(!is_digest_char(image@[i as int]));
            return false;
        }
        i += 1;
    }
    true
}

/// Whether a key or a value of a selector is blank.
pub open spec fn has_blank(m: Seq<(Seq<char>, Seq<char>)>) -> bool {
    exists|i: int| 0 <= i < m.len() && (text::is_blank((#[trigger] m[i]).0) || text::is_blank(m[i].1))
}

fn holds_blank(m: &StringMap) -> (r: bool)
    ensures
        r == has_blank(m@),
{
    let mut i: usize = 0;
    while i < m.entries.len()
        invariant
            i <= m.entries@.len(),
            forall|j: int|
                0 <= j < i ==> !text::is_blank((#[trigger] m@[j]).0) && !text::is_blank(m@[j].1),
        decreases m.entries@.len() - i,
    {
        assert(m@[i as int] == crate::string_map::pair_view(m.entries@[i as int]));
        if text::blank(m.entries[i].0.as_str()) || text::blank(m.entries[i].1.as_str()) {
            assert(text::is_blank(m@[i as int].0) || text::is_blank(m@[i as int].1));
            return true;
        }
        i += 1;
    }
    false
}

/// Whether the limits of the queue are outside what brokers hold to.
pub open spec fn bad_queue_limits(s: RustQueueSpec) -> bool {
    ||| s.bootstrap_retention_seconds == 0
    ||| s.max_message_bytes == 0
    ||| s.max_message_bytes > 104857600
    ||| s.message_index_cache_bytes == 0
    ||| s.connection_delivery_inflight_bytes < s.max_message_bytes
    ||| s.node_delivery_inflight_bytes < 2 * s.connection_delivery_inflight_bytes
    ||| s.node_delivery_inflight_bytes > u32::MAX
    ||| s.max_topics == 0
    ||| s.max_publish_workers == 0
    ||| s.publish_worker_idle_seconds == 0
    ||| s.max_detailed_metric_series == 0
}

fn queue_limits_bad(s: &RustQueueSpec) -> (r: bool)
    ensures
        r == bad_queue_limits(*s),
{
    s.bootstrap_retention_seconds == 0 || s.max_message_bytes == 0 || s.max_message_bytes
        > 104857600 || s.message_index_cache_bytes == 0 || s.connection_delivery_inflight_bytes
        < s.max_message_bytes || (s.node_delivery_inflight_bytes as u128) < 2
        * (s.connection_delivery_inflight_bytes as u128) || s.node_delivery_inflight_bytes as u64
        > u32::MAX as u64 || s.max_topics == 0 || s.max_publish_workers == 0
        || s.publish_worker_idle_seconds == 0 || s.max_detailed_metric_series == 0
}

/// Whether the profile of a cluster that serves Kodo is not the required one.
pub open spec fn bad_kodo_profile(s: RustQueueSpec) -> bool {
    ||| s.min_brokers != 3
    ||| s.max_brokers != 3
    ||| s.storage_feature_level != 2
    ||| s.bootstrap_retention_seconds < KODO_BOOTSTRAP_RETENTION_SECONDS
    ||| s.max_message_bytes != 104857600
    ||| s.connection_delivery_inflight_bytes < 134217728
    ||| s.node_delivery_inflight_bytes < 536870912
}

/// The image that brokers are to run.
pub open spec fn target_image(s: RustQueueSpec) -> Seq<char> {
    match s.rollout.rollback_to_image {
        Some(image) => image@,
        None => s.image@,
    }
}

/// The image that brokers are to run: the one to go back to, where there is one.
pub fn effective_image(s: &RustQueueSpec) -> (r: String)
    ensures
        r@ == target_image(*s),
{
    match &s.rollout.rollback_to_image {
        Some(image) => image.clone(),
        None => s.image.clone(),
    }
}

/// What is wrong with a cluster that serves Kodo.
pub open spec fn kodo_fault(s: RustQueueSpec, readings: ResourceReadings) -> Option<SpecError> {
    let k = s.kodo_compatibility;
    if k.decommission_confirmed {
        Some(SpecError::Decommission)
    } else if k.cleanup_enabled {
        Some(SpecError::Cleanup)
    } else if s.image_pull_policy@ != "Never"@ && !is_immutable(target_image(s)) {
        Some(SpecError::MutableImage)
    } else if k.allowed_pod_selector@.len() == 0 || has_blank(k.allowed_pod_selector@) || has_blank(
        k.allowed_namespace_selector@,
    ) {
        Some(SpecError::PodSelector)
    } else if readings.memory_request is None {
        Some(SpecError::MemoryRequestUnreadable)
    } else if readings.memory_request->0 < 2147483648 {
        Some(SpecError::MemoryRequest)
    } else if readings.cpu_request_is_one is None {
        Some(SpecError::CpuRequestUnreadable)
    } else if !readings.cpu_request_is_one->0 {
        Some(SpecError::CpuRequest)
    } else if s.broker_resources.cpu_limit is Some && readings.cpu_limit_covers_request is None {
        Some(SpecError::CpuLimitUnreadable)
    } else if s.broker_resources.cpu_limit is Some && !readings.cpu_limit_covers_request->0 {
        Some(SpecError::CpuLimit)
    } else if s.broker_resources.memory_limit is Some && readings.memory_limit is None {
        Some(SpecError::MemoryLimitUnreadable)
    } else if s.broker_resources.memory_limit is Some && readings.memory_limit->0
        < readings.memory_request->0 {
        Some(SpecError::MemoryLimit)
    } else {
        None
    }
}

/// What is wrong with a RustQueue, given the feature level in use.
pub open spec fn spec_fault(s: RustQueueSpec, floor: u32, readings: ResourceReadings) -> Option<
    SpecError,
> {
    if text::is_blank(s.image@) {
        Some(SpecError::Image)
    } else if s.min_brokers < 1 || s.max_brokers < s.min_brokers {
        Some(SpecError::BrokerLimits)
    } else if text::is_blank(s.storage_class_name@) || text::is_blank(s.storage_size@) {
        Some(SpecError::Storage)
    } else if s.storage_feature_level == 0 {
        Some(SpecError::FeatureLevel)
    } else if s.disk_low_watermark_percent >= s.disk_high_watermark_percent
        || s.disk_high_watermark_percent > 100 {
        Some(SpecError::Watermarks)
    } else if bad_queue_limits(s) {
        Some(SpecError::QueueLimits)
    } else if exceeds_record_bound(
        s.max_message_bytes,
        feature_level(s.storage_feature_level, floor),
    ) {
        Some(SpecError::RecordBound)
    } else if s.kodo_compatibility.enabled && bad_kodo_profile(s) {
        Some(SpecError::KodoProfile)
    } else if s.kodo_compatibility.cutover_grace_seconds < 630
        || s.kodo_compatibility.cutover_grace_seconds > 86400 {
        Some(SpecError::CutoverGrace)
    } else if s.kodo_compatibility.enabled && kodo_fault(s, readings) is Some {
        kodo_fault(s, readings)
    } else if s.rollout.timeout_seconds == 0 || s.rollout.timeout_seconds > 86400 {
        Some(SpecError::RolloutTimeout)
    } else if s.rollout.rollback_to_image is Some && text::is_blank(
        s.rollout.rollback_to_image->0@,
    ) {
        Some(SpecError::RollbackImage)
    } else if text::is_blank(s.broker_scheduling.topology_key@) || text::is_blank(
        s.broker_resources.cpu_request@,
    ) || text::is_blank(s.broker_resources.memory_request@) {
        Some(SpecError::EmptyRequests)
    } else {
        None
    }
}

fn validate_kodo(s: &RustQueueSpec, readings: &ResourceReadings) -> (r: Option<SpecError>)
    ensures
        r == kodo_fault(*s, *readings),
{
    let k = &s.kodo_compatibility;
    if k.decommission_confirmed {
        return Some(SpecError::Decommission);
    }
    if k.cleanup_enabled {
        return Some(SpecError::Cleanup);
    }
    let immutable = match &s.rollout.rollback_to_image {
        Some(image) => has_sha256_digest(image.as_str()),
        None => has_sha256_digest(s.image.as_str()),
    };
    if !text::str_eq(s.image_pull_policy.as_str(), "Never") && !immutable {
        return Some(SpecError::MutableImage);
    }
    if k.allowed_pod_selector.is_empty() || holds_blank(&k.allowed_pod_selector) || holds_blank(
        &k.allowed_namespace_selector,
    ) {
        return Some(SpecError::PodSelector);
    }
    let memory_request: u128 = match readings.memory_request {
        Some(n) => n,
        None => {
            return Some(SpecError::MemoryRequestUnreadable);
        },
    };
    if memory_request < 2147483648 {
        return Some(SpecError::MemoryRequest);
    }
    match readings.cpu_request_is_one {
        None => {
            return Some(SpecError::CpuRequestUnreadable);
        },
        Some(enough) => if !enough {
            return Some(SpecError::CpuRequest);
        },
    }
    if s.broker_resources.cpu_limit.is_some() {
        match readings.cpu_limit_covers_request {
            None => {
                return Some(SpecError::CpuLimitUnreadable);
            },
            Some(enough) => if !enough {
                return Some(SpecError::CpuLimit);
            },
        }
    }
    if s.broker_resources.memory_limit.is_some() {
        match readings.memory_limit {
            None => {
                return Some(SpecError::MemoryLimitUnreadable);
            },
            Some(n) => if n < memory_request {
                return Some(SpecError::MemoryLimit);
            },
        }
    }
    None
}

/// Checks a RustQueue, given the feature level in use and what its resource texts
/// stand for.
pub fn validate(cluster: &RustQueue, active_feature_floor: u32, readings: &ResourceReadings) -> (r:
    Result<(), SpecError>)
    ensures
        r == match spec_fault(cluster.spec, active_feature_floor, *readings) {
            Some(e) => Err(e),
            None => Ok(()),
        },
{
    let s = &cluster.spec;
    if text::blank(s.image.as_str()) {
        return Err(SpecError::Image);
    }
    if s.min_brokers < 1 || s.max_brokers < s.min_brokers {
        return Err(SpecError::BrokerLimits);
    }
    if text::blank(s.storage_class_name.as_str()) || text::blank(s.storage_size.as_str()) {
        return Err(SpecError::Storage);
    }
    if s.storage_feature_level == 0 {
        return Err(SpecError::FeatureLevel);
    }
    if s.disk_low_watermark_percent >= s.disk_high_watermark_percent
        || s.disk_high_watermark_percent > 100 {
        return Err(SpecError::Watermarks);
    }
    if queue_limits_bad(s) {
        return Err(SpecError::QueueLimits);
    }
    let level: u32 = effective_storage_feature_level(
        s.storage_feature_level,
        active_feature_floor,
    );
    match validate_message_storage_contract(s.max_message_bytes, level) {
        Err(e) => {
            return Err(e);
        },
        Ok(()) => {},
    }
    if s.kodo_compatibility.enabled && (s.min_brokers != 3 || s.max_brokers != 3
        || s.storage_feature_level != 2 || s.bootstrap_retention_seconds
        < KODO_BOOTSTRAP_RETENTION_SECONDS || s.max_message_bytes != 104857600
        || s.connection_delivery_inflight_bytes < 134217728 || s.node_delivery_inflight_bytes
        < 536870912) {
        return Err(SpecError::KodoProfile);
    }
    if s.kodo_compatibility.cutover_grace_seconds < 630
        || s.kodo_compatibility.cutover_grace_seconds > 86400 {
        return Err(SpecError::CutoverGrace);
    }
    if s.kodo_compatibility.enabled {
        if let Some(e) = validate_kodo(s, readings) {
            return Err(e);
        }
    }
    if s.rollout.timeout_seconds == 0 || s.rollout.timeout_seconds > 86400 {
        return Err(SpecError::RolloutTimeout);
    }
    if let Some(image) = &s.rollout.rollback_to_image {
        if text::blank(image.as_str()) {
            return Err(SpecError::RollbackImage);
        }
    }
    if text::blank(s.broker_scheduling.topology_key.as_str()) || text::blank(
        s.broker_resources.cpu_request.as_str(),
    ) || text::blank(s.broker_resources.memory_request.as_str()) {
        return Err(SpecError::EmptyRequests);
    }
    Ok(())
}

impl SpecError {
    /// The message of the error.
    pub fn message(&self) -> (r: &'static str)
        ensures
            r@ == error_text(*self),
    {
        match self {
            SpecError::Image => "spec.image is required",
            SpecError::BrokerLimits => "broker limits must satisfy 1 <= minBrokers <= maxBrokers",
            SpecError::Storage => "storageClassName and storageSize are required",
            SpecError::FeatureLevel => "storageFeatureLevel must be greater than zero",
            SpecError::Watermarks => "disk watermarks must satisfy low < high <= 100",
            SpecError::QueueLimits => "queue limits are outside the stable v7 contract",
            SpecError::RecordBound =>
                "messages above the v7 legacy record bound require storageFeatureLevel 2",
            SpecError::KodoProfile =>
                "Kodo compatibility requires exactly 3 brokers, storageFeatureLevel 2, bootstrapRetentionSeconds >= 180, maxMessageBytes 104857600, connectionDeliveryInflightBytes >= 134217728, and nodeDeliveryInflightBytes >= 536870912",
            SpecError::CutoverGrace =>
                "Kodo compatibility cutoverGraceSeconds must be between 630 and 86400",
            SpecError::Decommission =>
                "decommissionConfirmed must be false while Kodo compatibility is enabled",
            SpecError::Cleanup =>
                "Kodo automatic cleanup is disabled until cluster-wide atomic deletion is available",
            SpecError::MutableImage =>
                "Kodo compatibility requires an immutable @sha256 image or imagePullPolicy Never",
            SpecError::PodSelector =>
                "Kodo compatibility requires a non-empty allowedPodSelector and valid selector labels",
            SpecError::MemoryRequestUnreadable => "parse broker memory request",
            SpecError::MemoryRequest =>
                "Kodo compatibility requires brokerResources.memoryRequest >= 2Gi",
            SpecError::CpuRequestUnreadable => "parse broker CPU request",
            SpecError::CpuRequest =>
                "Kodo compatibility requires brokerResources.cpuRequest >= 1 CPU",
            SpecError::CpuLimitUnreadable => "parse broker CPU limit",
            SpecError::CpuLimit =>
                "brokerResources.cpuLimit must be greater than or equal to cpuRequest",
            SpecError::MemoryLimitUnreadable => "parse broker memory limit",
            SpecError::MemoryLimit =>
                "brokerResources.memoryLimit must be greater than or equal to memoryRequest",
            SpecError::RolloutTimeout => "rollout timeoutSeconds must be between 1 and 86400",
            SpecError::RollbackImage => "rollout rollbackToImage cannot be empty",
            SpecError::EmptyRequests => "broker scheduling and resource requests cannot be empty",
        }
    }
}

/// The message of an error.
pub open spec fn error_text(e: SpecError) -> Seq<char> {
    match e {
        SpecError::Image => "spec.image is required"@,
        SpecError::BrokerLimits => "broker limits must satisfy 1 <= minBrokers <= maxBrokers"@,
        SpecError::Storage => "storageClassName and storageSize are required"@,
        SpecError::FeatureLevel => "storageFeatureLevel must be greater than zero"@,
        SpecError::Watermarks => "disk watermarks must satisfy low < high <= 100"@,
        SpecError::QueueLimits => "queue limits are outside the stable v7 contract"@,
        SpecError::RecordBound =>
            "messages above the v7 legacy record bound require storageFeatureLevel 2"@,
        SpecError::KodoProfile =>
            "Kodo compatibility requires exactly 3 brokers, storageFeatureLevel 2, bootstrapRetentionSeconds >= 180, maxMessageBytes 104857600, connectionDeliveryInflightBytes >= 134217728, and nodeDeliveryInflightBytes >= 536870912"@,
        SpecError::CutoverGrace =>
            "Kodo compatibility cutoverGraceSeconds must be between 630 and 86400"@,
        SpecError::Decommission =>
            "decommissionConfirmed must be false while Kodo compatibility is enabled"@,
        SpecError::Cleanup =>
            "Kodo automatic cleanup is disabled until cluster-wide atomic deletion is available"@,
        SpecError::MutableImage =>
            "Kodo compatibility requires an immutable @sha256 image or imagePullPolicy Never"@,
        SpecError::PodSelector =>
            "Kodo compatibility requires a non-empty allowedPodSelector and valid selector labels"@,
        SpecError::MemoryRequestUnreadable => "parse broker memory request"@,
        SpecError::MemoryRequest =>
            "Kodo compatibility requires brokerResources.memoryRequest >= 2Gi"@,
        SpecError::CpuRequestUnreadable => "parse broker CPU request"@,
        SpecError::CpuRequest =>
            "Kodo compatibility requires brokerResources.cpuRequest >= 1 CPU"@,
        SpecError::CpuLimitUnreadable => "parse broker CPU limit"@,
        SpecError::CpuLimit =>
            "brokerResources.cpuLimit must be greater than or equal to cpuRequest"@,
        SpecError::MemoryLimitUnreadable => "parse broker memory limit"@,
        SpecError::MemoryLimit =>
            "brokerResources.memoryLimit must be greater than or equal to memoryRequest"@,
        SpecError::RolloutTimeout => "rollout timeoutSeconds must be between 1 and 86400"@,
        SpecError::RollbackImage => "rollout rollbackToImage cannot be empty"@,
        SpecError::EmptyRequests => "broker scheduling and resource requests cannot be empty"@,
    }
}

// The effective specification.

/// What the deliveries of a connection and of a node may hold at once.
pub open spec fn delivery_limits(
    level: u32,
    max_message_bytes: usize,
    connection: usize,
    node: usize,
) -> (usize, usize) {
    let bound: usize = if level >= 2 {
        104857600
    } else {
        max_message_bytes
    };
    let c = if connection >= bound {
        connection
    } else {
        bound
    };
    let twice = if 2 * c > usize::MAX {
        usize::MAX
    } else {
        (2 * c) as usize
    };
    (
        c,
        if node >= twice {
            node
        } else {
            twice
        },
    )
}

/// What the deliveries of a connection and of a node may hold at once: a
/// connection at least one message, and a node two such connections.
pub fn effective_delivery_limits(
    storage_feature_level: u32,
    max_message_bytes: usize,
    connection: usize,
    node: usize,
) -> (r: (usize, usize))
    ensures
        r == delivery_limits(storage_feature_level, max_message_bytes, connection, node),
{
    let bound: usize = if storage_feature_level >= 2 {
        104857600
    } else {
        max_message_bytes
    };
    let c: usize = if connection >= bound {
        connection
    } else {
        bound
    };
    let twice: usize = if c > usize::MAX / 2 {
        usize::MAX
    } else {
        2 * c
    };
    (
        c,
        if node >= twice {
            node
        } else {
            twice
        },
    )
}

/// The specification with the feature level in use as its floor.
pub open spec fn floored(s: RustQueueSpec, floor: u32) -> RustQueueSpec {
    let level = feature_level(s.storage_feature_level, floor);
    let limits = delivery_limits(
        level,
        s.max_message_bytes,
        s.connection_delivery_inflight_bytes,
        s.node_delivery_inflight_bytes,
    );
    RustQueueSpec {
        storage_feature_level: level,
        connection_delivery_inflight_bytes: limits.0,
        node_delivery_inflight_bytes: limits.1,
        ..s
    }
}

/// A RustQueue with the feature level in use as its floor.
pub fn with_storage_feature_floor(cluster: RustQueue, active_feature_floor: u32) -> (r: RustQueue)
    ensures
        r.metadata == cluster.metadata,
        r.status == cluster.status,
        r.spec == floored(cluster.spec, active_feature_floor),
{
    let mut r = cluster;
    let level: u32 = effective_storage_feature_level(
        r.spec.storage_feature_level,
        active_feature_floor,
    );
    let (connection, node): (usize, usize) = effective_delivery_limits(
        level,
        r.spec.max_message_bytes,
        r.spec.connection_delivery_inflight_bytes,
        r.spec.node_delivery_inflight_bytes,
    );
    r.spec.storage_feature_level = level;
    r.spec.connection_delivery_inflight_bytes = connection;
    r.spec.node_delivery_inflight_bytes = node;
    r
}

/// The feature level in use: the recorded one, and at least one.
pub open spec fn recorded_level(cluster: RustQueue) -> u32 {
    match cluster.status {
        Some(s) => if s.active_storage_feature_level >= 1 {
            s.active_storage_feature_level
        } else {
            1
        },
        None => 1,
    }
}

/// The feature level in use.
pub fn previous_feature_level(cluster: &RustQueue) -> (r: u32)
    ensures
        r == recorded_level(*cluster),
{
    match &cluster.status {
        Some(s) => if s.active_storage_feature_level >= 1 {
            s.active_storage_feature_level
        } else {
            1
        },
        None => 1,
    }
}

/// The feature level in use is a floor: it is never undercut, and applying it
/// again changes nothing.
pub proof fn law_feature_level_is_a_monotonic_floor(s: RustQueueSpec, floor: u32)
    ensures
        floored(s, floor).storage_feature_level >= floor,
        floored(s, floor).storage_feature_level >= s.storage_feature_level,
        floored(s, floor).storage_feature_level >= 1,
        floored(s, floor).connection_delivery_inflight_bytes
            >= s.connection_delivery_inflight_bytes,
        floored(s, floor).node_delivery_inflight_bytes >= s.node_delivery_inflight_bytes,
        floored(floored(s, floor), floor) == floored(s, floor),
{
}

/// A cluster that serves Kodo and passes has exactly three brokers on the second
/// feature level, and an image that cannot change.
pub proof fn law_valid_kodo_cluster_has_the_fixed_profile(
    s: RustQueueSpec,
    floor: u32,
    readings: ResourceReadings,
)
    requires
        s.kodo_compatibility.enabled,
        spec_fault(s, floor, readings) is None,
    ensures
        s.min_brokers == 3,
        s.max_brokers == 3,
        s.storage_feature_level == 2,
        s.max_message_bytes == 104857600,
        !s.kodo_compatibility.decommission_confirmed,
        !s.kodo_compatibility.cleanup_enabled,
        s.image_pull_policy@ == "Never"@ || is_immutable(target_image(s)),
{
}

/// Below the second feature level, messages pass exactly up to 71 MiB.
pub proof fn law_legacy_record_bound(max_message_bytes: usize)
    ensures
        exceeds_record_bound(max_message_bytes, 1) <==> max_message_bytes > 74448896,
{
}

/// Whether a cluster keeps to every limit that does not concern Kodo.
pub open spec fn within_limits(s: RustQueueSpec, level: u32) -> bool {
    &&& !text::is_blank(s.image@)
    &&& 1 <= s.min_brokers <= s.max_brokers
    &&& !text::is_blank(s.storage_class_name@) && !text::is_blank(s.storage_size@)
    &&& s.storage_feature_level > 0
    &&& s.disk_low_watermark_percent < s.disk_high_watermark_percent <= 100
    &&& s.bootstrap_retention_seconds > 0
    &&& 0 < s.max_message_bytes <= 104857600
    &&& s.message_index_cache_bytes > 0
    &&& s.max_message_bytes <= s.connection_delivery_inflight_bytes
    &&& 2 * s.connection_delivery_inflight_bytes <= s.node_delivery_inflight_bytes <= u32::MAX
    &&& s.max_topics > 0 && s.max_publish_workers > 0
    &&& s.publish_worker_idle_seconds > 0 && s.max_detailed_metric_series > 0
    &&& level >= 2 || s.max_message_bytes <= 74448896
    &&& 630 <= s.kodo_compatibility.cutover_grace_seconds <= 86400
    &&& 0 < s.rollout.timeout_seconds <= 86400
    &&& s.rollout.rollback_to_image is Some ==> !text::is_blank(s.rollout.rollback_to_image->0@)
    &&& !text::is_blank(s.broker_scheduling.topology_key@)
    &&& !text::is_blank(s.broker_resources.cpu_request@)
    &&& !text::is_blank(s.broker_resources.memory_request@)
}

/// Whether a cluster has everything that Kodo needs.
pub open spec fn fit_for_kodo(s: RustQueueSpec, readings: ResourceReadings) -> bool {
    let image = if s.rollout.rollback_to_image is Some {
        s.rollout.rollback_to_image->0@
    } else {
        s.image@
    };
    &&& s.min_brokers == 3 && s.max_brokers == 3
    &&& s.storage_feature_level == 2
    &&& s.bootstrap_retention_seconds >= 180
    &&& s.max_message_bytes == 104857600
    &&& s.connection_delivery_inflight_bytes >= 134217728
    &&& s.node_delivery_inflight_bytes >= 536870912
    &&& !s.kodo_compatibility.decommission_confirmed
    &&& !s.kodo_compatibility.cleanup_enabled
    &&& s.image_pull_policy@ == "Never"@ || is_immutable(image)
    &&& s.kodo_compatibility.allowed_pod_selector@.len() > 0
    &&& forall|i: int|
        0 <= i < s.kodo_compatibility.allowed_pod_selector@.len() ==> !text::is_blank(
            (#[trigger] s.kodo_compatibility.allowed_pod_selector@[i]).0,
        ) && !text::is_blank(s.kodo_compatibility.allowed_pod_selector@[i].1)
    &&& forall|i: int|
        0 <= i < s.kodo_compatibility.allowed_namespace_selector@.len() ==> !text::is_blank(
            (#[trigger] s.kodo_compatibility.allowed_namespace_selector@[i]).0,
        ) && !text::is_blank(s.kodo_compatibility.allowed_namespace_selector@[i].1)
    &&& readings.memory_request is Some && readings.memory_request->0 >= 2147483648
    &&& readings.cpu_request_is_one == Some(true)
    &&& s.broker_resources.cpu_limit is Some ==> readings.cpu_limit_covers_request == Some(true)
    &&& s.broker_resources.memory_limit is Some ==> readings.memory_limit is Some
        && readings.memory_limit->0 >= readings.memory_request->0
}

/// A cluster is accepted exactly where it keeps to every limit and, where it serves Kodo, has
/// everything that Kodo needs. The feature level that counts is the larger of the one that is
/// asked for and the one in use.
pub proof fn law_accepted_clusters_keep_to_the_limits(
    s: RustQueueSpec,
    floor: u32,
    readings: ResourceReadings,
)
    ensures
        spec_fault(s, floor, readings) is None <==> within_limits(
            s,
            if s.storage_feature_level >= floor {
                s.storage_feature_level
            } else {
                floor
            },
        ) && (s.kodo_compatibility.enabled ==> fit_for_kodo(s, readings)),
{
    let k = s.kodo_compatibility;
    if fit_for_kodo(s, readings) {
        assert(!has_blank(k.allowed_pod_selector@));
        assert(!has_blank(k.allowed_namespace_selector@));
    } else {
        assert(has_blank(k.allowed_pod_selector@) || forall|i: int|
            0 <= i < k.allowed_pod_selector@.len() ==> !text::is_blank(
                (#[trigger] k.allowed_pod_selector@[i]).0,
            ) && !text::is_blank(k.allowed_pod_selector@[i].1));
        assert(has_blank(k.allowed_namespace_selector@) || forall|i: int|
            0 <= i < k.allowed_namespace_selector@.len() ==> !text::is_blank(
                (#[trigger] k.allowed_namespace_selector@[i]).0,
            ) && !text::is_blank(k.allowed_namespace_selector@[i].1));
    }
}

/// A fault that is told is one that the cluster has.
pub proof fn law_faults_are_told_as_what_they_are(
    s: RustQueueSpec,
    floor: u32,
    readings: ResourceReadings,
)
    requires
        spec_fault(s, floor, readings) is Some,
    ensures
        ({
            let k = s.kodo_compatibility;
            let n = s.max_message_bytes;
            let c = s.connection_delivery_inflight_bytes;
            let d = s.node_delivery_inflight_bytes;
            match spec_fault(s, floor, readings)->0 {
                SpecError::Image => text::is_blank(s.image@),
                SpecError::BrokerLimits => !(1 <= s.min_brokers <= s.max_brokers),
                SpecError::Storage => text::is_blank(s.storage_class_name@) || text::is_blank(
                    s.storage_size@,
                ),
                SpecError::FeatureLevel => s.storage_feature_level == 0,
                SpecError::Watermarks => !(s.disk_low_watermark_percent
                    < s.disk_high_watermark_percent <= 100),
                SpecError::QueueLimits => !(0 < n <= 104857600 && n <= c && 2 * c <= d <= u32::MAX
                    && s.bootstrap_retention_seconds > 0 && s.message_index_cache_bytes > 0
                    && s.max_topics > 0 && s.max_publish_workers > 0
                    && s.publish_worker_idle_seconds > 0 && s.max_detailed_metric_series > 0),
                SpecError::RecordBound => n > 74448896 && s.storage_feature_level < 2 && floor < 2,
                SpecError::KodoProfile => k.enabled && !(s.min_brokers == 3 && s.max_brokers == 3
                    && s.storage_feature_level == 2 && s.bootstrap_retention_seconds >= 180 && n
                    == 104857600 && c >= 134217728 && d >= 536870912),
                SpecError::CutoverGrace => !(630 <= k.cutover_grace_seconds <= 86400),
                SpecError::Decommission => k.enabled && k.decommission_confirmed,
                SpecError::Cleanup => k.enabled && k.cleanup_enabled,
                SpecError::MutableImage => k.enabled && s.image_pull_policy@ != "Never"@,
                SpecError::PodSelector => k.enabled,
                SpecError::MemoryRequestUnreadable => k.enabled && readings.memory_request is None,
                SpecError::MemoryRequest => k.enabled && readings.memory_request->0 < 2147483648,
                SpecError::CpuRequestUnreadable => k.enabled && readings.cpu_request_is_one is None,
                SpecError::CpuRequest => k.enabled && readings.cpu_request_is_one == Some(false),
                SpecError::CpuLimitUnreadable => k.enabled && s.broker_resources.cpu_limit is Some
                    && readings.cpu_limit_covers_request is None,
                SpecError::CpuLimit => k.enabled && s.broker_resources.cpu_limit is Some
                    && readings.cpu_limit_covers_request == Some(false),
                SpecError::MemoryLimitUnreadable => k.enabled
                    && s.broker_resources.memory_limit is Some && readings.memory_limit is None,
                SpecError::MemoryLimit => k.enabled && s.broker_resources.memory_limit is Some
                    && readings.memory_limit->0 < readings.memory_request->0,
                SpecError::RolloutTimeout => !(0 < s.rollout.timeout_seconds <= 86400),
                SpecError::RollbackImage => s.rollout.rollback_to_image is Some && text::is_blank(
                    s.rollout.rollback_to_image->0@,
                ),
                SpecError::EmptyRequests => text::is_blank(s.broker_scheduling.topology_key@)
                    || text::is_blank(s.broker_resources.cpu_request@) || text::is_blank(
                    s.broker_resources.memory_request@,
                ),
            }
        }),
{
}

/// What a connection may have in flight holds a largest message, what a broker may have holds
/// that of two connections, and neither is raised by more than that.
pub proof fn law_deliveries_hold_the_largest_message(
    level: u32,
    max_message_bytes: usize,
    connection: usize,
    node: usize,
)
    ensures
        ({
            let r = delivery_limits(level, max_message_bytes, connection, node);
            let largest: int = if level >= 2 {
                104857600
            } else {
                max_message_bytes as int
            };
            &&& r.0 >= connection && r.0 >= largest
            &&& r.0 == connection || r.0 == largest
            &&& r.1 >= node && (r.1 >= 2 * r.0 || r.1 == usize::MAX)
            &&& r.1 == node || r.1 == 2 * r.0 || r.1 == usize::MAX
            &&& node >= 2 * r.0 ==> r.1 == node
        }),
{
}

/// Raising the feature level changes nothing else of a cluster but the two delivery limits.
pub proof fn law_the_floor_changes_the_level_and_deliveries_alone(s: RustQueueSpec, floor: u32)
    ensures
        ({
            let r = floored(s, floor);
            &&& r == (RustQueueSpec {
                storage_feature_level: r.storage_feature_level,
                connection_delivery_inflight_bytes: r.connection_delivery_inflight_bytes,
                node_delivery_inflight_bytes: r.node_delivery_inflight_bytes,
                ..s
            })
            &&& r.storage_feature_level == s.storage_feature_level || r.storage_feature_level
                == floor || r.storage_feature_level == 1
            &&& s.storage_feature_level >= 1 && s.storage_feature_level >= floor
                ==> r.storage_feature_level == s.storage_feature_level
        }),
{
}

/// The level in use is the one that the status tells, and at least one.
pub proof fn law_levels_in_use_are_those_of_the_status(cluster: RustQueue)
    ensures
        recorded_level(cluster) >= 1,
        cluster.status is Some && cluster.status->0.active_storage_feature_level > 1
            ==> recorded_level(cluster) == cluster.status->0.active_storage_feature_level,
        cluster.status is None ==> recorded_level(cluster) == 1,
        cluster.status is Some && cluster.status->0.active_storage_feature_level <= 1
            ==> recorded_level(cluster) == 1,
{
}

/// The image that is rolled out is the one to go back to, where there is one.
pub proof fn law_the_image_to_go_back_to_wins(s: RustQueueSpec)
    ensures
        s.rollout.rollback_to_image is Some ==> target_image(s)
            == s.rollout.rollback_to_image->0@,
        s.rollout.rollback_to_image is None ==> target_image(s) == s.image@,
{
}

/// An image is immutable where a digest stands at its end, whatever stands before it.
pub proof fn law_digests_make_images_immutable(name: Seq<char>, digest: Seq<char>)
    requires
        digest.len() == 64,
    ensures
        is_immutable(name + "@sha256:"@ + digest) <==> forall|i: int|
            0 <= i < 64 ==> ('0' <= #[trigger] digest[i] && digest[i] <= '9') || ('a' <= digest[i]
                && digest[i] <= 'f'),
{
    reveal_strlit("@sha256:");
    let image = name + "@sha256:"@ + digest;
    let n = image.len() - 64;
    assert(image.subrange(n - 8, n) =~= "@sha256:"@);
    assert(forall|i: int| 0 <= i < 64 ==> #[trigger] digest[i] == image[n + i]);
    assert(forall|i: int| n <= i < image.len() ==> #[trigger] image[i] == digest[i - n]);
}

} // verus!
