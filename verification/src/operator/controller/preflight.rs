//! Checks before a rollout: what the target image and the running brokers can do.
use crate::digest;
use crate::json::{self, Doc, Items, JsonView};
use crate::operator::crd::RustQueue;
use crate::operator::kube::{self, Container, Pod};
use crate::string_map;
use crate::text;
use serde_json::Value;
use vstd::prelude::*;
use vstd::string::*;
use vstd::utf8::*;

verus! {

/// The storage format of the brokers.
pub const DATA_FORMAT: u32 = 7;

/// What a check found.
#[derive(Debug)]
pub enum Outcome {
    Ready { active_feature_level: u32 },
    Pending(String),
    Blocked(String),
}

/// `Outcome` as values.
pub enum OutcomeView {
    Ready { active_feature_level: u32 },
    Pending(Seq<char>),
    Blocked(Seq<char>),
}

impl View for Outcome {
    type V = OutcomeView;

    open spec fn view(&self) -> OutcomeView {
        match *self {
            Outcome::Ready { active_feature_level } => OutcomeView::Ready { active_feature_level },
            Outcome::Pending(m) => OutcomeView::Pending(m@),
            Outcome::Blocked(m) => OutcomeView::Blocked(m@),
        }
    }
}

/// What a broker binary can do.
#[derive(Clone, Debug)]
pub struct BinaryCapabilities {
    pub binary_version: String,
    pub data_format: u32,
    pub minimum_reader_feature_level: u32,
    pub maximum_reader_feature_level: u32,
    pub maximum_writer_feature_level: u32,
    pub maximum_message_bytes: usize,
    pub maximum_batch_bytes: usize,
}

/// What a broker binary says it can do. Old ones do not say how large a message or a batch may
/// be.
#[derive(Clone, Debug)]
pub struct ReportedCapabilities {
    pub binary_version: String,
    pub data_format: u32,
    pub minimum_reader_feature_level: u32,
    pub maximum_reader_feature_level: u32,
    pub maximum_writer_feature_level: u32,
    pub maximum_message_bytes: Option<usize>,
    pub maximum_batch_bytes: Option<usize>,
}

/// What the storage of a broker needs.
#[derive(Clone, Copy, Debug)]
pub struct CompatibilityState {
    pub data_format: u32,
    pub active_writer_feature_level: u32,
    pub minimum_reader_feature_level: u32,
}

/// What a running broker reports.
#[derive(Clone, Debug)]
pub struct CompatibilityReport {
    pub binary: BinaryCapabilities,
    pub storage: CompatibilityState,
}

/// The largest message of binaries that do not report one.
pub fn legacy_maximum_message_bytes() -> (r: usize)
    ensures
        r == 33554432,
{
    33554432
}

/// The largest batch of binaries that do not report one.
pub fn legacy_maximum_batch_bytes() -> (r: usize)
    ensures
        r == 67108864,
{
    67108864
}

impl ReportedCapabilities {
    /// What the binary can do: limits that it does not say are those of old binaries.
    pub fn capabilities(self) -> (r: BinaryCapabilities)
        ensures
            r == (BinaryCapabilities {
                binary_version: self.binary_version,
                data_format: self.data_format,
                minimum_reader_feature_level: self.minimum_reader_feature_level,
                maximum_reader_feature_level: self.maximum_reader_feature_level,
                maximum_writer_feature_level: self.maximum_writer_feature_level,
                maximum_message_bytes: match self.maximum_message_bytes {
                    Some(n) => n,
                    None => 33554432,
                },
                maximum_batch_bytes: match self.maximum_batch_bytes {
                    Some(n) => n,
                    None => 67108864,
                },
            }),
    {
        BinaryCapabilities {
            binary_version: self.binary_version,
            data_format: self.data_format,
            minimum_reader_feature_level: self.minimum_reader_feature_level,
            maximum_reader_feature_level: self.maximum_reader_feature_level,
            maximum_writer_feature_level: self.maximum_writer_feature_level,
            maximum_message_bytes: match self.maximum_message_bytes {
                Some(n) => n,
                None => legacy_maximum_message_bytes(),
            },
            maximum_batch_bytes: match self.maximum_batch_bytes {
                Some(n) => n,
                None => legacy_maximum_batch_bytes(),
            },
        }
    }
}

/// The batch size that a cluster needs.
pub open spec fn batch_bytes_needed(cluster: RustQueue) -> usize {
    if cluster.spec.kodo_compatibility.enabled {
        134217728
    } else if cluster.spec.max_message_bytes > 67108864 {
        cluster.spec.max_message_bytes
    } else {
        67108864
    }
}

/// The batch size that a cluster needs.
pub fn required_batch_bytes(cluster: &RustQueue) -> (r: usize)
    ensures
        r == batch_bytes_needed(*cluster),
{
    if cluster.spec.kodo_compatibility.enabled {
        134217728
    } else if cluster.spec.max_message_bytes > 67108864 {
        cluster.spec.max_message_bytes
    } else {
        67108864
    }
}

/// Why a binary does not fit: its format, its feature levels, or its limits.
pub open spec fn binary_fault(
    c: BinaryCapabilities,
    desired: u32,
    message_bytes: usize,
    batch_bytes: usize,
) -> Option<Seq<char>> {
    if text::is_blank(c.binary_version@) || c.data_format != DATA_FORMAT {
        Some("target image does not advertise RustQueue format v7"@)
    } else if desired < c.minimum_reader_feature_level || desired > c.maximum_reader_feature_level
        || desired > c.maximum_writer_feature_level {
        Some(
            "target image cannot read and write requested storage feature level "@ + text::dec(
                desired as nat,
            ),
        )
    } else if message_bytes > c.maximum_message_bytes || batch_bytes > c.maximum_batch_bytes {
        Some(
            "target image supports at most "@ + text::dec(c.maximum_message_bytes as nat)
                + " message bytes and "@ + text::dec(c.maximum_batch_bytes as nat)
                + " batch bytes"@,
        )
    } else {
        None
    }
}

/// A result as the fault that it reports.
pub open spec fn fault(r: Result<(), String>) -> Option<Seq<char>> {
    match r {
        Ok(()) => None,
        Err(m) => Some(m@),
    }
}

/// Checks that a binary serves a feature level and the given sizes.
pub fn validate_binary(
    capabilities: &BinaryCapabilities,
    desired: u32,
    message_bytes: usize,
    batch_bytes: usize,
) -> (r: Result<(), String>)
    ensures
        fault(r) == binary_fault(*capabilities, desired, message_bytes, batch_bytes),
{
    if text::blank(capabilities.binary_version.as_str()) || capabilities.data_format
        != DATA_FORMAT {
        return Err("target image does not advertise RustQueue format v7".to_owned());
    }
    if desired < capabilities.minimum_reader_feature_level || desired
        > capabilities.maximum_reader_feature_level || desired
        > capabilities.maximum_writer_feature_level {
        let mut m =
            "target image cannot read and write requested storage feature level ".to_owned();
        m.append(text::decimal(desired as u64).as_str());
        return Err(m);
    }
    if message_bytes > capabilities.maximum_message_bytes || batch_bytes
        > capabilities.maximum_batch_bytes {
        let mut m = "target image supports at most ".to_owned();
        m.append(text::decimal(capabilities.maximum_message_bytes as u64).as_str());
        m.append(" message bytes and ");
        m.append(text::decimal(capabilities.maximum_batch_bytes as u64).as_str());
        m.append(" batch bytes");
        return Err(m);
    }
    Ok(())
}

/// The feature level that a broker is checked against: the one asked for, or the
/// one in use where that is higher.
pub open spec fn level_needed(report: CompatibilityReport, desired: u32) -> u32 {
    if report.storage.active_writer_feature_level > desired {
        report.storage.active_writer_feature_level
    } else {
        desired
    }
}

/// Why a running broker does not fit.
pub open spec fn report_fault(
    report: CompatibilityReport,
    desired: u32,
    message_bytes: usize,
    batch_bytes: usize,
) -> Option<Seq<char>> {
    let binary = binary_fault(
        report.binary,
        level_needed(report, desired),
        message_bytes,
        batch_bytes,
    );
    if binary is Some {
        binary
    } else if report.storage.data_format != DATA_FORMAT {
        Some("PVC compatibility state is not format v7"@)
    } else if report.storage.minimum_reader_feature_level
        > report.binary.maximum_reader_feature_level {
        Some("binary is behind the PVC rollback fence"@)
    } else {
        None
    }
}

/// Checks that a running broker serves a feature level and the given sizes.
pub fn validate_report(
    report: &CompatibilityReport,
    desired: u32,
    message_bytes: usize,
    batch_bytes: usize,
) -> (r: Result<(), String>)
    ensures
        fault(r) == report_fault(*report, desired, message_bytes, batch_bytes),
{
    let level: u32 = if report.storage.active_writer_feature_level > desired {
        report.storage.active_writer_feature_level
    } else {
        desired
    };
    match validate_binary(&report.binary, level, message_bytes, batch_bytes) {
        Err(m) => {
            return Err(m);
        },
        Ok(()) => {},
    }
    if report.storage.data_format != DATA_FORMAT {
        return Err("PVC compatibility state is not format v7".to_owned());
    }
    if report.storage.minimum_reader_feature_level > report.binary.maximum_reader_feature_level {
        return Err("binary is behind the PVC rollback fence".to_owned());
    }
    Ok(())
}

/// A text, or nothing.
pub open spec fn or_empty(o: Option<String>) -> Seq<char> {
    match o {
        Some(s) => s@,
        None => ""@,
    }
}

/// What a probe of an image stands for: everything that its verdict rests on.
pub open spec fn contract_of(cluster: RustQueue, image: Seq<char>) -> Seq<char> {
    or_empty(cluster.metadata.uid) + "\0"@ + image + "\0"@ + cluster.spec.image_pull_policy@
        + "\0"@ + text::dec(cluster.spec.storage_feature_level as nat) + "\0"@ + text::dec(
        cluster.spec.max_message_bytes as nat,
    ) + "\0"@ + text::dec(batch_bytes_needed(cluster) as nat) + "\0"@
        + cluster.spec.rollout.retry_nonce@
}

/// What a probe of an image stands for.
pub fn probe_contract(cluster: &RustQueue, image: &str) -> (r: String)
    ensures
        r@ == contract_of(*cluster, image@),
{
    let mut r = match &cluster.metadata.uid {
        Some(uid) => uid.clone(),
        None => "".to_owned(),
    };
    r.append("\0");
    r.append(image);
    r.append("\0");
    r.append(cluster.spec.image_pull_policy.as_str());
    r.append("\0");
    r.append(text::decimal(cluster.spec.storage_feature_level as u64).as_str());
    r.append("\0");
    r.append(text::decimal(cluster.spec.max_message_bytes as u64).as_str());
    r.append("\0");
    r.append(text::decimal(required_batch_bytes(cluster) as u64).as_str());
    r.append("\0");
    r.append(cluster.spec.rollout.retry_nonce.as_str());
    r
}

/// The fingerprint of what a probe stands for.
pub open spec fn fingerprint(contract: Seq<char>) -> Seq<char> {
    digest::digest_tag(digest::sha256(encode_utf8(contract)))
}

/// The fingerprint of what a probe stands for: sixteen bytes of its digest, in
/// hexadecimal.
pub fn probe_fingerprint(contract: &str) -> (r: String)
    ensures
        r@ == fingerprint(contract@),
        r@.len() == 32,
{
    let digest = digest::sha256_of(digest::text_bytes(contract));
    digest::tag_of(digest.as_slice())
}

/// How many bytes of a cluster's name begin the name of its probe.
pub open spec fn kept_bytes(instance: Seq<char>) -> int {
    if encode_utf8(instance).len() < 20 {
        encode_utf8(instance).len() as int
    } else {
        20
    }
}

/// The beginning of a probe's name: at most twenty bytes of the cluster's.
pub open spec fn probe_stem(instance: Seq<char>) -> Seq<char> {
    decode_utf8(encode_utf8(instance).take(kept_bytes(instance)))
}

/// The name of a probe.
pub open spec fn name_of_probe(instance: Seq<char>, fingerprint: Seq<char>) -> Seq<char> {
    probe_stem(instance) + "-preflight-"@ + fingerprint
}

/// Whether a cluster's name can begin the name of a probe: no character of it is cut in two.
pub fn names_probes(instance: &str) -> (r: bool)
    ensures
        r == is_char_boundary(encode_utf8(instance@), kept_bytes(instance@)),
{
    let bytes = digest::text_bytes(instance);
    proof {
        encode_utf8_valid_utf8(instance@);
        is_char_boundary_start_end_of_seq(bytes@);
        if bytes@.len() > 20 {
            is_char_boundary_iff_not_is_continuation_byte(bytes@, 20);
        }
    }
    bytes.len() <= 20 || !(0x80 <= bytes[20] && bytes[20] <= 0xbf)
}

/// The name of a probe with a fingerprint.
pub fn probe_name_of(instance: &str, fingerprint: &str) -> (r: String)
    requires
        is_char_boundary(encode_utf8(instance@), kept_bytes(instance@)),
    ensures
        r@ == name_of_probe(instance@, fingerprint@),
{
    let bytes = digest::text_bytes(instance);
    let n: usize = if bytes.len() < 20 {
        bytes.len()
    } else {
        20
    };
    let mut head: Vec<u8> = Vec::new();
    let mut i: usize = 0;
    while i < n
        invariant
            i <= n <= bytes@.len(),
            head@ == bytes@.take(i as int),
        decreases n - i,
    {
        head.push(bytes[i]);
        i += 1;
        assert(bytes@.take(i as int) =~= bytes@.take(i - 1).push(bytes@[i - 1]));
    }
    proof {
        encode_utf8_valid_utf8(instance@);
        valid_utf8_split(bytes@, n as int);
        assert(bytes@.subrange(0, n as int) =~= bytes@.take(n as int));
    }
    let mut r = match text::utf8_text(head.as_slice()) {
        Some(s) => {
            proof {
                encode_utf8_decode_utf8(s@);
            }
            s
        },
        None => "".to_owned(),
    };
    r.append("-preflight-");
    r.append(fingerprint);
    r
}

/// The name of the probe that stands for a contract.
pub fn probe_name(instance: &str, contract: &str) -> (r: String)
    requires
        is_char_boundary(encode_utf8(instance@), kept_bytes(instance@)),
    ensures
        r@ == name_of_probe(instance@, fingerprint(contract@)),
{
    probe_name_of(instance, probe_fingerprint(contract).as_str())
}

proof fn lemma_encode_concat(a: Seq<char>, b: Seq<char>)
    ensures
        encode_utf8(a + b) == encode_utf8(a) + encode_utf8(b),
    decreases a.len(),
{
    if a.len() == 0 {
        assert(a + b =~= b);
        assert(encode_utf8(a) =~= Seq::<u8>::empty());
    } else {
        lemma_encode_concat(a.drop_first(), b);
        assert((a + b).drop_first() =~= a.drop_first() + b);
        assert((a + b)[0] == a[0]);
        assert(encode_utf8(a + b) =~= encode_utf8(a) + encode_utf8(b));
    }
}

/// A probe's name fits into a DNS label.
pub proof fn law_probe_names_are_dns_bounded(instance: Seq<char>, fingerprint: Seq<char>)
    requires
        is_char_boundary(encode_utf8(instance), kept_bytes(instance)),
        fingerprint.len() == 32,
        is_ascii_chars(fingerprint),
    ensures
        encode_utf8(name_of_probe(instance, fingerprint)).len() <= 63,
{
    let stem = probe_stem(instance);
    let bytes = encode_utf8(instance);
    encode_utf8_valid_utf8(instance);
    valid_utf8_split(bytes, kept_bytes(instance));
    assert(bytes.subrange(0, kept_bytes(instance)) =~= bytes.take(kept_bytes(instance)));
    decode_utf8_encode_utf8(bytes.take(kept_bytes(instance)));
    assert(encode_utf8(stem).len() <= 20);
    reveal_strlit("-preflight-");
    assert(is_ascii_chars("-preflight-"@));
    is_ascii_chars_encode_utf8("-preflight-"@);
    is_ascii_chars_encode_utf8(fingerprint);
    lemma_encode_concat(stem + "-preflight-"@, fingerprint);
    lemma_encode_concat(stem, "-preflight-"@);
}

/// Whether the only element of a list is a text.
pub open spec fn is_one(v: Seq<String>, a: Seq<char>) -> bool {
    text::texts(v) == seq![a]
}

/// Whether a list holds two texts.
pub open spec fn is_two(v: Seq<String>, a: Seq<char>, b: Seq<char>) -> bool {
    text::texts(v) == seq![a, b]
}

/// Whether a container runs the probe.
pub open spec fn runs_probe(c: Container, image: Seq<char>, policy: Seq<char>) -> bool {
    &&& c.name@ == "probe"@
    &&& text::opt_text(c.image) == Some(image)
    &&& text::opt_text(c.image_pull_policy) == Some(policy)
    &&& is_one(c.command@, "rustqueued"@)
    &&& is_two(c.args@, "--capabilities-output"@, "/dev/termination-log"@)
}

/// Whether a pod is the probe of an image.
pub open spec fn is_probe(
    pod: Pod,
    image: Seq<char>,
    policy: Seq<char>,
    fingerprint: Seq<char>,
) -> bool {
    &&& string_map::lookup(pod.annotations@, "rustqueue.io/preflight-contract"@) == Some(
        fingerprint,
    )
    &&& pod.containers@.len() > 0
    &&& runs_probe(pod.containers@[0], image, policy)
}

fn container_matches(c: &Container, image: &str, policy: &str) -> (r: bool)
    ensures
        r == runs_probe(*c, image@, policy@),
{
    let command = c.command.len() == 1 && text::str_eq(c.command[0].as_str(), "rustqueued");
    let args = c.args.len() == 2 && text::str_eq(c.args[0].as_str(), "--capabilities-output")
        && text::str_eq(c.args[1].as_str(), "/dev/termination-log");
    proof {
        let t = text::texts(c.command@);
        assert(t.len() == c.command@.len());
        if command {
            assert(t =~= seq!["rustqueued"@]);
        } else if c.command@.len() == 1 {
            assert(t[0] == c.command@[0]@);
            assert(seq!["rustqueued"@][0] == "rustqueued"@);
        } else {
            assert(seq!["rustqueued"@].len() == 1);
        }
        let u = text::texts(c.args@);
        let w = seq!["--capabilities-output"@, "/dev/termination-log"@];
        assert(u.len() == c.args@.len());
        assert(w.len() == 2);
        if args {
            assert(u =~= w);
        } else if c.args@.len() == 2 {
            assert(u[0] == c.args@[0]@ && u[1] == c.args@[1]@);
            assert(w[0] == "--capabilities-output"@ && w[1] == "/dev/termination-log"@);
        }
    }
    text::str_eq(c.name.as_str(), "probe") && text::opt_is(&c.image, image) && text::opt_is(
        &c.image_pull_policy,
        policy,
    ) && command && args
}

/// Whether a pod is the probe of an image.
pub fn probe_matches(pod: &Pod, target_image: &str, image_pull_policy: &str, fingerprint: &str) -> (r:
    bool)
    ensures
        r == is_probe(*pod, target_image@, image_pull_policy@, fingerprint@),
{
    pod.annotations.holds("rustqueue.io/preflight-contract", fingerprint) && pod.containers.len()
        > 0 && container_matches(&pod.containers[0], target_image, image_pull_policy)
}

/// Why a probe does not show which image it ran.
pub open spec fn image_fault(pod: Pod) -> Option<Seq<char>> {
    if pod.container_statuses@.len() == 0 {
        Some("target image probe has no container image identity"@)
    } else if text::is_blank(pod.container_statuses@[0].image_id@) {
        Some("target image probe has an empty container image identity"@)
    } else {
        None
    }
}

/// Checks that a probe shows which image it ran.
pub fn validate_probe_image(pod: &Pod) -> (r: Result<(), String>)
    ensures
        fault(r) == image_fault(*pod),
{
    if pod.container_statuses.len() == 0 {
        return Err("target image probe has no container image identity".to_owned());
    }
    if text::blank(pod.container_statuses[0].image_id.as_str()) {
        return Err("target image probe has an empty container image identity".to_owned());
    }
    Ok(())
}

/// What the first container left when it ended.
pub open spec fn last_words(pod: Pod) -> Option<Seq<char>> {
    if pod.container_statuses@.len() == 0 {
        None
    } else {
        text::opt_text(pod.container_statuses@[0].terminated_message)
    }
}

/// What the first container left when it ended.
pub fn terminated_message(pod: &Pod) -> (r: Option<String>)
    ensures
        text::opt_text(r) == last_words(*pod),
{
    if pod.container_statuses.len() == 0 {
        None
    } else {
        text::clone_opt(&pod.container_statuses[0].terminated_message)
    }
}

/// Why the image of the first container cannot be had.
pub open spec fn pull_failure(pod: Pod) -> Option<Seq<char>> {
    if pod.container_statuses@.len() > 0 && pod.container_statuses@[0].waiting is Some {
        match pod.container_statuses@[0].waiting->0.reason {
            Some(reason) => if reason@ == "ImagePullBackOff"@ || reason@ == "ErrImagePull"@
                || reason@ == "InvalidImageName"@ {
                Some(reason@)
            } else {
                None
            },
            None => None,
        }
    } else {
        None
    }
}

/// Why the image of the first container cannot be had.
pub fn waiting_failure(pod: &Pod) -> (r: Option<String>)
    ensures
        text::opt_text(r) == pull_failure(*pod),
{
    if pod.container_statuses.len() == 0 {
        return None;
    }
    match &pod.container_statuses[0].waiting {
        Some(waiting) => match &waiting.reason {
            Some(reason) => {
                let s = reason.as_str();
                if text::str_eq(s, "ImagePullBackOff") || text::str_eq(s, "ErrImagePull")
                    || text::str_eq(s, "InvalidImageName") {
                    Some(reason.clone())
                } else {
                    None
                }
            },
            None => None,
        },
        None => None,
    }
}

/// What to do with the probe of the target image.
#[derive(Debug)]
pub enum ProbeStep {
    /// Create the probe and report.
    Create(Outcome),
    /// Delete the probe and report.
    Delete(Outcome),
    /// Report.
    Report(Outcome),
    /// Read the capabilities in this text.
    Read(String),
    /// The probe ended without a word.
    Silent,
}

/// `ProbeStep` as values.
#[allow(inconsistent_fields)]
pub enum ProbeStepView {
    Create(OutcomeView),
    Delete(OutcomeView),
    Report(OutcomeView),
    Read(Seq<char>),
    Silent,
}

impl View for ProbeStep {
    type V = ProbeStepView;

    open spec fn view(&self) -> ProbeStepView {
        match *self {
            ProbeStep::Create(o) => ProbeStepView::Create(o@),
            ProbeStep::Delete(o) => ProbeStepView::Delete(o@),
            ProbeStep::Report(o) => ProbeStepView::Report(o@),
            ProbeStep::Read(s) => ProbeStepView::Read(s@),
            ProbeStep::Silent => ProbeStepView::Silent,
        }
    }
}

/// Whether the owner is among the controllers of a pod.
pub open spec fn is_owned(pod: Pod, owner_uid: Option<String>) -> bool {
    owner_uid is Some && kube::owned_by(pod.owners@, owner_uid->0@)
}

/// What to do with a probe that was found, or not found.
pub open spec fn probe_decision(
    cluster: RustQueue,
    image: Seq<char>,
    name: Seq<char>,
    fingerprint: Seq<char>,
    found: Option<Pod>,
) -> ProbeStepView {
    let waiting = OutcomeView::Pending("waiting for target image capability probe "@ + name);
    match found {
        None => ProbeStepView::Create(waiting),
        Some(pod) => if !is_owned(pod, cluster.metadata.uid) {
            ProbeStepView::Report(
                OutcomeView::Blocked(
                    "target image capability probe "@ + name + " is not owned by this RustQueue"@,
                ),
            )
        } else if !is_probe(pod, image, cluster.spec.image_pull_policy@, fingerprint) {
            ProbeStepView::Delete(
                OutcomeView::Pending("replacing stale target image capability probe "@ + name),
            )
        } else if pull_failure(pod) is Some {
            ProbeStepView::Report(
                OutcomeView::Blocked(
                    "target image capability probe failed: "@ + pull_failure(pod)->0,
                ),
            )
        } else if text::opt_text(pod.phase) == Some("Succeeded"@) {
            if image_fault(pod) is Some {
                ProbeStepView::Report(OutcomeView::Blocked(image_fault(pod)->0))
            } else {
                match last_words(pod) {
                    Some(words) => ProbeStepView::Read(words),
                    None => ProbeStepView::Silent,
                }
            }
        } else if text::opt_text(pod.phase) == Some("Failed"@) {
            ProbeStepView::Report(
                OutcomeView::Blocked("target image capability probe exited unsuccessfully"@),
            )
        } else {
            ProbeStepView::Report(waiting)
        },
    }
}

fn joined(a: &str, b: &str) -> (r: String)
    ensures
        r@ == a@ + b@,
{
    let mut r = a.to_owned();
    r.append(b);
    r
}

/// What to do with a probe that was found, or not found.
pub fn probe_step(
    cluster: &RustQueue,
    target_image: &str,
    name: &str,
    fingerprint: &str,
    found: Option<&Pod>,
) -> (r: ProbeStep)
    ensures
        r@ == probe_decision(
            *cluster,
            target_image@,
            name@,
            fingerprint@,
            match found {
                Some(p) => Some(*p),
                None => None,
            },
        ),
{
    let pod = match found {
        None => {
            return ProbeStep::Create(
                Outcome::Pending(joined("waiting for target image capability probe ", name)),
            );
        },
        Some(p) => p,
    };
    if !kube::controlled_by(&pod.owners, &cluster.metadata.uid) {
        let mut m = joined("target image capability probe ", name);
        m.append(" is not owned by this RustQueue");
        return ProbeStep::Report(Outcome::Blocked(m));
    }
    if !probe_matches(pod, target_image, cluster.spec.image_pull_policy.as_str(), fingerprint) {
        return ProbeStep::Delete(
            Outcome::Pending(joined("replacing stale target image capability probe ", name)),
        );
    }
    if let Some(reason) = waiting_failure(pod) {
        return ProbeStep::Report(
            Outcome::Blocked(joined("target image capability probe failed: ", reason.as_str())),
        );
    }
    if text::opt_is(&pod.phase, "Succeeded") {
        match validate_probe_image(pod) {
            Err(m) => {
                return ProbeStep::Report(Outcome::Blocked(m));
            },
            Ok(()) => {},
        }
        return match terminated_message(pod) {
            Some(words) => ProbeStep::Read(words),
            None => ProbeStep::Silent,
        };
    }
    if text::opt_is(&pod.phase, "Failed") {
        return ProbeStep::Report(
            Outcome::Blocked("target image capability probe exited unsuccessfully".to_owned()),
        );
    }
    ProbeStep::Report(Outcome::Pending(joined("waiting for target image capability probe ", name)))
}

/// What a probe of the target image says.
pub open spec fn capabilities_verdict(cluster: RustQueue, c: BinaryCapabilities) -> OutcomeView {
    match binary_fault(
        c,
        cluster.spec.storage_feature_level,
        cluster.spec.max_message_bytes,
        batch_bytes_needed(cluster),
    ) {
        Some(m) => OutcomeView::Blocked(m),
        None => OutcomeView::Ready { active_feature_level: cluster.spec.storage_feature_level },
    }
}

/// What a probe of the target image says.
pub fn judge_capabilities(cluster: &RustQueue, capabilities: &BinaryCapabilities) -> (r: Outcome)
    ensures
        r@ == capabilities_verdict(*cluster, *capabilities),
{
    match validate_binary(
        capabilities,
        cluster.spec.storage_feature_level,
        cluster.spec.max_message_bytes,
        required_batch_bytes(cluster),
    ) {
        Err(m) => Outcome::Blocked(m),
        Ok(()) => Outcome::Ready { active_feature_level: cluster.spec.storage_feature_level },
    }
}

/// What a broker answered when it was asked for its capabilities.
#[derive(Debug)]
pub enum BrokerAnswer {
    Failed(String),
    NoAddress,
    Report(CompatibilityReport),
}

/// A broker and its answer.
#[derive(Debug)]
pub struct BrokerCheck {
    pub name: String,
    pub answer: BrokerAnswer,
}

/// The highest feature level in use, where every answer from `k` on fits; `level`
/// is that of the answers before.
pub open spec fn brokers_verdict(
    cluster: RustQueue,
    checks: Seq<BrokerCheck>,
    k: int,
    level: u32,
) -> OutcomeView
    decreases checks.len() - k,
{
    if k < 0 || k >= checks.len() {
        OutcomeView::Ready { active_feature_level: level }
    } else {
        match checks[k].answer {
            BrokerAnswer::Failed(error) => OutcomeView::Pending(
                "broker capability preflight is waiting: "@ + error@,
            ),
            BrokerAnswer::NoAddress => OutcomeView::Pending(
                "broker capability preflight is waiting for "@ + checks[k].name@,
            ),
            BrokerAnswer::Report(report) => match report_fault(
                report,
                cluster.spec.storage_feature_level,
                cluster.spec.max_message_bytes,
                batch_bytes_needed(cluster),
            ) {
                Some(m) => OutcomeView::Blocked("broker "@ + checks[k].name@ + ": "@ + m),
                None => brokers_verdict(cluster, checks, k + 1, level_needed(report, level)),
            },
        }
    }
}

/// What the running brokers say, in the order of their answers: the first one
/// that does not fit decides, else the highest feature level in use.
pub fn judge_brokers(cluster: &RustQueue, checks: &Vec<BrokerCheck>) -> (r: Outcome)
    ensures
        r@ == if checks@.len() == 0 {
            OutcomeView::Pending("waiting for broker Pods"@)
        } else {
            brokers_verdict(*cluster, checks@, 0, 1)
        },
{
    if checks.len() == 0 {
        return Outcome::Pending("waiting for broker Pods".to_owned());
    }
    let mut level: u32 = 1;
    let mut i: usize = 0;
    while i < checks.len()
        invariant
            i <= checks@.len(),
            checks@.len() > 0,
            brokers_verdict(*cluster, checks@, 0, 1) == brokers_verdict(
                *cluster,
                checks@,
                i as int,
                level,
            ),
        decreases checks@.len() - i,
    {
        match &checks[i].answer {
            BrokerAnswer::Failed(error) => {
                return Outcome::Pending(
                    joined("broker capability preflight is waiting: ", error.as_str()),
                );
            },
            BrokerAnswer::NoAddress => {
                return Outcome::Pending(
                    joined("broker capability preflight is waiting for ", checks[i].name.as_str()),
                );
            },
            BrokerAnswer::Report(report) => {
                match validate_report(
                    report,
                    cluster.spec.storage_feature_level,
                    cluster.spec.max_message_bytes,
                    required_batch_bytes(cluster),
                ) {
                    Err(m) => {
                        let mut b = joined("broker ", checks[i].name.as_str());
                        b.append(": ");
                        b.append(m.as_str());
                        return Outcome::Blocked(b);
                    },
                    Ok(()) => {},
                }
                if report.storage.active_writer_feature_level > level {
                    level = report.storage.active_writer_feature_level;
                }
            },
        }
        i += 1;
    }
    Outcome::Ready { active_feature_level: level }
}

proof fn lemma_brokers_verdict(cluster: RustQueue, checks: Seq<BrokerCheck>, k: int, level: u32)
    requires
        0 <= k <= checks.len(),
        brokers_verdict(cluster, checks, k, level) is Ready,
    ensures
        ({
            let active = brokers_verdict(cluster, checks, k, level)->active_feature_level;
            &&& active >= level
            &&& forall|i: int|
                k <= i < checks.len() ==> (#[trigger] checks[i]).answer is Report && active
                    >= checks[i].answer->Report_0.storage.active_writer_feature_level
        }),
    decreases checks.len() - k,
{
    if k < checks.len() {
        let report = checks[k].answer->Report_0;
        lemma_brokers_verdict(cluster, checks, k + 1, level_needed(report, level));
    }
}

/// Where the brokers are ready, each has answered, and the level that is reported
/// is at least the one that each of them writes.
pub proof fn law_broker_level_is_a_floor(cluster: RustQueue, checks: Seq<BrokerCheck>)
    requires
        brokers_verdict(cluster, checks, 0, 1) is Ready,
    ensures
        forall|i: int|
            0 <= i < checks.len() ==> (#[trigger] checks[i]).answer is Report && brokers_verdict(
                cluster,
                checks,
                0,
                1,
            )->active_feature_level
                >= checks[i].answer->Report_0.storage.active_writer_feature_level,
{
    lemma_brokers_verdict(cluster, checks, 0, 1);
}

/// Whether a probe was left by an earlier contract of the cluster.
pub fn is_stale_probe(pod: &Pod, current_name: &str, owner_uid: &Option<String>) -> (r: bool)
    ensures
        r == (pod.name@ != current_name@ && is_owned(*pod, *owner_uid)),
{
    !text::str_eq(pod.name.as_str(), current_name) && kube::controlled_by(&pod.owners, owner_uid)
}

/// The container that runs a probe.
pub open spec fn probe_container(cluster: RustQueue, image: Seq<char>) -> JsonView {
    JsonView::object().text("name"@, "probe"@).text("image"@, image).text(
        "imagePullPolicy"@,
        cluster.spec.image_pull_policy@,
    ).list("command"@, json::none().push(JsonView::Text("rustqueued"@))).list(
        "args"@,
        json::none().push(JsonView::Text("--capabilities-output"@)).push(
            JsonView::Text("/dev/termination-log"@),
        ),
    ).with(
        "securityContext"@,
        JsonView::object().flag("allowPrivilegeEscalation"@, false).flag(
            "readOnlyRootFilesystem"@,
            true,
        ).with("capabilities"@, JsonView::object().list("drop"@, json::none().push(JsonView::Text("ALL"@)))),
    ).with(
        "resources"@,
        JsonView::object().with(
            "requests"@,
            JsonView::object().text("cpu"@, "10m"@).text("memory"@, "32Mi"@),
        ),
    )
}

/// The pod that probes an image.
pub open spec fn probe_json(
    cluster: RustQueue,
    namespace: Seq<char>,
    image: Seq<char>,
    name: Seq<char>,
    fingerprint: Seq<char>,
    owner: JsonView,
) -> JsonView {
    JsonView::object().text("apiVersion"@, "v1"@).text("kind"@, "Pod"@).with(
        "metadata"@,
        JsonView::object().text("name"@, name).text("namespace"@, namespace).with(
            "annotations"@,
            JsonView::object().text("rustqueue.io/preflight-contract"@, fingerprint),
        ).with(
            "labels"@,
            JsonView::object().text("app.kubernetes.io/instance"@, cluster.metadata.name@).text(
                "app.kubernetes.io/component"@,
                "capability-preflight"@,
            ).text("app.kubernetes.io/managed-by"@, "rustqueue-operator"@),
        ).list("ownerReferences"@, json::none().push(owner)),
    ).with(
        "spec"@,
        JsonView::object().text("restartPolicy"@, "Never"@).with(
            "securityContext"@,
            JsonView::object().flag("runAsNonRoot"@, true).number("runAsUser"@, 65532).number(
                "runAsGroup"@,
                65532,
            ).with("seccompProfile"@, JsonView::object().text("type"@, "RuntimeDefault"@)),
        ).list("containers"@, json::none().push(probe_container(cluster, image))),
    )
}

/// The pod that probes an image, owned by the cluster.
pub fn probe_pod(
    cluster: &RustQueue,
    namespace: &str,
    target_image: &str,
    name: &str,
    fingerprint: &str,
    owner: Value,
) -> (r: Value)
    ensures
        json::json_held(r) == probe_json(
            *cluster,
            namespace@,
            target_image@,
            name@,
            fingerprint@,
            json::json_held(owner),
        ),
{
    let container = Doc::new().text("name", "probe").text("image", target_image).text(
        "imagePullPolicy",
        cluster.spec.image_pull_policy.as_str(),
    ).list("command", Items::new().text("rustqueued").done()).list(
        "args",
        Items::new().text("--capabilities-output").text("/dev/termination-log").done(),
    ).doc(
        "securityContext",
        Doc::new().flag("allowPrivilegeEscalation", false).flag(
            "readOnlyRootFilesystem",
            true,
        ).doc("capabilities", Doc::new().list("drop", Items::new().text("ALL").done())),
    ).doc(
        "resources",
        Doc::new().doc("requests", Doc::new().text("cpu", "10m").text("memory", "32Mi")),
    );
    let metadata = Doc::new().text("name", name).text("namespace", namespace).doc(
        "annotations",
        Doc::new().text("rustqueue.io/preflight-contract", fingerprint),
    ).doc(
        "labels",
        Doc::new().text("app.kubernetes.io/instance", cluster.metadata.name.as_str()).text(
            "app.kubernetes.io/component",
            "capability-preflight",
        ).text("app.kubernetes.io/managed-by", "rustqueue-operator"),
    ).list("ownerReferences", Items::new().item(owner).done());
    let spec = Doc::new().text("restartPolicy", "Never").doc(
        "securityContext",
        Doc::new().flag("runAsNonRoot", true).number("runAsUser", 65532).number(
            "runAsGroup",
            65532,
        ).doc("seccompProfile", Doc::new().text("type", "RuntimeDefault")),
    ).list("containers", Items::new().doc(container).done());
    Doc::new().text("apiVersion", "v1").text("kind", "Pod").doc("metadata", metadata).doc(
        "spec",
        spec,
    ).done()
}

/// An image will do exactly where it knows the format of the data, can read and write at the
/// level that is asked for, and takes messages and batches that are large enough.
pub proof fn law_images_that_will_do(
    c: BinaryCapabilities,
    desired: u32,
    message_bytes: usize,
    batch_bytes: usize,
)
    ensures
        binary_fault(c, desired, message_bytes, batch_bytes) is None <==> {
            &&& !text::is_blank(c.binary_version@)
            &&& c.data_format == 7
            &&& c.minimum_reader_feature_level <= desired <= c.maximum_reader_feature_level
            &&& desired <= c.maximum_writer_feature_level
            &&& message_bytes <= c.maximum_message_bytes
            &&& batch_bytes <= c.maximum_batch_bytes
        },
{
}

/// A broker will do exactly where its image does at the level in use, and its volume has the
/// format and can be read by the image.
pub proof fn law_brokers_that_will_do(
    r: CompatibilityReport,
    desired: u32,
    message_bytes: usize,
    batch_bytes: usize,
)
    ensures
        report_fault(r, desired, message_bytes, batch_bytes) is None <==> {
            &&& !text::is_blank(r.binary.binary_version@)
            &&& r.binary.data_format == 7 && r.storage.data_format == 7
            &&& r.binary.minimum_reader_feature_level <= desired
                || r.binary.minimum_reader_feature_level <= r.storage.active_writer_feature_level
            &&& desired <= r.binary.maximum_reader_feature_level && desired
                <= r.binary.maximum_writer_feature_level
            &&& r.storage.active_writer_feature_level <= r.binary.maximum_reader_feature_level
                && r.storage.active_writer_feature_level <= r.binary.maximum_writer_feature_level
            &&& r.storage.minimum_reader_feature_level <= r.binary.maximum_reader_feature_level
            &&& message_bytes <= r.binary.maximum_message_bytes
            &&& batch_bytes <= r.binary.maximum_batch_bytes
        },
{
}

/// The batches that an image must take: those of Kodo where it is served, else at least the
/// usual ones, and never less than a largest message.
pub proof fn law_batches_hold_a_message(cluster: RustQueue)
    ensures
        cluster.spec.kodo_compatibility.enabled ==> batch_bytes_needed(cluster) == 134217728,
        !cluster.spec.kodo_compatibility.enabled ==> batch_bytes_needed(cluster) >= 67108864
            && batch_bytes_needed(cluster) >= cluster.spec.max_message_bytes && (batch_bytes_needed(
            cluster,
        ) == 67108864 || batch_bytes_needed(cluster) == cluster.spec.max_message_bytes),
{
}

/// What an image does not say of its limits is taken to be what images could do that did not
/// say it; the rest is as it says.
pub proof fn law_silent_images_have_the_old_limits(r: ReportedCapabilities, c: BinaryCapabilities)
    requires
        call_ensures(ReportedCapabilities::capabilities, (r,), c),
    ensures
        c.binary_version == r.binary_version && c.data_format == r.data_format,
        c.minimum_reader_feature_level == r.minimum_reader_feature_level,
        c.maximum_reader_feature_level == r.maximum_reader_feature_level,
        c.maximum_writer_feature_level == r.maximum_writer_feature_level,
        r.maximum_message_bytes is Some ==> c.maximum_message_bytes == r.maximum_message_bytes->0,
        r.maximum_message_bytes is None ==> c.maximum_message_bytes == 33554432,
        r.maximum_batch_bytes is Some ==> c.maximum_batch_bytes == r.maximum_batch_bytes->0,
        r.maximum_batch_bytes is None ==> c.maximum_batch_bytes == 67108864,
{
}

/// A probe is made where there is none, left alone where it is of somebody else, replaced where
/// it probes something else, and read exactly where it has ended well and tells its image and
/// its result.
pub proof fn law_probes_are_read_when_they_have_ended(
    cluster: RustQueue,
    image: Seq<char>,
    name: Seq<char>,
    fingerprint: Seq<char>,
    found: Option<Pod>,
)
    ensures
        ({
            let step = probe_decision(cluster, image, name, fingerprint, found);
            let pod = found->0;
            let own = cluster.metadata.uid is Some && kube::owned_by(
                pod.owners@,
                cluster.metadata.uid->0@,
            );
            let same = is_probe(pod, image, cluster.spec.image_pull_policy@, fingerprint);
            let ended = text::opt_text(pod.phase) == Some("Succeeded"@);
            let failed = text::opt_text(pod.phase) == Some("Failed"@);
            &&& step is Create <==> found is None
            &&& step is Delete <==> found is Some && own && !same
            &&& found is Some && !own ==> step is Report
                && step->Report_0 is Blocked
            &&& found is Some && own && same && pull_failure(pod) is Some ==> step is Report
                && step->Report_0 is Blocked
            &&& step is Read ==> found is Some && own && same && ended && pull_failure(pod) is None
                && pod.container_statuses@.len() > 0 && !text::is_blank(
                pod.container_statuses@[0].image_id@,
            )
            &&& step matches ProbeStepView::Read(words) ==> text::opt_text(
                pod.container_statuses@[0].terminated_message,
            ) == Some(words)
            &&& found is Some && own && same && ended && pull_failure(pod) is None
                && pod.container_statuses@.len() > 0 && !text::is_blank(
                pod.container_statuses@[0].image_id@,
            ) ==> step is Read || step is Silent
            &&& found is Some && own && same && pull_failure(pod) is None && failed
                ==> step is Report
                && step->Report_0 is Blocked
            &&& found is Some && own && same && pull_failure(pod) is None && !failed && !ended
                ==> step is Report
                && step->Report_0 is Pending
            &&& step matches ProbeStepView::Report(o) ==> !(o is Ready)
        }),
{
    reveal_strlit("Succeeded");
    reveal_strlit("Failed");
    assert("Succeeded"@.len() == 9 && "Failed"@.len() == 6);
}

/// A pull has failed exactly where the first container waits for one of three reasons.
pub proof fn law_pulls_fail_for_three_reasons(pod: Pod)
    ensures
        ({
            let waiting = pod.container_statuses@[0].waiting;
            let reason = waiting->0.reason->0@;
            &&& pull_failure(pod) is Some <==> pod.container_statuses@.len() > 0 && waiting is Some
                && waiting->0.reason is Some && (reason == "ImagePullBackOff"@ || reason
                == "ErrImagePull"@ || reason == "InvalidImageName"@)
            &&& pull_failure(pod) is Some ==> pull_failure(pod)->0 == reason
        }),
{
}

/// A pod is the probe for an image exactly where it bears the fingerprint and its first container
/// runs that image in the way that probes run.
pub proof fn law_probes_run_the_image(
    pod: Pod,
    image: Seq<char>,
    policy: Seq<char>,
    fingerprint: Seq<char>,
)
    requires
        is_probe(pod, image, policy, fingerprint),
    ensures
        pod.containers@.len() > 0,
        pod.containers@[0].image is Some && pod.containers@[0].image->0@ == image,
        pod.containers@[0].image_pull_policy is Some && pod.containers@[0].image_pull_policy->0@
            == policy,
        string_map::lookup(pod.annotations@, "rustqueue.io/preflight-contract"@) == Some(
            fingerprint,
        ),
        pod.containers@[0].command@.len() == 1 && pod.containers@[0].command@[0]@ == "rustqueued"@,
        pod.containers@[0].args@.len() == 2 && pod.containers@[0].args@[0]@
            == "--capabilities-output"@ && pod.containers@[0].args@[1]@ == "/dev/termination-log"@,
{
    let c = pod.containers@[0];
    assert(text::texts(c.command@).len() == 1);
    assert(text::texts(c.command@)[0] == c.command@[0]@);
    assert(text::texts(c.args@).len() == 2);
    assert(text::texts(c.args@)[0] == c.args@[0]@);
    assert(text::texts(c.args@)[1] == c.args@[1]@);
}

/// An image that will do for a cluster is ready at the level that the cluster asks for; any
/// other blocks.
pub proof fn law_capabilities_are_judged(cluster: RustQueue, c: BinaryCapabilities)
    ensures
        ({
            let v = capabilities_verdict(cluster, c);
            let level = cluster.spec.storage_feature_level;
            &&& v is Ready || v is Blocked
            &&& v is Ready ==> v->active_feature_level == level && c.data_format == 7
                && c.minimum_reader_feature_level <= level <= c.maximum_reader_feature_level
                && level <= c.maximum_writer_feature_level && cluster.spec.max_message_bytes
                <= c.maximum_message_bytes && (cluster.spec.kodo_compatibility.enabled
                ==> c.maximum_batch_bytes >= 134217728)
        }),
{
}

proof fn lemma_verdict_is_the_first(
    cluster: RustQueue,
    checks: Seq<BrokerCheck>,
    k: int,
    level: u32,
    i: int,
)
    requires
        0 <= k <= i < checks.len(),
        forall|j: int|
            k <= j < i ==> (#[trigger] checks[j]).answer is Report && report_fault(
                checks[j].answer->Report_0,
                cluster.spec.storage_feature_level,
                cluster.spec.max_message_bytes,
                batch_bytes_needed(cluster),
            ) is None,
    ensures
        !(checks[i].answer is Report) ==> brokers_verdict(cluster, checks, k, level) is Pending,
        checks[i].answer is Report && report_fault(
            checks[i].answer->Report_0,
            cluster.spec.storage_feature_level,
            cluster.spec.max_message_bytes,
            batch_bytes_needed(cluster),
        ) is Some ==> brokers_verdict(cluster, checks, k, level) is Blocked,
    decreases i - k,
{
    if k < i {
        assert(checks[k].answer is Report);
        lemma_verdict_is_the_first(
            cluster,
            checks,
            k + 1,
            level_needed(checks[k].answer->Report_0, level),
            i,
        );
    }
}

/// The first broker that will not do blocks, the first that does not answer is waited for.
pub proof fn law_the_first_broker_that_will_not_do_decides(
    cluster: RustQueue,
    checks: Seq<BrokerCheck>,
    i: int,
)
    requires
        0 <= i < checks.len(),
        forall|j: int|
            0 <= j < i ==> (#[trigger] checks[j]).answer is Report && report_fault(
                checks[j].answer->Report_0,
                cluster.spec.storage_feature_level,
                cluster.spec.max_message_bytes,
                batch_bytes_needed(cluster),
            ) is None,
    ensures
        !(checks[i].answer is Report) ==> brokers_verdict(cluster, checks, 0, 1) is Pending,
        checks[i].answer is Report && report_fault(
            checks[i].answer->Report_0,
            cluster.spec.storage_feature_level,
            cluster.spec.max_message_bytes,
            batch_bytes_needed(cluster),
        ) is Some ==> brokers_verdict(cluster, checks, 0, 1) is Blocked,
{
    lemma_verdict_is_the_first(cluster, checks, 0, 1, i);
}

/// The names of probes begin with that of the cluster, cut off, and end in the fingerprint.
pub proof fn law_probes_are_named_by_their_fingerprint(
    instance: Seq<char>,
    fingerprint: Seq<char>,
    other: Seq<char>,
)
    ensures
        text::ends(name_of_probe(instance, fingerprint), fingerprint),
        fingerprint.len() == other.len() && name_of_probe(instance, fingerprint) == name_of_probe(
            instance,
            other,
        ) ==> fingerprint == other,
{
    let a = name_of_probe(instance, fingerprint);
    let b = name_of_probe(instance, other);
    assert(a.skip(a.len() - fingerprint.len()) =~= fingerprint);
    if fingerprint.len() == other.len() && a == b {
        assert(b.skip(b.len() - other.len()) =~= other);
    }
}

/// What an image lacks is told in words: its format first, then the level that
/// it cannot read and write, then the sizes that it takes.
pub proof fn law_what_images_lack_is_told(
    c: BinaryCapabilities,
    desired: u32,
    message_bytes: usize,
    batch_bytes: usize,
)
    ensures
        ({
            let f = binary_fault(c, desired, message_bytes, batch_bytes);
            let format = !text::is_blank(c.binary_version@) && c.data_format == 7;
            let level = c.minimum_reader_feature_level <= desired <= c.maximum_reader_feature_level
                && desired <= c.maximum_writer_feature_level;
            &&& !format ==> f == Some("target image does not advertise RustQueue format v7"@)
            &&& format && !level ==> f is Some && text::starts(
                f->0,
                "target image cannot read and write requested storage feature level "@,
            ) && text::ends(f->0, text::dec(desired as nat))
            &&& format && level && f is Some ==> text::starts(
                f->0,
                "target image supports at most "@,
            ) && text::has_text(f->0, text::dec(c.maximum_message_bytes as nat)) && text::has_text(
                f->0,
                text::dec(c.maximum_batch_bytes as nat),
            )
        }),
{
    let f = binary_fault(c, desired, message_bytes, batch_bytes);
    let h = "target image cannot read and write requested storage feature level "@;
    let d = text::dec(desired as nat);
    assert((h + d).take(h.len() as int) =~= h);
    assert((h + d).skip((h + d).len() - d.len()) =~= d);
    let a = "target image supports at most "@;
    let m = text::dec(c.maximum_message_bytes as nat);
    let b = " message bytes and "@;
    let n = text::dec(c.maximum_batch_bytes as nat);
    let e = " batch bytes"@;
    let t = a + m + b + n + e;
    assert(t.take(a.len() as int) =~= a);
    assert(t.subrange(a.len() as int, (a.len() + m.len()) as int) =~= m);
    assert(text::occurs_at(t, m, a.len() as int));
    let k = (a.len() + m.len() + b.len()) as int;
    assert(t.subrange(k, k + n.len()) =~= n);
    assert(text::occurs_at(t, n, k));
}

} // verus!
