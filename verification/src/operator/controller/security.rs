//! The secrets of a federated cluster.
use crate::digest;
use crate::operator::cluster::SecurityPolicy;
use crate::operator::kube;
use crate::operator::layout::{BrokerPlan, BrokerView};
use crate::operator::pki::{self, CaMaterial, LeafMaterial, PkiError};
use crate::operator::status;
use crate::string_map::{self, StringMap};
use crate::text;
use std::collections::BTreeMap;
use vstd::prelude::*;
use vstd::string::*;
use vstd::utf8::*;

verus! {

broadcast use {vstd::std_specs::btree::group_btree_axioms, vstd::laws_cmp::group_laws_cmp};

/// What brokers need to trust each other.
#[derive(Debug)]
pub struct SecurityState {
    pub ca_revision: u64,
    pub admin_token: String,
    pub tls_revisions: BTreeMap<u64, u64>,
}

impl SecurityState {
    /// The authority and the token of administrators, and no leaf yet.
    pub fn new(ca: &CaMaterial, admin_token: String) -> (r: Self)
        ensures
            r.ca_revision == ca.revision,
            r.admin_token == admin_token,
            r.tls_revisions@ == Map::<u64, u64>::empty(),
    {
        SecurityState { ca_revision: ca.revision, admin_token, tls_revisions: BTreeMap::new() }
    }

    /// Notes the revision of a broker's leaf.
    pub fn record(&mut self, node_id: u64, revision: u64)
        ensures
            final(self).ca_revision == old(self).ca_revision,
            final(self).admin_token == old(self).admin_token,
            final(self).tls_revisions@ == old(self).tls_revisions@.insert(node_id, revision),
    {
        self.tls_revisions.insert(node_id, revision);
    }
}

/// A secret: its name, its annotations and its data.
#[derive(Debug)]
pub struct Secret {
    pub name: String,
    pub annotations: StringMap,
    pub data: Vec<(String, Vec<u8>)>,
}

/// The bytes under a key, from `k` on.
pub open spec fn data_under(data: Seq<(String, Vec<u8>)>, key: Seq<char>, k: int) -> Option<Seq<u8>>
    decreases data.len() - k,
{
    if k < 0 || k >= data.len() {
        None
    } else if data[k].0@ == key {
        Some(data[k].1@)
    } else {
        data_under(data, key, k + 1)
    }
}

/// The text under a key, where it is valid UTF-8.
pub open spec fn text_under(secret: Secret, key: Seq<char>) -> Option<Seq<char>> {
    match data_under(secret.data@, key, 0) {
        Some(bytes) => if valid_utf8(bytes) {
            Some(decode_utf8(bytes))
        } else {
            None
        },
        None => None,
    }
}

/// Why there is no text under a key.
pub open spec fn lacking(secret: Secret, key: Seq<char>) -> Seq<char> {
    if data_under(secret.data@, key, 0) is None {
        "Secret "@ + secret.name@ + " lacks "@ + key
    } else {
        "Secret data is not UTF-8"@
    }
}

/// The text under a key of a secret.
pub fn secret_string(secret: &Secret, key: &str) -> (r: Result<String, String>)
    ensures
        match r {
            Ok(t) => text_under(*secret, key@) == Some(t@),
            Err(m) => text_under(*secret, key@) is None && m@ == lacking(*secret, key@),
        },
{
    let mut i: usize = 0;
    while i < secret.data.len()
        invariant
            i <= secret.data@.len(),
            data_under(secret.data@, key@, 0) == data_under(secret.data@, key@, i as int),
        decreases secret.data@.len() - i,
    {
        if text::str_eq(secret.data[i].0.as_str(), key) {
            return match text::utf8_text(secret.data[i].1.as_slice()) {
                Some(t) => {
                    proof {
                        encode_utf8_decode_utf8(t@);
                    }
                    Ok(t)
                },
                None => Err("Secret data is not UTF-8".to_owned()),
            };
        }
        i += 1;
    }
    let mut m = "Secret ".to_owned();
    m.append(secret.name.as_str());
    m.append(" lacks ");
    m.append(key);
    Err(m)
}

/// The unsigned number in an annotation.
fn annotation_u64(secret: &Secret, key: &str) -> (r: Option<u64>)
    ensures
        r == kube::number_under(secret.annotations@, key@),
{
    kube::number_at(&secret.annotations, key)
}

/// The signed number under a key.
pub open spec fn integer_under(m: Seq<(Seq<char>, Seq<char>)>, key: Seq<char>) -> Option<int> {
    match string_map::lookup(m, key) {
        Some(v) => text::parsed_signed(v),
        None => None,
    }
}

fn annotation_i64(secret: &Secret, key: &str) -> (r: Option<i64>)
    ensures
        match r {
            Some(n) => integer_under(secret.annotations@, key@) == Some(n as int),
            None => integer_under(secret.annotations@, key@) is None,
        },
{
    match secret.annotations.get(key) {
        Some(v) => {
            let c = text::chars_of(v.as_str());
            text::parse_signed(c.as_slice())
        },
        None => None,
    }
}

/// Whether an authority may still sign at a time.
pub fn ca_valid(not_after_unix: i64, now: i64) -> (r: bool)
    ensures
        r == (not_after_unix > now),
{
    not_after_unix > now
}

/// Whether a token is the existing one, or a random one of 32 bytes where there is none.
pub open spec fn token_fits(existing: Option<&Secret>, key: Seq<char>, token: Seq<char>) -> bool {
    if existing is Some && text_under(*existing->0, key) is Some {
        token == text_under(*existing->0, key)->0
    } else {
        token.len() == 64 && exists|value: Seq<u8>|
            value.len() == 32 && token == #[trigger] digest::hex_text(value)
    }
}

/// A token of the shared secret: the existing one, or a random one of 32 bytes.
pub fn shared_token(existing: Option<&Secret>, key: &str) -> (r: String)
    ensures
        token_fits(existing, key@, r@),
{
    if let Some(secret) = existing {
        if let Ok(token) = secret_string(secret, key) {
            return token;
        }
    }
    pki::random_hex(32)
}

/// Whether a secret carries the current authority.
pub open spec fn signed_by(existing: Option<&Secret>, ca_revision: u64) -> bool {
    existing matches Some(s) && kube::number_under(s.annotations@, "rustqueue.io/ca-revision"@)
        == Some(ca_revision)
}

/// Whether the shared secret carries the current authority.
pub fn shared_current(existing: Option<&Secret>, ca_revision: u64) -> (r: bool)
    ensures
        r == signed_by(existing, ca_revision),
{
    match existing {
        Some(secret) => match annotation_u64(secret, "rustqueue.io/ca-revision") {
            Some(n) => n == ca_revision,
            None => false,
        },
        None => false,
    }
}

/// The revision of the existing leaf, where the authority signed it, it outlives
/// the renewal time and its revision is known.
pub open spec fn leaf_kept(existing: Option<Secret>, ca_revision: u64, renew_at: i64) -> Option<u64> {
    match existing {
        None => None,
        Some(s) => if kube::number_under(s.annotations@, "rustqueue.io/ca-revision"@) == Some(
            ca_revision,
        ) && (integer_under(s.annotations@, "rustqueue.io/certificate-not-after"@) matches Some(t)
            && t > renew_at) {
            kube::number_under(s.annotations@, "rustqueue.io/tls-revision"@)
        } else {
            None
        },
    }
}

/// The revision of the leaf that may stay, if any.
pub fn current_leaf(existing: &Option<Secret>, ca_revision: u64, renew_at: i64) -> (r: Option<u64>)
    ensures
        r == leaf_kept(*existing, ca_revision, renew_at),
{
    match existing {
        None => None,
        Some(secret) => {
            let signed_here = match annotation_u64(secret, "rustqueue.io/ca-revision") {
                Some(n) => n == ca_revision,
                None => false,
            };
            let fresh = match annotation_i64(secret, "rustqueue.io/certificate-not-after") {
                Some(t) => t > renew_at,
                None => false,
            };
            if signed_here && fresh {
                annotation_u64(secret, "rustqueue.io/tls-revision")
            } else {
                None
            }
        },
    }
}

/// When leaves that end earlier are renewed.
pub fn renewal_time(now: i64, renew_before_days: u32) -> (r: i64)
    ensures
        r == pki::days_later(now, renew_before_days as int),
{
    pki::add_days(now, renew_before_days as i64)
}

/// The names by which a broker is reached.
pub open spec fn leaf_names(broker: BrokerView, namespace: Seq<char>) -> Seq<Seq<char>> {
    let pod = broker.pod_name;
    let headless = broker.headless_service;
    seq![
        pod,
        pod + "."@ + headless,
        pod + "."@ + headless + "."@ + namespace + ".svc"@,
        pod + "."@ + headless + "."@ + namespace + ".svc.cluster.local"@,
    ]
}

/// The names by which a broker is reached.
pub fn leaf_dns_names(broker: &BrokerPlan, namespace: &str) -> (r: Vec<String>)
    ensures
        text::texts(r@) == leaf_names(broker@, namespace@),
{
    let mut short = broker.pod_name.clone();
    short.append(".");
    short.append(broker.headless_service.as_str());
    let mut service = short.clone();
    service.append(".");
    service.append(namespace);
    let mut full = service.clone();
    service.append(".svc");
    full.append(".svc.cluster.local");
    let mut out: Vec<String> = Vec::new();
    out.push(broker.pod_name.clone());
    out.push(short);
    out.push(service);
    out.push(full);
    assert(text::texts(out@) =~= leaf_names(broker@, namespace@));
    out
}

/// The name of the secret with the authority.
pub fn ca_secret_name(cluster: &str) -> (r: String)
    ensures
        r@ == cluster@ + "-ca"@,
{
    let mut r = cluster.to_owned();
    r.append("-ca");
    r
}

/// The name of the secret that all brokers share.
pub fn shared_secret_name(cluster: &str) -> (r: String)
    ensures
        r@ == cluster@ + "-shared"@,
{
    let mut r = cluster.to_owned();
    r.append("-shared");
    r
}

/// The common name of the authority.
pub fn ca_common_name(cluster: &str) -> (r: String)
    ensures
        r@ == cluster@ + " RustQueue CA"@,
{
    let mut r = cluster.to_owned();
    r.append(" RustQueue CA");
    r
}

/// A secret to be written: its name, the component it belongs to, its data and its
/// annotations.
#[derive(Debug)]
pub struct SecretDraft {
    pub name: String,
    pub component: String,
    pub data: StringMap,
    pub annotations: StringMap,
}

/// `SecretDraft` as texts.
pub struct DraftView {
    pub name: Seq<char>,
    pub component: Seq<char>,
    pub data: Seq<(Seq<char>, Seq<char>)>,
    pub annotations: Seq<(Seq<char>, Seq<char>)>,
}

impl View for SecretDraft {
    type V = DraftView;

    open spec fn view(&self) -> DraftView {
        DraftView {
            name: self.name@,
            component: self.component@,
            data: self.data@,
            annotations: self.annotations@,
        }
    }
}

/// No entries.
pub open spec fn nothing() -> Seq<(Seq<char>, Seq<char>)> {
    Seq::empty()
}

/// The secret of an authority.
pub open spec fn ca_secret(cluster: Seq<char>, ca: CaMaterial) -> DraftView {
    DraftView {
        name: cluster + "-ca"@,
        component: "pki"@,
        data: string_map::put(
            string_map::put(nothing(), "ca.crt"@, ca.certificate_pem@),
            "ca.key"@,
            ca.private_key_pem@,
        ),
        annotations: string_map::put(
            string_map::put(
                nothing(),
                "rustqueue.io/ca-revision"@,
                text::dec(ca.revision as nat),
            ),
            "rustqueue.io/certificate-not-after"@,
            text::dec_int(ca.not_after_unix as int),
        ),
    }
}

/// The secret of an authority.
pub fn ca_draft(cluster: &str, ca: &CaMaterial) -> (r: SecretDraft)
    ensures
        r@ == ca_secret(cluster@, *ca),
{
    let mut data = StringMap::new();
    data.insert("ca.crt", ca.certificate_pem.as_str());
    data.insert("ca.key", ca.private_key_pem.as_str());
    let mut annotations = StringMap::new();
    annotations.insert("rustqueue.io/ca-revision", text::decimal(ca.revision).as_str());
    annotations.insert(
        "rustqueue.io/certificate-not-after",
        text::decimal_i64(ca.not_after_unix).as_str(),
    );
    SecretDraft { name: ca_secret_name(cluster), component: "pki".to_owned(), data, annotations }
}

/// Why the secrets of a cluster cannot be had.
#[derive(Debug)]
pub enum SecurityError {
    /// A secret lacks something.
    Secret(String),
    /// Certificate material is refused or cannot be made.
    Pki(PkiError),
    /// The authority may sign no more.
    Expired,
}

impl SecurityError {
    /// What the error says.
    pub fn message(&self) -> (r: String)
        ensures
            r@ == match *self {
                SecurityError::Secret(m) => m@,
                SecurityError::Pki(e) => pki::said(e@),
                SecurityError::Expired => "managed cluster CA has expired"@,
            },
    {
        match self {
            SecurityError::Secret(m) => m.clone(),
            SecurityError::Pki(e) => e.message(),
            SecurityError::Expired => "managed cluster CA has expired".to_owned(),
        }
    }
}

/// Whether this is what becomes of the authority in a secret at a time: it is in the secret,
/// it can be loaded, and it may still sign.
pub open spec fn ca_found(
    secret: Secret,
    now: i64,
    found: Result<CaMaterial, SecurityError>,
) -> bool {
    match (text_under(secret, "ca.crt"@), text_under(secret, "ca.key"@)) {
        (None, _) => found matches Err(SecurityError::Secret(m)) && m@ == lacking(
            secret,
            "ca.crt"@,
        ),
        (Some(_), None) => found matches Err(SecurityError::Secret(m)) && m@ == lacking(
            secret,
            "ca.key"@,
        ),
        (Some(certificate), Some(key)) => match pki::loaded(certificate, key) {
            Err(e) => found matches Err(SecurityError::Pki(f)) && f@ == e,
            Ok(until) => if until > now {
                found matches Ok(ca) && ca.certificate_pem@ == certificate
                    && ca.private_key_pem@ == key && ca.not_after_unix == until
                    && pki::authority_revised(ca)
            } else {
                found == Err::<CaMaterial, SecurityError>(SecurityError::Expired)
            },
        },
    }
}

/// The authority in a secret, at a time.
pub fn existing_ca(secret: &Secret, now: i64) -> (r: Result<CaMaterial, SecurityError>)
    ensures
        ca_found(*secret, now, r),
{
    let certificate = match secret_string(secret, "ca.crt") {
        Ok(t) => t,
        Err(m) => {
            return Err(SecurityError::Secret(m));
        },
    };
    let key = match secret_string(secret, "ca.key") {
        Ok(t) => t,
        Err(m) => {
            return Err(SecurityError::Secret(m));
        },
    };
    match pki::load_ca(certificate.as_str(), key.as_str()) {
        Err(e) => Err(SecurityError::Pki(e)),
        Ok(ca) => if ca_valid(ca.not_after_unix, now) {
            Ok(ca)
        } else {
            Err(SecurityError::Expired)
        },
    }
}

/// Whether the authority in a secret is what becomes of it at a time, and nothing is written.
pub open spec fn ca_kept(
    secret: Secret,
    now: i64,
    found: Result<(CaMaterial, Option<SecretDraft>), SecurityError>,
) -> bool {
    match found {
        Ok((ca, draft)) => draft is None && ca_found(secret, now, Ok(ca)),
        Err(e) => ca_found(secret, now, Err(e)),
    }
}

/// Whether this is what becomes of the authority of a cluster without a secret: a new one is
/// made at a time, with the secret to be written for it.
pub open spec fn ca_new(
    cluster: Seq<char>,
    policy: SecurityPolicy,
    now: i64,
    found: Result<(CaMaterial, Option<SecretDraft>), SecurityError>,
) -> bool {
    match found {
        Ok((ca, draft)) => {
            &&& pki::authority_made(
                cluster + " RustQueue CA"@,
                policy.ca_validity_days,
                now,
                Ok(ca),
            )
            &&& draft is Some
            &&& draft->0@ == ca_secret(cluster, ca)
        },
        Err(SecurityError::Pki(e)) => pki::authority_made(
            cluster + " RustQueue CA"@,
            policy.ca_validity_days,
            now,
            Err(e),
        ),
        Err(_) => false,
    }
}

/// Whether this is what becomes of the authority of a cluster at a time.
pub open spec fn ca_ensured(
    existing: Option<&Secret>,
    cluster: Seq<char>,
    policy: SecurityPolicy,
    now: i64,
    found: Result<(CaMaterial, Option<SecretDraft>), SecurityError>,
) -> bool {
    match existing {
        Some(secret) => ca_kept(*secret, now, found),
        None => ca_new(cluster, policy, now, found),
    }
}

/// The authority of a cluster at a time: the one in its secret, or a new one with the secret to
/// be written for it.
pub fn ensure_ca_at(existing: Option<&Secret>, cluster: &str, policy: &SecurityPolicy, now: i64) -> (r:
    Result<(CaMaterial, Option<SecretDraft>), SecurityError>)
    ensures
        ca_ensured(existing, cluster@, *policy, now, r),
{
    match existing {
        Some(secret) => match existing_ca(secret, now) {
            Ok(ca) => Ok((ca, None)),
            Err(e) => Err(e),
        },
        None => match pki::generate_ca_at(
            ca_common_name(cluster).as_str(),
            policy.ca_validity_days,
            now,
        ) {
            Ok(ca) => {
                let draft = ca_draft(cluster, &ca);
                Ok((ca, Some(draft)))
            },
            Err(e) => Err(SecurityError::Pki(e)),
        },
    }
}

/// The authority of a cluster: the one in its secret, or a new one with the secret to be
/// written for it.
pub fn ensure_ca(existing: Option<&Secret>, cluster: &str, policy: &SecurityPolicy) -> (r: Result<
    (CaMaterial, Option<SecretDraft>),
    SecurityError,
>)
    ensures
        (existing is None && r is Ok) ==> pki::authority_named(
            (r->Ok_0).0,
            cluster@ + " RustQueue CA"@,
        ),
        exists|now: i64| #[trigger] ca_ensured(existing, cluster@, *policy, now, r),
{
    let now: i64 = status::unix_now();
    ensure_ca_at(existing, cluster, policy, now)
}

/// The tokens that all brokers share.
#[derive(Debug)]
pub struct SharedTokens {
    pub admin: String,
    pub discovery: String,
}

/// The secret that all brokers share.
pub open spec fn shared_secret(
    cluster: Seq<char>,
    ca: CaMaterial,
    admin: Seq<char>,
    discovery: Seq<char>,
) -> DraftView {
    DraftView {
        name: cluster + "-shared"@,
        component: "pki"@,
        data: string_map::put(
            string_map::put(
                string_map::put(nothing(), "ca.crt"@, ca.certificate_pem@),
                "admin.token"@,
                admin,
            ),
            "discovery.token"@,
            discovery,
        ),
        annotations: string_map::put(
            nothing(),
            "rustqueue.io/ca-revision"@,
            text::dec(ca.revision as nat),
        ),
    }
}

/// The tokens that all brokers share, with the secret to be written where the existing one
/// does not carry the authority.
pub fn ensure_shared(existing: Option<&Secret>, cluster: &str, ca: &CaMaterial) -> (r: (
    SharedTokens,
    Option<SecretDraft>,
))
    ensures
        token_fits(existing, "admin.token"@, r.0.admin@),
        token_fits(existing, "discovery.token"@, r.0.discovery@),
        r.1 is None <==> signed_by(existing, ca.revision),
        r.1 matches Some(draft) ==> draft@ == shared_secret(
            cluster@,
            *ca,
            r.0.admin@,
            r.0.discovery@,
        ),
{
    let admin = shared_token(existing, "admin.token");
    let discovery = shared_token(existing, "discovery.token");
    let draft = if shared_current(existing, ca.revision) {
        None
    } else {
        let mut data = StringMap::new();
        data.insert("ca.crt", ca.certificate_pem.as_str());
        data.insert("admin.token", admin.as_str());
        data.insert("discovery.token", discovery.as_str());
        let mut annotations = StringMap::new();
        annotations.insert("rustqueue.io/ca-revision", text::decimal(ca.revision).as_str());
        Some(
            SecretDraft {
                name: shared_secret_name(cluster),
                component: "pki".to_owned(),
                data,
                annotations,
            },
        )
    };
    (SharedTokens { admin, discovery }, draft)
}

/// The secret of a leaf.
pub open spec fn leaf_secret(broker: BrokerView, ca: CaMaterial, leaf: LeafMaterial) -> DraftView {
    DraftView {
        name: broker.tls_secret,
        component: "tls"@,
        data: string_map::put(
            string_map::put(nothing(), "tls.crt"@, leaf.certificate_pem@),
            "tls.key"@,
            leaf.private_key_pem@,
        ),
        annotations: string_map::put(
            string_map::put(
                string_map::put(
                    nothing(),
                    "rustqueue.io/ca-revision"@,
                    text::dec(ca.revision as nat),
                ),
                "rustqueue.io/tls-revision"@,
                text::dec(leaf.revision as nat),
            ),
            "rustqueue.io/certificate-not-after"@,
            text::dec_int(leaf.not_after_unix as int),
        ),
    }
}

/// The secret of a leaf.
pub fn leaf_draft(broker: &BrokerPlan, ca: &CaMaterial, leaf: &LeafMaterial) -> (r: SecretDraft)
    ensures
        r@ == leaf_secret(broker@, *ca, *leaf),
{
    let mut data = StringMap::new();
    data.insert("tls.crt", leaf.certificate_pem.as_str());
    data.insert("tls.key", leaf.private_key_pem.as_str());
    let mut annotations = StringMap::new();
    annotations.insert("rustqueue.io/ca-revision", text::decimal(ca.revision).as_str());
    annotations.insert("rustqueue.io/tls-revision", text::decimal(leaf.revision).as_str());
    annotations.insert(
        "rustqueue.io/certificate-not-after",
        text::decimal_i64(leaf.not_after_unix).as_str(),
    );
    SecretDraft {
        name: broker.tls_secret.clone(),
        component: "tls".to_owned(),
        data,
        annotations,
    }
}

/// Whether a leaf was made for a broker at a time, with the revision and the secret that go
/// with it.
pub open spec fn leaf_issued(
    namespace: Seq<char>,
    broker: BrokerView,
    ca: CaMaterial,
    validity_days: u32,
    now: i64,
    revision: u64,
    draft: DraftView,
    leaf: LeafMaterial,
) -> bool {
    &&& pki::leaf_made(
        ca,
        broker.pod_name,
        leaf_names(broker, namespace),
        validity_days,
        now,
        Ok(leaf),
    )
    &&& revision == leaf.revision
    &&& draft == leaf_secret(broker, ca, leaf)
}

/// Whether this is what becomes of the leaf of a broker at a time: the existing one stays,
/// where the authority signed it and it is not to be renewed, and otherwise one is signed that
/// names the broker.
pub open spec fn leaf_ensured(
    existing: Option<Secret>,
    namespace: Seq<char>,
    broker: BrokerView,
    ca: CaMaterial,
    policy: SecurityPolicy,
    now: i64,
    found: Result<(u64, Option<SecretDraft>), PkiError>,
) -> bool {
    match leaf_kept(existing, ca.revision, pki::days_later(now, policy.renew_before_days as int)) {
        Some(revision) => found == Ok::<(u64, Option<SecretDraft>), PkiError>((revision, None)),
        None => match found {
            Ok((revision, Some(draft))) => exists|leaf: LeafMaterial| #[trigger]
                leaf_issued(
                    namespace,
                    broker,
                    ca,
                    policy.certificate_validity_days,
                    now,
                    revision,
                    draft@,
                    leaf,
                ),
            Ok((_, None)) => false,
            Err(e) => pki::leaf_made(
                ca,
                broker.pod_name,
                leaf_names(broker, namespace),
                policy.certificate_validity_days,
                now,
                Err(e),
            ),
        },
    }
}

/// The revision of the leaf of a broker at a time, with the secret to be written where it is a
/// new one.
pub fn ensure_leaf_at(
    existing: &Option<Secret>,
    namespace: &str,
    broker: &BrokerPlan,
    ca: &CaMaterial,
    policy: &SecurityPolicy,
    now: i64,
) -> (r: Result<(u64, Option<SecretDraft>), PkiError>)
    ensures
        leaf_ensured(*existing, namespace@, broker@, *ca, *policy, now, r),
{
    let renew_at = renewal_time(now, policy.renew_before_days);
    match current_leaf(existing, ca.revision, renew_at) {
        Some(revision) => Ok((revision, None)),
        None => {
            let names = leaf_dns_names(broker, namespace);
            match pki::issue_leaf_at(
                ca,
                broker.pod_name.as_str(),
                &names,
                policy.certificate_validity_days,
                now,
            ) {
                Err(e) => Err(e),
                Ok(leaf) => {
                    let draft = leaf_draft(broker, ca, &leaf);
                    let found: Result<(u64, Option<SecretDraft>), PkiError> = Ok(
                        (leaf.revision, Some(draft)),
                    );
                    assert(leaf_issued(
                        namespace@,
                        broker@,
                        *ca,
                        policy.certificate_validity_days,
                        now,
                        (found->Ok_0).0,
                        ((found->Ok_0).1->0)@,
                        leaf,
                    ));
                    found
                },
            }
        },
    }
}

/// Whether a secret is that of a leaf that names a broker.
pub open spec fn is_leaf_of(
    namespace: Seq<char>,
    broker: BrokerView,
    ca: CaMaterial,
    draft: DraftView,
    leaf: LeafMaterial,
) -> bool {
    &&& pki::leaf_named(leaf, ca, broker.pod_name, leaf_names(broker, namespace))
    &&& draft == leaf_secret(broker, ca, leaf)
}

/// The revision of the leaf of a broker, with the secret to be written where it is a new one.
pub fn ensure_leaf(
    existing: &Option<Secret>,
    namespace: &str,
    broker: &BrokerPlan,
    ca: &CaMaterial,
    policy: &SecurityPolicy,
) -> (r: Result<(u64, Option<SecretDraft>), PkiError>)
    ensures
        (r is Ok && (r->Ok_0).1 is Some) ==> exists|leaf: LeafMaterial|
            (r->Ok_0).0 == leaf.revision && #[trigger] is_leaf_of(
                namespace@,
                broker@,
                *ca,
                ((r->Ok_0).1->0)@,
                leaf,
            ),
        exists|now: i64| #[trigger]
            leaf_ensured(*existing, namespace@, broker@, *ca, *policy, now, r),
{
    let now: i64 = status::unix_now();
    let r = ensure_leaf_at(existing, namespace, broker, ca, policy, now);
    proof {
        if r is Ok && (r->Ok_0).1 is Some {
            let leaf = choose|leaf: LeafMaterial| #[trigger]
                leaf_issued(
                    namespace@,
                    broker@,
                    *ca,
                    policy.certificate_validity_days,
                    now,
                    (r->Ok_0).0,
                    ((r->Ok_0).1->0)@,
                    leaf,
                );
            assert(is_leaf_of(namespace@, broker@, *ca, ((r->Ok_0).1->0)@, leaf));
        }
    }
    r
}

/// Whether a secret holds what a draft says.
pub open spec fn holds(secret: Secret, draft: DraftView) -> bool {
    &&& secret.annotations@ == draft.annotations
    &&& forall|key: Seq<char>| #[trigger]
        text_under(secret, key) == string_map::lookup(draft.data, key)
}

/// A leaf that was written is kept while its authority stays and it is not to be renewed.
pub proof fn law_written_leaves_are_kept(
    secret: Secret,
    broker: BrokerView,
    ca: CaMaterial,
    leaf: LeafMaterial,
    renew_at: i64,
)
    requires
        holds(secret, leaf_secret(broker, ca, leaf)),
    ensures
        leaf.not_after_unix > renew_at ==> leaf_kept(Some(secret), ca.revision, renew_at) == Some(
            leaf.revision,
        ),
        leaf.not_after_unix <= renew_at ==> leaf_kept(Some(secret), ca.revision, renew_at) is None,
        forall|other: u64|
            other != ca.revision ==> leaf_kept(Some(secret), other, renew_at) is None,
{
    lemma_annotation_names();
    let a = string_map::put(nothing(), "rustqueue.io/ca-revision"@, text::dec(ca.revision as nat));
    let b = string_map::put(a, "rustqueue.io/tls-revision"@, text::dec(leaf.revision as nat));
    string_map::lemma_put(
        nothing(),
        "rustqueue.io/ca-revision"@,
        text::dec(ca.revision as nat),
    );
    string_map::lemma_put(a, "rustqueue.io/tls-revision"@, text::dec(leaf.revision as nat));
    string_map::lemma_put(
        b,
        "rustqueue.io/certificate-not-after"@,
        text::dec_int(leaf.not_after_unix as int),
    );
    text::lemma_dec_round_trip(ca.revision as nat, u64::MAX as nat);
    text::lemma_dec_round_trip(leaf.revision as nat, u64::MAX as nat);
    text::lemma_dec_int_round_trip(leaf.not_after_unix);
}

/// Shared tokens that were written are kept, whatever becomes of the authority, and the secret
/// is not written again while the authority stays.
pub proof fn law_written_tokens_are_kept(
    secret: Secret,
    cluster: Seq<char>,
    ca: CaMaterial,
    admin: Seq<char>,
    discovery: Seq<char>,
    token: Seq<char>,
)
    requires
        holds(secret, shared_secret(cluster, ca, admin, discovery)),
    ensures
        token_fits(Some(&secret), "admin.token"@, token) <==> token == admin,
        token_fits(Some(&secret), "discovery.token"@, token) <==> token == discovery,
        forall|revision: u64| signed_by(Some(&secret), revision) <==> revision == ca.revision,
{
    reveal_strlit("ca.crt");
    reveal_strlit("admin.token");
    reveal_strlit("discovery.token");
    let a = string_map::put(nothing(), "ca.crt"@, ca.certificate_pem@);
    let b = string_map::put(a, "admin.token"@, admin);
    string_map::lemma_put(nothing(), "ca.crt"@, ca.certificate_pem@);
    string_map::lemma_put(a, "admin.token"@, admin);
    string_map::lemma_put(b, "discovery.token"@, discovery);
    string_map::lemma_put(
        nothing(),
        "rustqueue.io/ca-revision"@,
        text::dec(ca.revision as nat),
    );
    text::lemma_dec_round_trip(ca.revision as nat, u64::MAX as nat);
    assert("admin.token"@.len() != "discovery.token"@.len());
    assert(text_under(secret, "admin.token"@) == Some(admin));
    assert(text_under(secret, "discovery.token"@) == Some(discovery));
}

/// An authority that was written is found again, while it can be loaded and may sign.
pub proof fn law_written_authorities_are_found(
    secret: Secret,
    cluster: Seq<char>,
    ca: CaMaterial,
    now: i64,
    found: Result<CaMaterial, SecurityError>,
)
    requires
        holds(secret, ca_secret(cluster, ca)),
        pki::authority_revised(ca),
        pki::loaded(ca.certificate_pem@, ca.private_key_pem@) == Ok::<i64, pki::PkiErrorView>(
            ca.not_after_unix,
        ),
        ca.not_after_unix > now,
        ca_found(secret, now, found),
    ensures
        found matches Ok(other) && other.certificate_pem@ == ca.certificate_pem@
            && other.private_key_pem@ == ca.private_key_pem@ && other.revision == ca.revision
            && other.not_after_unix == ca.not_after_unix,
{
    reveal_strlit("ca.crt");
    reveal_strlit("ca.key");
    assert("ca.crt"@[3] != "ca.key"@[3]);
    let a = string_map::put(nothing(), "ca.crt"@, ca.certificate_pem@);
    string_map::lemma_put(nothing(), "ca.crt"@, ca.certificate_pem@);
    string_map::lemma_put(a, "ca.key"@, ca.private_key_pem@);
    assert(text_under(secret, "ca.crt"@) == Some(ca.certificate_pem@));
    assert(text_under(secret, "ca.key"@) == Some(ca.private_key_pem@));
}

proof fn lemma_annotation_names()
    ensures
        "rustqueue.io/ca-revision"@ != "rustqueue.io/tls-revision"@,
        "rustqueue.io/ca-revision"@ != "rustqueue.io/certificate-not-after"@,
        "rustqueue.io/tls-revision"@ != "rustqueue.io/certificate-not-after"@,
{
    reveal_strlit("rustqueue.io/ca-revision");
    reveal_strlit("rustqueue.io/tls-revision");
    reveal_strlit("rustqueue.io/certificate-not-after");
    assert("rustqueue.io/ca-revision"@.len() == 24);
    assert("rustqueue.io/tls-revision"@.len() == 25);
    assert("rustqueue.io/certificate-not-after"@.len() == 34);
}

/// A certificate is kept exactly where it was signed by the authority in use, outlasts the time
/// at which it would be renewed, and its revision is known.
pub proof fn law_certificates_are_kept_until_renewal(
    secret: Secret,
    ca_revision: u64,
    renew_at: i64,
)
    ensures
        ({
            let a = secret.annotations@;
            let until = string_map::lookup(a, "rustqueue.io/certificate-not-after"@);
            let revision = kube::number_under(a, "rustqueue.io/tls-revision"@);
            let good = kube::number_under(a, "rustqueue.io/ca-revision"@) == Some(ca_revision)
                && until is Some && text::parsed_signed(until->0) is Some && text::parsed_signed(
                until->0,
            )->0 > renew_at;
            &&& good ==> leaf_kept(Some(secret), ca_revision, renew_at) == revision
            &&& !good ==> leaf_kept(Some(secret), ca_revision, renew_at) is None
            &&& leaf_kept(None, ca_revision, renew_at) is None
        }),
{
}

/// A broker answers to its pod name, alone and behind each part of its address.
pub proof fn law_certificates_name_the_broker(broker: BrokerView, namespace: Seq<char>)
    ensures
        ({
            let n = leaf_names(broker, namespace);
            let host = broker.pod_name + "."@ + broker.headless_service;
            &&& n.len() == 4
            &&& n.contains(broker.pod_name)
            &&& n.contains(host)
            &&& n.contains(host + "."@ + namespace + ".svc"@)
            &&& n.contains(host + "."@ + namespace + ".svc.cluster.local"@)
        }),
{
    let n = leaf_names(broker, namespace);
    assert(n[0] == broker.pod_name);
    assert(n[1] == broker.pod_name + "."@ + broker.headless_service);
    assert(n[2] == broker.pod_name + "."@ + broker.headless_service + "."@ + namespace + ".svc"@);
    assert(n[3] == broker.pod_name + "."@ + broker.headless_service + "."@ + namespace
        + ".svc.cluster.local"@);
}

/// An authority that is there is used while it lasts, and is never replaced.
pub proof fn law_expired_authorities_are_not_used(
    secret: Secret,
    cluster: Seq<char>,
    policy: SecurityPolicy,
    now: i64,
    found: Result<(CaMaterial, Option<SecretDraft>), SecurityError>,
)
    requires
        ca_ensured(Some(&secret), cluster, policy, now, found),
    ensures
        found is Ok ==> (found->Ok_0).1 is None && (found->Ok_0).0.not_after_unix > now
            && text_under(secret, "ca.crt"@) == Some((found->Ok_0).0.certificate_pem@)
            && text_under(secret, "ca.key"@) == Some((found->Ok_0).0.private_key_pem@),
        found is Ok ==> pki::loaded(
            (found->Ok_0).0.certificate_pem@,
            (found->Ok_0).0.private_key_pem@,
        ) == Ok::<i64, pki::PkiErrorView>((found->Ok_0).0.not_after_unix),
{
}

/// What is written for a certificate, an authority or the shared tokens can be read back under
/// its key.
pub proof fn law_drafts_hold_what_they_are_for(
    cluster: Seq<char>,
    broker: BrokerView,
    ca: CaMaterial,
    leaf: LeafMaterial,
    admin: Seq<char>,
    discovery: Seq<char>,
)
    ensures
        string_map::lookup(leaf_secret(broker, ca, leaf).data, "tls.crt"@) == Some(
            leaf.certificate_pem@,
        ),
        string_map::lookup(leaf_secret(broker, ca, leaf).data, "tls.key"@) == Some(
            leaf.private_key_pem@,
        ),
        leaf_secret(broker, ca, leaf).name == broker.tls_secret,
        string_map::lookup(ca_secret(cluster, ca).data, "ca.crt"@) == Some(ca.certificate_pem@),
        string_map::lookup(ca_secret(cluster, ca).data, "ca.key"@) == Some(ca.private_key_pem@),
        ca_secret(cluster, ca).name == cluster + "-ca"@,
        string_map::lookup(shared_secret(cluster, ca, admin, discovery).data, "ca.crt"@) == Some(
            ca.certificate_pem@,
        ),
        string_map::lookup(shared_secret(cluster, ca, admin, discovery).data, "admin.token"@)
            == Some(admin),
        string_map::lookup(shared_secret(cluster, ca, admin, discovery).data, "discovery.token"@)
            == Some(discovery),
        string_map::lookup(shared_secret(cluster, ca, admin, discovery).data, "ca.key"@) is None,
        shared_secret(cluster, ca, admin, discovery).name == cluster + "-shared"@,
{
    reveal_strlit("tls.crt");
    reveal_strlit("tls.key");
    reveal_strlit("ca.crt");
    reveal_strlit("ca.key");
    reveal_strlit("admin.token");
    reveal_strlit("discovery.token");
    assert("tls.crt"@[4] == 'c' && "tls.key"@[4] == 'k' && "ca.crt"@[3] == 'c' && "ca.key"@[3]
        == 'k' && "ca.crt"@.len() == 6 && "ca.key"@.len() == 6);
    assert("admin.token"@.len() == 11 && "discovery.token"@.len() == 15);
    let a = string_map::put(nothing(), "tls.crt"@, leaf.certificate_pem@);
    string_map::lemma_put(nothing(), "tls.crt"@, leaf.certificate_pem@);
    string_map::lemma_put(a, "tls.key"@, leaf.private_key_pem@);
    let b = string_map::put(nothing(), "ca.crt"@, ca.certificate_pem@);
    string_map::lemma_put(nothing(), "ca.crt"@, ca.certificate_pem@);
    string_map::lemma_put(b, "ca.key"@, ca.private_key_pem@);
    let c = string_map::put(b, "admin.token"@, admin);
    string_map::lemma_put(b, "admin.token"@, admin);
    string_map::lemma_put(c, "discovery.token"@, discovery);
}

/// A leaf that is kept is written no more, and one that is not kept is never
/// left as it was: a new one is written, or the fault is told.
pub proof fn law_leaves_are_kept_or_written(
    existing: &Option<Secret>,
    namespace: &str,
    broker: &BrokerPlan,
    ca: &CaMaterial,
    policy: &SecurityPolicy,
    now: i64,
    r: Result<(u64, Option<SecretDraft>), PkiError>,
)
    requires
        call_ensures(ensure_leaf_at, (existing, namespace, broker, ca, policy, now), r),
    ensures
        ({
            let kept = leaf_kept(
                *existing,
                ca.revision,
                pki::days_later(now, policy.renew_before_days as int),
            );
            &&& kept is Some ==> r is Ok && r->Ok_0.0 == kept->0 && r->Ok_0.1 is None
            &&& kept is None && r is Ok ==> r->Ok_0.1 is Some
            &&& existing is None && r is Ok ==> r->Ok_0.1 is Some
        }),
{
}

} // verus!
