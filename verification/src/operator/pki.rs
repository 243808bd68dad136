//! The certificates of a cluster: its authority and the leaves it signs.
use crate::digest;
use crate::operator::status;
use crate::text;
use crate::wire;
use rand::RngCore;
use rcgen::BasicConstraints::{Constrained, Unconstrained};
use rcgen::DnType::{CommonName, OrganizationName};
use rcgen::ExtendedKeyUsagePurpose::{ClientAuth, ServerAuth};
use rcgen::KeyUsagePurpose::{CrlSign, DigitalSignature, KeyCertSign, KeyEncipherment};
use rcgen::{CertificateParams, DistinguishedName, IsCa, Issuer, KeyPair, PublicKeyData};
use time::{Duration, OffsetDateTime};
use vstd::prelude::*;
use vstd::string::*;
use vstd::utf8::*;
use x509_parser::prelude::{FromDer, X509Certificate};
use x509_parser::x509::{AttributeTypeAndValue, SubjectPublicKeyInfo};

verus! {

/// The certificate authority of a cluster.
#[derive(Clone, Debug, PartialEq, Eq)]
pub struct CaMaterial {
    pub certificate_pem: String,
    pub private_key_pem: String,
    pub revision: u64,
    pub not_after_unix: i64,
}

/// The certificate of a broker.
#[derive(Clone, Debug, PartialEq, Eq)]
pub struct LeafMaterial {
    pub certificate_pem: String,
    pub private_key_pem: String,
    pub revision: u64,
    pub not_after_unix: i64,
}

/// Why certificate material is refused or cannot be made.
#[derive(Clone, Debug, PartialEq, Eq)]
pub enum PkiError {
    /// The private key does not parse.
    PrivateKey,
    /// The certificate is not PEM, with the reason.
    Pem(String),
    /// The certificate does not parse, with the reason.
    Certificate(String),
    /// The certificate does not belong to the private key.
    Mismatch,
    /// The certificate cannot be used to issue others.
    Issuer,
    /// A certificate cannot say when it is valid.
    Validity,
    /// Signing failed, with the reason.
    Signing(String),
}

/// `PkiError` with its texts.
pub enum PkiErrorView {
    PrivateKey,
    Pem(Seq<char>),
    Certificate(Seq<char>),
    Mismatch,
    Issuer,
    Validity,
    Signing(Seq<char>),
}

impl View for PkiError {
    type V = PkiErrorView;

    open spec fn view(&self) -> PkiErrorView {
        match self {
            PkiError::PrivateKey => PkiErrorView::PrivateKey,
            PkiError::Pem(reason) => PkiErrorView::Pem(reason@),
            PkiError::Certificate(reason) => PkiErrorView::Certificate(reason@),
            PkiError::Mismatch => PkiErrorView::Mismatch,
            PkiError::Issuer => PkiErrorView::Issuer,
            PkiError::Validity => PkiErrorView::Validity,
            PkiError::Signing(reason) => PkiErrorView::Signing(reason@),
        }
    }
}

/// What an error says.
pub open spec fn said(e: PkiErrorView) -> Seq<char> {
    match e {
        PkiErrorView::PrivateKey => "parse cluster CA private key"@,
        PkiErrorView::Pem(reason) => "parse cluster CA PEM: "@ + reason,
        PkiErrorView::Certificate(reason) => "parse cluster CA certificate: "@ + reason,
        PkiErrorView::Mismatch => "cluster CA certificate and private key do not match"@,
        PkiErrorView::Issuer => "validate cluster CA certificate"@,
        PkiErrorView::Validity => "certificate validity is out of range"@,
        PkiErrorView::Signing(reason) => reason,
    }
}

impl PkiError {
    /// What the error says.
    pub fn message(&self) -> (r: String)
        ensures
            r@ == said(self@),
    {
        match self {
            PkiError::PrivateKey => "parse cluster CA private key".to_owned(),
            PkiError::Pem(reason) => {
                let mut r = "parse cluster CA PEM: ".to_owned();
                r.append(reason.as_str());
                r
            },
            PkiError::Certificate(reason) => {
                let mut r = "parse cluster CA certificate: ".to_owned();
                r.append(reason.as_str());
                r
            },
            PkiError::Mismatch => "cluster CA certificate and private key do not match".to_owned(),
            PkiError::Issuer => "validate cluster CA certificate".to_owned(),
            PkiError::Validity => "certificate validity is out of range".to_owned(),
            PkiError::Signing(reason) => reason.clone(),
        }
    }
}

/// A certificate with its private key, both in PEM notation.
pub struct SignedPair {
    pub certificate_pem: String,
    pub private_key_pem: String,
}

/// What the key of an authority may be used for.
#[derive(Clone, Copy, Debug, PartialEq, Eq, Structural)]
pub enum AuthorityUsage {
    KeyCertSign,
    CrlSign,
    DigitalSignature,
}

/// What the key of a leaf may be used for.
#[derive(Clone, Copy, Debug, PartialEq, Eq, Structural)]
pub enum LeafUsage {
    DigitalSignature,
    KeyEncipherment,
}

/// Which end of a connection a leaf stands for.
#[derive(Clone, Copy, Debug, PartialEq, Eq, Structural)]
pub enum LeafPurpose {
    Server,
    Client,
}

/// An authority to be signed: whom it names, the times between which it is valid, in seconds
/// since the epoch, how many authorities may stand below it, and what its key is for.
#[derive(Debug)]
pub struct AuthorityRequest {
    pub organization: String,
    pub common_name: String,
    pub not_before: i64,
    pub not_after: i64,
    pub path_length: Option<u8>,
    pub usages: [AuthorityUsage; 3],
}

/// A leaf to be signed: whom it names, the times between which it is valid, in seconds since
/// the epoch, and what it is for.
#[derive(Debug)]
pub struct LeafRequest {
    pub organization: String,
    pub common_name: String,
    pub dns_names: Vec<String>,
    pub not_before: i64,
    pub not_after: i64,
    pub usages: [LeafUsage; 2],
    pub purposes: [LeafPurpose; 2],
}

/// Whether a certificate can say a time: one of the years 0 to 9999.
pub open spec fn is_expressible(t: i64) -> bool {
    -62_167_219_200 <= t <= 253_402_300_799
}

/// Whether a certificate can say a time.
fn expressible(t: i64) -> (r: bool)
    ensures
        r == is_expressible(t),
{
    -62_167_219_200 <= t && t <= 253_402_300_799
}

/// `rcgen::Error`, what making a certificate fails with.
#[verifier::external_type_specification]
#[verifier::external_body]
pub struct ExRcgenError(rcgen::Error);

/// Makes a key with `rcgen::KeyPair::generate` and writes it with `serialize_pem`. The key is
/// random, so which one comes out is left open; it reads back.
#[verifier::external_body]
fn make_key() -> (r: Result<String, rcgen::Error>)
    ensures
        r matches Ok(key) ==> key_public_info(key@) is Some,
{
    KeyPair::generate().map(|key| key.serialize_pem())
}

/// Why DNS names cannot stand in a certificate.
pub uninterp spec fn dns_names_fault(names: Seq<Seq<char>>) -> Option<Seq<char>>;

/// Why `rcgen::CertificateParams::new` refuses some DNS names, in the words of its error.
#[verifier::external_body]
fn fault_of_dns_names(names: Vec<String>) -> (r: Option<String>)
    ensures
        text::opt_text(r) == dns_names_fault(text::texts(names@)),
{
    CertificateParams::new(names).err().map(|e| e.to_string())
}

/// Signs a certificate authority with its own key by `CertificateParams::self_signed`. Where
/// that succeeds, and the names are not of enormous size, the certificate reads back: it is
/// an authority with the key, the name, the usages and the times that were asked for, signed
/// with its key, and issues with the key. Which bits the signature has is left open. A time
/// that a certificate cannot say panics and is left out.
#[verifier::external_body]
fn sign_authority(key_pem: &str, request: AuthorityRequest) -> (r: Result<String, rcgen::Error>)
    requires
        is_expressible(request.not_before),
        is_expressible(request.not_after),
    ensures
        r matches Ok(c) ==> sized(request.organization@, request.common_name@, Seq::empty())
            ==> authority_reads(
            c@,
            key_pem@,
            request.organization@,
            request.common_name@,
            request.not_after,
            request.usages@,
        ) && begins(c@, request.not_before),
{
    let mut p = CertificateParams::new(Vec::new())?;
    p.distinguished_name = DistinguishedName::new();
    p.distinguished_name.push(OrganizationName, request.organization);
    p.distinguished_name.push(CommonName, request.common_name);
    p.not_before = OffsetDateTime::UNIX_EPOCH + Duration::seconds(request.not_before);
    p.not_after = OffsetDateTime::UNIX_EPOCH + Duration::seconds(request.not_after);
    p.is_ca = IsCa::Ca(match request.path_length { None => Unconstrained, Some(n) => Constrained(n) });
    p.key_usages = request.usages.map(|u| match u { AuthorityUsage::KeyCertSign => KeyCertSign,
        AuthorityUsage::CrlSign => CrlSign, AuthorityUsage::DigitalSignature => DigitalSignature,
    }).into();
    Ok(p.self_signed(&KeyPair::from_pem(key_pem)?)?.pem())
}

/// Signs a leaf with the authority by `CertificateParams::signed_by`; the authority is read
/// by `Issuer::from_ca_cert_pem` and `KeyPair::from_pem`. Where that succeeds, and neither the
/// names nor the authority are of enormous size, the leaf reads back: it is no authority, has
/// the key, the name, the DNS names, the usages, the purposes and the times that were asked
/// for, is signed with the authority's key and names the authority as its issuer. Which bits
/// the signature has is left open, and so is the issuer of an authority that is named
/// otherwise than by an organization and a common name. A time that a certificate cannot say
/// panics, and so does an authority with a name that can be read but not written; both are
/// left out.
#[verifier::external_body]
fn sign_leaf(authority: &str, authority_key: &str, key_pem: &str, request: LeafRequest) -> (r:
    Result<String, rcgen::Error>)
    requires
        is_expressible(request.not_before),
        is_expressible(request.not_after),
        authority_subject(authority@) matches Some(subject) ==> is_writable(subject),
    ensures
        r matches Ok(c) ==> authority@.len() <= 0x1000_0000 && sized(
            request.organization@,
            request.common_name@,
            text::texts(request.dns_names@),
        ) ==> leaf_reads(
            c@,
            key_pem@,
            request.organization@,
            request.common_name@,
            text::texts(request.dns_names@),
            request.not_after,
            request.usages@,
            request.purposes@,
        ) && begins(c@, request.not_before) && is_signed(c@, authority_key@) && names_issuer(
            c@,
            authority@,
        ),
{
    let mut p = CertificateParams::new(request.dns_names)?;
    p.distinguished_name = DistinguishedName::new();
    p.distinguished_name.push(OrganizationName, request.organization);
    p.distinguished_name.push(CommonName, request.common_name);
    p.not_before = OffsetDateTime::UNIX_EPOCH + Duration::seconds(request.not_before);
    p.not_after = OffsetDateTime::UNIX_EPOCH + Duration::seconds(request.not_after);
    p.key_usages = request.usages.map(|u| match u { LeafUsage::DigitalSignature => DigitalSignature,
        LeafUsage::KeyEncipherment => KeyEncipherment }).into();
    p.extended_key_usages = request.purposes.map(|u| match u { LeafPurpose::Server => ServerAuth,
        LeafPurpose::Client => ClientAuth }).into();
    let issuer = Issuer::from_ca_cert_pem(authority, KeyPair::from_pem(authority_key)?)?;
    Ok(p.signed_by(&KeyPair::from_pem(key_pem)?, &issuer)?.pem())
}

/// The public key, in DER notation, of a private key in PEM notation.
pub uninterp spec fn key_public_info(private_key_pem: Seq<char>) -> Option<Seq<u8>>;

/// Reads a private key with `rcgen::KeyPair::from_pem` and gives its
/// `subject_public_key_info`, or `None` where it does not parse.
#[verifier::external_body]
fn public_info_of_key(private_key_pem: &str) -> (r: Option<Vec<u8>>)
    ensures
        opt_bytes(r) == key_public_info(private_key_pem@),
{
    KeyPair::from_pem(private_key_pem).ok().map(|k| k.subject_public_key_info())
}

/// The contents of the first PEM block of a text, or why there are none.
pub uninterp spec fn pem_contents(pem: Seq<char>) -> Result<Seq<u8>, Seq<char>>;

/// Reads a PEM block with `x509_parser::pem::parse_x509_pem` and gives its
/// contents, or the words of the error.
#[verifier::external_body]
fn contents_of_pem(pem: &str) -> (r: Result<Vec<u8>, String>)
    ensures
        (match r {
            Ok(contents) => Ok(contents@),
            Err(reason) => Err(reason@),
        }) == pem_contents(pem@),
{
    x509_parser::pem::parse_x509_pem(pem.as_bytes()).map(|p| p.1.contents).map_err(
        |e| e.to_string(),
    )
}

/// The contents of the first PEM block of a text, as `pem` reads it.
pub uninterp spec fn pem_block(pem: Seq<char>) -> Option<Seq<u8>>;

/// Reads a PEM block with `pem::parse`, as rcgen does, and gives its contents, or `None` where
/// there is none.
#[verifier::external_body]
fn block_of_pem(pem: &str) -> (r: Option<Vec<u8>>)
    ensures
        opt_bytes(r) == pem_block(pem@),
{
    pem::parse(pem).ok().map(|p| p.into_contents())
}

/// What a certificate says: its public key, in DER notation, the times between which it is
/// valid, whether it is an authority, what its key may be used for, a bit for each use, whether
/// it stands for servers and for clients, and its alternative names as they are shown.
pub struct CertificateFacts {
    pub key: Vec<u8>,
    pub not_before: i64,
    pub not_after: i64,
    pub is_ca: bool,
    pub usages: Option<u16>,
    pub purposes: Option<(bool, bool)>,
    pub alternatives: Vec<String>,
}

/// `CertificateFacts` as values.
#[verifier::ext_equal]
pub struct FactsView {
    pub key: Seq<u8>,
    pub not_before: i64,
    pub not_after: i64,
    pub is_ca: bool,
    pub usages: Option<u16>,
    pub purposes: Option<(bool, bool)>,
    pub alternatives: Seq<Seq<char>>,
}

impl View for CertificateFacts {
    type V = FactsView;

    open spec fn view(&self) -> FactsView {
        FactsView {
            key: self.key@,
            not_before: self.not_before,
            not_after: self.not_after,
            is_ca: self.is_ca,
            usages: self.usages,
            purposes: self.purposes,
            alternatives: text::texts(self.alternatives@),
        }
    }
}

/// What a certificate in DER notation says, or why it does not parse.
pub uninterp spec fn certificate_facts(der: Seq<u8>) -> Result<FactsView, Seq<char>>;

/// Reads a certificate with `X509Certificate::from_der` and gives its raw public
/// key, the timestamps of its validity, whether it is an authority, the flags of its key
/// usage, two of its extended key usages and its subject alternative names, each as its
/// `Display` shows it, or the words of the error.
#[verifier::external_body]
fn facts_of_certificate(der: &[u8]) -> (r: Result<CertificateFacts, String>)
    ensures
        (match r {
            Ok(facts) => Ok(facts@),
            Err(reason) => Err(reason@),
        }) == certificate_facts(der@),
{
    let (_, c) = X509Certificate::from_der(der).map_err(|e| e.to_string())?;
    let names = c.subject_alternative_name().ok().flatten().map(|n| &n.value.general_names);
    Ok(CertificateFacts {
        key: c.public_key().raw.to_vec(),
        not_before: c.validity().not_before.timestamp(),
        not_after: c.validity().not_after.timestamp(),
        is_ca: c.is_ca(),
        usages: c.key_usage().ok().flatten().map(|u| u.value.flags),
        purposes: c.extended_key_usage().ok().flatten().map(
            |p| (p.value.server_auth, p.value.client_auth)),
        alternatives: names.into_iter().flatten().map(ToString::to_string).collect(),
    })
}

/// A part of a name in a certificate: its type, in DER notation, the tag of its value and the
/// bytes of its value.
pub struct NamePart {
    pub kind: Vec<u8>,
    pub tag: u32,
    pub value: Vec<u8>,
}

/// The view of the parts of a name.
pub open spec fn part_views(parts: Seq<NamePart>) -> Seq<(Seq<u8>, u32, Seq<u8>)> {
    parts.map_values(|p: NamePart| (p.kind@, p.tag, p.value@))
}

/// The names in a certificate: its own, and that of its issuer.
pub struct CertificateNames {
    pub subject: Vec<NamePart>,
    pub issuer: Vec<NamePart>,
}

/// The parts of the name of a certificate in DER notation, and those of the name of its issuer.
pub uninterp spec fn certificate_names(der: Seq<u8>) -> Option<
    (Seq<(Seq<u8>, u32, Seq<u8>)>, Seq<(Seq<u8>, u32, Seq<u8>)>),
>;

/// Reads a certificate with `X509Certificate::from_der` and gives the attributes of its
/// `subject` and of its `issuer`, or `None` where it does not parse.
#[verifier::external_body]
fn names_of_certificate(der: &[u8]) -> (r: Option<CertificateNames>)
    ensures
        (match r {
            Some(names) => Some((part_views(names.subject@), part_views(names.issuer@))),
            None => None,
        }) == certificate_names(der@),
{
    let (_, c) = X509Certificate::from_der(der).ok()?;
    let part = |a: &AttributeTypeAndValue| NamePart {
        kind: a.attr_type().as_bytes().to_vec(),
        tag: a.attr_value().tag().0,
        value: a.as_slice().to_vec(),
    };
    Some(CertificateNames {
        subject: c.subject().iter_attributes().map(part).collect(),
        issuer: c.issuer().iter_attributes().map(part).collect(),
    })
}

/// The parts of the name of an authority in PEM notation, as its signer reads it.
pub open spec fn authority_subject(certificate_pem: Seq<char>) -> Option<
    Seq<(Seq<u8>, u32, Seq<u8>)>,
> {
    match pem_block(certificate_pem) {
        Some(der) => match certificate_names(der) {
            Some(names) => Some(names.0),
            None => None,
        },
        None => None,
    }
}

/// Whether a public key, both in DER notation, proves the signature of a certificate.
pub uninterp spec fn signature_holds(certificate: Seq<u8>, public_key: Seq<u8>) -> bool;

/// Checks the signature of a certificate with `X509Certificate::verify_signature`. It does not
/// hold where the certificate or the key does not parse.
#[verifier::external_body]
fn holds_signature(certificate: &[u8], public_key: &[u8]) -> (r: bool)
    ensures
        r == signature_holds(certificate@, public_key@),
{
    let key = SubjectPublicKeyInfo::from_der(public_key);
    let c = X509Certificate::from_der(certificate);
    c.is_ok_and(|c| key.is_ok_and(|k| c.1.verify_signature(Some(&k.1)).is_ok()))
}

/// Whether a certificate is signed with the private key of an authority.
pub open spec fn is_signed(certificate_pem: Seq<char>, authority_key_pem: Seq<char>) -> bool {
    &&& pem_contents(certificate_pem) matches Ok(der)
    &&& key_public_info(authority_key_pem) matches Some(info)
    &&& signature_holds(der, info)
}

/// Whether a certificate is signed with the private key of an authority.
pub fn signed_with(certificate_pem: &str, authority_key_pem: &str) -> (r: bool)
    ensures
        r == is_signed(certificate_pem@, authority_key_pem@),
{
    match (contents_of_pem(certificate_pem), public_info_of_key(authority_key_pem)) {
        (Ok(der), Some(info)) => holds_signature(der.as_slice(), info.as_slice()),
        _ => false,
    }
}

/// Whether a certificate and a private key make an issuer.
pub uninterp spec fn makes_issuer(certificate_pem: Seq<char>, private_key_pem: Seq<char>) -> bool;

/// Whether `rcgen::Issuer::from_ca_cert_pem` accepts the certificate with the
/// private key, and the key parses.
#[verifier::external_body]
fn accepts_issuer(certificate_pem: &str, private_key_pem: &str) -> (r: bool)
    ensures
        r == makes_issuer(certificate_pem@, private_key_pem@),
{
    let key = KeyPair::from_pem(private_key_pem);
    key.is_ok_and(|k| Issuer::from_ca_cert_pem(certificate_pem, k).is_ok())
}

/// Whether names are not of enormous size.
pub open spec fn sized(
    organization: Seq<char>,
    common_name: Seq<char>,
    dns_names: Seq<Seq<char>>,
) -> bool {
    &&& organization.len() <= 65_536
    &&& common_name.len() <= 65_536
    &&& dns_names.len() <= 4_096
    &&& forall|i: int| 0 <= i < dns_names.len() ==> (#[trigger] dns_names[i]).len() <= 65_536
}

/// The name of a certificate: an organization and a common name, both as UTF-8 texts.
pub open spec fn subject_named(organization: Seq<char>, common_name: Seq<char>) -> Seq<
    (Seq<u8>, u32, Seq<u8>),
> {
    seq![
        (seq![85u8, 4u8, 10u8], 12u32, encode_utf8(organization)),
        (seq![85u8, 4u8, 3u8], 12u32, encode_utf8(common_name)),
    ]
}

/// The bits of the uses of an authority's key, as a certificate counts them.
pub open spec fn authority_bits(usages: Seq<AuthorityUsage>) -> u16 {
    ((if usages.contains(AuthorityUsage::DigitalSignature) {
        1int
    } else {
        0
    }) + (if usages.contains(AuthorityUsage::KeyCertSign) {
        32int
    } else {
        0
    }) + (if usages.contains(AuthorityUsage::CrlSign) {
        64int
    } else {
        0
    })) as u16
}

/// The bits of the uses of a leaf's key, as a certificate counts them.
pub open spec fn leaf_bits(usages: Seq<LeafUsage>) -> u16 {
    ((if usages.contains(LeafUsage::DigitalSignature) {
        1int
    } else {
        0
    }) + (if usages.contains(LeafUsage::KeyEncipherment) {
        4int
    } else {
        0
    })) as u16
}

/// Whether a certificate is an authority with this key, name, end and these usages, signed with
/// the key, and issues with the key.
pub open spec fn authority_reads(
    certificate_pem: Seq<char>,
    private_key_pem: Seq<char>,
    organization: Seq<char>,
    common_name: Seq<char>,
    not_after: i64,
    usages: Seq<AuthorityUsage>,
) -> bool {
    &&& pem_contents(certificate_pem) matches Ok(der)
    &&& pem_block(certificate_pem) == Some(der)
    &&& certificate_facts(der) matches Ok(facts)
    &&& key_public_info(private_key_pem) == Some(facts.key)
    &&& facts.not_after == not_after
    &&& facts.is_ca
    &&& facts.usages == Some(authority_bits(usages))
    &&& certificate_names(der) == Some(
        (subject_named(organization, common_name), subject_named(organization, common_name)),
    )
    &&& makes_issuer(certificate_pem, private_key_pem)
    &&& is_signed(certificate_pem, private_key_pem)
}

/// Whether a certificate is valid from a time on.
pub open spec fn begins(certificate_pem: Seq<char>, not_before: i64) -> bool {
    &&& pem_contents(certificate_pem) matches Ok(der)
    &&& certificate_facts(der) matches Ok(facts)
    &&& facts.not_before == not_before
}

/// Whether a name is that of an organization and a common name, both as UTF-8 texts.
pub open spec fn is_organization_and_name(parts: Seq<(Seq<u8>, u32, Seq<u8>)>) -> bool {
    &&& parts.len() == 2
    &&& parts[0].0 == seq![85u8, 4u8, 10u8]
    &&& parts[0].1 == 12
    &&& parts[1].0 == seq![85u8, 4u8, 3u8]
    &&& parts[1].1 == 12
}

/// Whether a certificate names an authority as its issuer, where the authority is named by an
/// organization and a common name.
pub open spec fn names_issuer(certificate_pem: Seq<char>, authority_pem: Seq<char>) -> bool {
    authority_subject(authority_pem) matches Some(subject) ==> is_organization_and_name(subject)
        ==> {
        &&& pem_contents(certificate_pem) matches Ok(der)
        &&& certificate_names(der) matches Some(names)
        &&& names.1 == subject
    }
}

/// Whether a DNS name cannot be taken for an IP address: it has a character that no IP address
/// has.
pub open spec fn is_host_name(name: Seq<char>) -> bool {
    exists|i: int|
        0 <= i < name.len() && !('0' <= #[trigger] name[i] <= '9') && !('a' <= name[i] <= 'f')
            && !('A' <= name[i] <= 'F') && name[i] != ':' && name[i] != '.'
}

/// Whether a certificate is a leaf with this key, name and end, and these alternative names,
/// usages and purposes.
pub open spec fn leaf_reads(
    certificate_pem: Seq<char>,
    private_key_pem: Seq<char>,
    organization: Seq<char>,
    common_name: Seq<char>,
    dns_names: Seq<Seq<char>>,
    not_after: i64,
    usages: Seq<LeafUsage>,
    purposes: Seq<LeafPurpose>,
) -> bool {
    &&& pem_contents(certificate_pem) matches Ok(der)
    &&& certificate_facts(der) matches Ok(facts)
    &&& key_public_info(private_key_pem) == Some(facts.key)
    &&& facts.not_after == not_after
    &&& !facts.is_ca
    &&& facts.usages == Some(leaf_bits(usages))
    &&& facts.purposes == Some(
        (purposes.contains(LeafPurpose::Server), purposes.contains(LeafPurpose::Client)),
    )
    &&& certificate_names(der) matches Some(names)
    &&& names.0 == subject_named(organization, common_name)
    &&& facts.alternatives.len() == dns_names.len()
    &&& forall|i: int|
        0 <= i < dns_names.len() && is_host_name(#[trigger] dns_names[i])
            ==> facts.alternatives[i] == "DNSName("@ + dns_names[i] + ")"@
}

/// Whether a part of a name can be written: its type begins with two numbers of an object
/// identifier, and a printable string has no question mark.
pub open spec fn is_part_writable(part: (Seq<u8>, u32, Seq<u8>)) -> bool {
    &&& part.0.len() > 0
    &&& part.0[0] < 120
    &&& !(part.0.len() == 1 && part.0[0] == 0)
    &&& part.1 == 19 ==> !part.2.contains(63u8)
}

/// Whether a name can be written.
pub open spec fn is_writable(parts: Seq<(Seq<u8>, u32, Seq<u8>)>) -> bool {
    forall|i: int| 0 <= i < parts.len() ==> is_part_writable(#[trigger] parts[i])
}

fn part_writable(part: &NamePart) -> (r: bool)
    ensures
        r == is_part_writable((part.kind@, part.tag, part.value@)),
{
    if part.kind.len() == 0 || part.kind[0] >= 120 || (part.kind.len() == 1 && part.kind[0] == 0) {
        return false;
    }
    if part.tag != 19 {
        return true;
    }
    let mut i: usize = 0;
    while i < part.value.len()
        invariant
            i <= part.value@.len(),
            part.tag == 19,
            forall|j: int| 0 <= j < i ==> part.value@[j] != 63u8,
        decreases part.value@.len() - i,
    {
        if part.value[i] == 63u8 {
            assert(part.value@.contains(63u8));
            return false;
        }
        i += 1;
    }
    true
}

fn writable(parts: &Vec<NamePart>) -> (r: bool)
    ensures
        r == is_writable(part_views(parts@)),
{
    let mut i: usize = 0;
    while i < parts.len()
        invariant
            i <= parts@.len(),
            forall|j: int| 0 <= j < i ==> is_part_writable(#[trigger] part_views(parts@)[j]),
        decreases parts@.len() - i,
    {
        assert(part_views(parts@)[i as int] == (
            parts@[i as int].kind@,
            parts@[i as int].tag,
            parts@[i as int].value@,
        ));
        if !part_writable(&parts[i]) {
            return false;
        }
        i += 1;
    }
    true
}

/// Random bytes, by `rand::thread_rng` and its `fill_bytes`.
#[verifier::external_body]
fn random_bytes(bytes: usize) -> (r: Vec<u8>)
    requires
        bytes <= isize::MAX,
    ensures
        r@.len() == bytes,
{
    let mut value = vec![0_u8; bytes];
    rand::thread_rng().fill_bytes(&mut value);
    value
}

/// The view of optional bytes.
pub open spec fn opt_bytes(o: Option<Vec<u8>>) -> Option<Seq<u8>> {
    match o {
        Some(v) => Some(v@),
        None => None,
    }
}

/// Parts behind each other.
pub open spec fn concatenated(parts: Seq<&[u8]>) -> Seq<u8>
    decreases parts.len(),
{
    if parts.len() == 0 {
        Seq::empty()
    } else {
        concatenated(parts.drop_last()) + parts.last()@
    }
}

/// The revision of content: the first eight bytes of its SHA-256 digest.
pub open spec fn content_revision(content: Seq<u8>) -> u64 {
    digest::digest_number(digest::sha256(content))
}

/// The revision of the parts of a content.
pub fn revision(parts: &[&[u8]]) -> (r: u64)
    ensures
        r == content_revision(concatenated(parts@)),
{
    let mut content: Vec<u8> = Vec::new();
    let mut i: usize = 0;
    assert(parts@.take(0) =~= Seq::<&[u8]>::empty());
    while i < parts.len()
        invariant
            i <= parts@.len(),
            content@ == concatenated(parts@.take(i as int)),
        decreases parts@.len() - i,
    {
        assert(parts@.take(i + 1).drop_last() =~= parts@.take(i as int));
        assert(parts@.take(i + 1).last() == parts@[i as int]);
        wire::push_all(&mut content, parts[i]);
        i += 1;
    }
    assert(parts@.take(parts@.len() as int) =~= parts@);
    let sum = digest::sha256_of(content.as_slice());
    digest::number_of(sum.as_slice())
}

/// The revision of one text.
fn text_revision(a: &str) -> (r: u64)
    ensures
        r == content_revision(encode_utf8(a@)),
{
    let sum = digest::sha256_of(a.as_bytes());
    digest::number_of(sum.as_slice())
}

/// The revision of two texts behind each other.
fn pair_revision(a: &str, b: &str) -> (r: u64)
    ensures
        r == content_revision(encode_utf8(a@) + encode_utf8(b@)),
{
    let mut content: Vec<u8> = Vec::new();
    wire::push_all(&mut content, a.as_bytes());
    wire::push_all(&mut content, b.as_bytes());
    assert(content@ =~= encode_utf8(a@) + encode_utf8(b@));
    let sum = digest::sha256_of(content.as_slice());
    digest::number_of(sum.as_slice())
}

/// A time some days later, at most the last one.
pub open spec fn days_later(now: i64, days: int) -> i64 {
    let t = now + days * 86_400;
    if t > i64::MAX {
        i64::MAX
    } else if t < i64::MIN {
        i64::MIN
    } else {
        t as i64
    }
}

/// A time some days later.
pub fn add_days(now: i64, days: i64) -> (r: i64)
    ensures
        r == days_later(now, days as int),
{
    let t: i128 = (now as i128) + (days as i128) * 86_400i128;
    if t > i64::MAX as i128 {
        i64::MAX
    } else if t < i64::MIN as i128 {
        i64::MIN
    } else {
        t as i64
    }
}

/// What the key of an authority is for: signing certificates and lists of revoked ones.
pub open spec fn authority_usages() -> Seq<AuthorityUsage> {
    seq![AuthorityUsage::KeyCertSign, AuthorityUsage::CrlSign, AuthorityUsage::DigitalSignature]
}

/// What the key of a leaf is for: connections.
pub open spec fn leaf_usages() -> Seq<LeafUsage> {
    seq![LeafUsage::DigitalSignature, LeafUsage::KeyEncipherment]
}

/// Leaves stand for servers and for clients.
pub open spec fn leaf_purposes() -> Seq<LeafPurpose> {
    seq![LeafPurpose::Server, LeafPurpose::Client]
}

/// What is signed for the authority of a name at a time: valid from the day before on for some
/// days from then, with any number of authorities below it.
pub fn authority_request(common_name: &str, validity_days: u32, now: i64) -> (r: AuthorityRequest)
    ensures
        r.organization@ == "RustQueue"@,
        r.common_name@ == common_name@,
        r.not_before == days_later(now, -1),
        r.not_after == days_later(now, validity_days as int),
        r.path_length is None,
        r.usages@ == authority_usages(),
{
    AuthorityRequest {
        organization: "RustQueue".to_owned(),
        common_name: common_name.to_owned(),
        not_before: add_days(now, -1),
        not_after: add_days(now, validity_days as i64),
        path_length: None,
        usages: [
            AuthorityUsage::KeyCertSign,
            AuthorityUsage::CrlSign,
            AuthorityUsage::DigitalSignature,
        ],
    }
}

/// What is signed for the leaf of a name at a time: valid from the day before on for some days
/// from then, for servers and clients.
pub fn leaf_request(common_name: &str, dns_names: &Vec<String>, validity_days: u32, now: i64) -> (r:
    LeafRequest)
    ensures
        r.organization@ == "RustQueue"@,
        r.common_name@ == common_name@,
        text::texts(r.dns_names@) == text::texts(dns_names@),
        r.not_before == days_later(now, -1),
        r.not_after == days_later(now, validity_days as int),
        r.usages@ == leaf_usages(),
        r.purposes@ == leaf_purposes(),
{
    LeafRequest {
        organization: "RustQueue".to_owned(),
        common_name: common_name.to_owned(),
        dns_names: text::clone_texts(dns_names),
        not_before: add_days(now, -1),
        not_after: add_days(now, validity_days as i64),
        usages: [LeafUsage::DigitalSignature, LeafUsage::KeyEncipherment],
        purposes: [LeafPurpose::Server, LeafPurpose::Client],
    }
}

/// The authority that signed material makes: its revision is that of its
/// certificate.
pub fn authority_of(signed: SignedPair, not_after_unix: i64) -> (r: CaMaterial)
    ensures
        r == (CaMaterial {
            certificate_pem: signed.certificate_pem,
            private_key_pem: signed.private_key_pem,
            revision: content_revision(encode_utf8(signed.certificate_pem@)),
            not_after_unix,
        }),
{
    let revision = text_revision(signed.certificate_pem.as_str());
    CaMaterial {
        certificate_pem: signed.certificate_pem,
        private_key_pem: signed.private_key_pem,
        revision,
        not_after_unix,
    }
}

/// Whether the revision of an authority is that of its certificate.
pub open spec fn authority_revised(ca: CaMaterial) -> bool {
    ca.revision == content_revision(encode_utf8(ca.certificate_pem@))
}

/// Whether a certificate that is made at a time can say when it is valid.
pub open spec fn can_be_dated(now: i64, validity_days: u32) -> bool {
    is_expressible(days_later(now, -1)) && is_expressible(days_later(now, validity_days as int))
}

/// Whether an authority is what a name gets: it can be loaded, and has the name.
pub open spec fn authority_named(ca: CaMaterial, common_name: Seq<char>) -> bool {
    &&& authority_revised(ca)
    &&& common_name.len() <= 65_536 ==> authority_reads(
        ca.certificate_pem@,
        ca.private_key_pem@,
        "RustQueue"@,
        common_name,
        ca.not_after_unix,
        authority_usages(),
    ) && (loaded(ca.certificate_pem@, ca.private_key_pem@) matches Ok(until) && until
        == ca.not_after_unix)
}

/// Whether this is what making an authority at a time comes to.
pub open spec fn authority_made(
    common_name: Seq<char>,
    validity_days: u32,
    now: i64,
    made: Result<CaMaterial, PkiError>,
) -> bool {
    match made {
        Ok(ca) => {
            &&& can_be_dated(now, validity_days)
            &&& ca.not_after_unix == days_later(now, validity_days as int)
            &&& authority_named(ca, common_name)
            &&& common_name.len() <= 65_536 ==> begins(
                ca.certificate_pem@,
                days_later(now, -1),
            )
        },
        Err(e) => if can_be_dated(now, validity_days) {
            e@ == PkiErrorView::Signing("generate cluster CA key"@) || e@ == PkiErrorView::Signing(
                "self-sign cluster CA"@,
            )
        } else {
            e@ == PkiErrorView::Validity
        },
    }
}

/// Makes a certificate authority that is valid from the day before a time on for
/// some days from then. Whether it is made rests with the outside signer.
pub fn generate_ca_at(common_name: &str, validity_days: u32, now: i64) -> (r: Result<
    CaMaterial,
    PkiError,
>)
    ensures
        authority_made(common_name@, validity_days, now, r),
{
    let request = authority_request(common_name, validity_days, now);
    if !expressible(request.not_before) || !expressible(request.not_after) {
        return Err(PkiError::Validity);
    }
    let until: i64 = request.not_after;
    let key = match make_key() {
        Ok(key) => key,
        Err(_) => {
            return Err(PkiError::Signing("generate cluster CA key".to_owned()));
        },
    };
    match sign_authority(key.as_str(), request) {
        Ok(certificate_pem) => {
            proof {
                lemma_organization_sized();
            }
            Ok(authority_of(SignedPair { certificate_pem, private_key_pem: key }, until))
        },
        Err(_) => Err(PkiError::Signing("self-sign cluster CA".to_owned())),
    }
}

proof fn lemma_organization_sized()
    ensures
        "RustQueue"@.len() == 9,
{
    reveal_strlit("RustQueue");
}

/// Makes a certificate authority that is valid from yesterday on for some days
/// from now.
pub fn generate_ca(common_name: &str, validity_days: u32) -> (r: Result<CaMaterial, PkiError>)
    ensures
        r matches Ok(ca) ==> authority_named(ca, common_name@),
        exists|now: i64| #[trigger] authority_made(common_name@, validity_days, now, r),
{
    let now: i64 = status::unix_now();
    generate_ca_at(common_name, validity_days, now)
}

/// What loading an authority gives.
pub open spec fn loaded(certificate_pem: Seq<char>, private_key_pem: Seq<char>) -> Result<
    i64,
    PkiErrorView,
> {
    match key_public_info(private_key_pem) {
        None => Err(PkiErrorView::PrivateKey),
        Some(info) => match pem_contents(certificate_pem) {
            Err(reason) => Err(PkiErrorView::Pem(reason)),
            Ok(der) => match certificate_facts(der) {
                Err(reason) => Err(PkiErrorView::Certificate(reason)),
                Ok(facts) => if facts.key != info {
                    Err(PkiErrorView::Mismatch)
                } else if !makes_issuer(certificate_pem, private_key_pem) {
                    Err(PkiErrorView::Issuer)
                } else {
                    Ok(facts.not_after)
                },
            },
        },
    }
}

/// The view of what judging an authority gives.
pub open spec fn judged(r: Result<i64, PkiError>) -> Result<i64, PkiErrorView> {
    match r {
        Ok(until) => Ok(until),
        Err(e) => Err(e@),
    }
}

/// What the outside readings of an authority add up to.
pub fn judge_authority(
    key_info: Option<Vec<u8>>,
    pem: Result<(), String>,
    facts: Result<(Vec<u8>, i64), String>,
    issuer: bool,
) -> (r: Result<i64, PkiError>)
    ensures
        judged(r) == (match key_info {
            None => Err::<i64, PkiErrorView>(PkiErrorView::PrivateKey),
            Some(info) => match pem {
                Err(reason) => Err(PkiErrorView::Pem(reason@)),
                Ok(_) => match facts {
                    Err(reason) => Err(PkiErrorView::Certificate(reason@)),
                    Ok((key, until)) => if key@ != info@ {
                        Err(PkiErrorView::Mismatch)
                    } else if !issuer {
                        Err(PkiErrorView::Issuer)
                    } else {
                        Ok(until)
                    },
                },
            },
        }),
{
    let info = match key_info {
        None => {
            return Err(PkiError::PrivateKey);
        },
        Some(info) => info,
    };
    if let Err(reason) = pem {
        return Err(PkiError::Pem(reason));
    }
    match facts {
        Err(reason) => Err(PkiError::Certificate(reason)),
        Ok((key, until)) => {
            if !wire::same_bytes(key.as_slice(), info.as_slice()) {
                Err(PkiError::Mismatch)
            } else if !issuer {
                Err(PkiError::Issuer)
            } else {
                Ok(until)
            }
        },
    }
}

/// Loads an authority: its certificate has to belong to its private key and to
/// be usable as an issuer.
pub fn load_ca(certificate_pem: &str, private_key_pem: &str) -> (r: Result<CaMaterial, PkiError>)
    ensures
        match r {
            Ok(ca) => (loaded(certificate_pem@, private_key_pem@) matches Ok(until) && until
                == ca.not_after_unix) && ca.certificate_pem@ == certificate_pem@
                && ca.private_key_pem@ == private_key_pem@ && authority_revised(ca),
            Err(e) => (loaded(certificate_pem@, private_key_pem@) matches Err(f) && f == e@),
        },
{
    let key_info = public_info_of_key(private_key_pem);
    let (pem, facts): (Result<(), String>, Result<(Vec<u8>, i64), String>) = match contents_of_pem(
        certificate_pem,
    ) {
        Err(reason) => (Err(reason), Err(String::new())),
        Ok(der) => match facts_of_certificate(der.as_slice()) {
            Err(reason) => (Ok(()), Err(reason)),
            Ok(facts) => (Ok(()), Ok((facts.key, facts.not_after))),
        },
    };
    let issuer = accepts_issuer(certificate_pem, private_key_pem);
    let not_after_unix: i64 = match judge_authority(key_info, pem, facts, issuer) {
        Ok(until) => until,
        Err(e) => {
            return Err(e);
        },
    };
    Ok(
        CaMaterial {
            certificate_pem: certificate_pem.to_owned(),
            private_key_pem: private_key_pem.to_owned(),
            revision: text_revision(certificate_pem),
            not_after_unix,
        },
    )
}

/// The revision of a leaf: that of its certificate with the authority's.
pub open spec fn leaf_revised(leaf: LeafMaterial, ca: CaMaterial) -> bool {
    leaf.revision == content_revision(
        encode_utf8(leaf.certificate_pem@) + encode_utf8(ca.certificate_pem@),
    )
}

/// The leaf that signed material makes under an authority.
pub fn leaf_of(ca: &CaMaterial, signed: SignedPair, not_after_unix: i64) -> (r: LeafMaterial)
    ensures
        r.certificate_pem == signed.certificate_pem,
        r.private_key_pem == signed.private_key_pem,
        r.not_after_unix == not_after_unix,
        leaf_revised(r, *ca),
{
    let revision = pair_revision(signed.certificate_pem.as_str(), ca.certificate_pem.as_str());
    LeafMaterial {
        certificate_pem: signed.certificate_pem,
        private_key_pem: signed.private_key_pem,
        revision,
        not_after_unix,
    }
}

/// Why an authority cannot sign at all.
pub open spec fn cannot_sign(ca: CaMaterial) -> Option<Seq<char>> {
    if key_public_info(ca.private_key_pem@) is None {
        Some("parse CA key for signing"@)
    } else if !makes_issuer(ca.certificate_pem@, ca.private_key_pem@) {
        Some("parse CA certificate for signing"@)
    } else {
        match authority_subject(ca.certificate_pem@) {
            Some(subject) => if is_writable(subject) {
                None
            } else {
                Some("parse CA certificate for signing"@)
            },
            None => Some("parse CA certificate for signing"@),
        }
    }
}

/// Why an authority cannot sign at all.
fn signing_fault(ca: &CaMaterial) -> (r: Option<&'static str>)
    ensures
        match r {
            Some(reason) => cannot_sign(*ca) == Some(reason@),
            None => cannot_sign(*ca) is None,
        },
{
    if public_info_of_key(ca.private_key_pem.as_str()).is_none() {
        return Some("parse CA key for signing");
    }
    if !accepts_issuer(ca.certificate_pem.as_str(), ca.private_key_pem.as_str()) {
        return Some("parse CA certificate for signing");
    }
    if let Some(der) = block_of_pem(ca.certificate_pem.as_str()) {
        if let Some(names) = names_of_certificate(der.as_slice()) {
            if writable(&names.subject) {
                return None;
            }
        }
    }
    Some("parse CA certificate for signing")
}

/// Whether neither the names nor the authority of a leaf are of enormous size.
pub open spec fn leaf_sized(ca: CaMaterial, common_name: Seq<char>, dns_names: Seq<Seq<char>>) -> bool {
    &&& ca.certificate_pem@.len() <= 0x1000_0000
    &&& sized("RustQueue"@, common_name, dns_names)
}

/// Whether a leaf is what a name gets from an authority: its certificate says the name, the
/// DNS names, the end, the key, the usages and the purposes that go with it, is signed with
/// the authority's key and names the authority.
pub open spec fn leaf_named(
    leaf: LeafMaterial,
    ca: CaMaterial,
    common_name: Seq<char>,
    dns_names: Seq<Seq<char>>,
) -> bool {
    &&& leaf_revised(leaf, ca)
    &&& leaf_sized(ca, common_name, dns_names) ==> leaf_reads(
        leaf.certificate_pem@,
        leaf.private_key_pem@,
        "RustQueue"@,
        common_name,
        dns_names,
        leaf.not_after_unix,
        leaf_usages(),
        leaf_purposes(),
    ) && is_signed(leaf.certificate_pem@, ca.private_key_pem@) && names_issuer(
        leaf.certificate_pem@,
        ca.certificate_pem@,
    )
}

/// A leaf that an authority issues is signed with the authority's key and names the authority
/// as its issuer.
pub proof fn law_leaves_are_signed_by_their_authority(
    ca: CaMaterial,
    authority_name: Seq<char>,
    leaf: LeafMaterial,
    common_name: Seq<char>,
    dns_names: Seq<Seq<char>>,
)
    requires
        authority_named(ca, authority_name),
        authority_name.len() <= 65_536,
        leaf_named(leaf, ca, common_name, dns_names),
        leaf_sized(ca, common_name, dns_names),
    ensures
        is_signed(leaf.certificate_pem@, ca.private_key_pem@),
        ({
            &&& pem_contents(leaf.certificate_pem@) matches Ok(der)
            &&& certificate_names(der) matches Some(names)
            &&& names.1 == subject_named("RustQueue"@, authority_name)
        }),
{
}

/// What a failure of the outside signer is told as.
pub open spec fn signing_failure(e: PkiErrorView, dns_names: Seq<Seq<char>>) -> bool {
    match dns_names_fault(dns_names) {
        Some(fault) => e == PkiErrorView::Signing("generate Broker TLS key"@) || e
            == PkiErrorView::Signing(fault),
        None => e == PkiErrorView::Signing("generate Broker TLS key"@) || e
            == PkiErrorView::Signing("sign Broker TLS certificate"@),
    }
}

/// Whether this is what making the certificate of a broker at a time comes to.
pub open spec fn leaf_made(
    ca: CaMaterial,
    common_name: Seq<char>,
    dns_names: Seq<Seq<char>>,
    validity_days: u32,
    now: i64,
    made: Result<LeafMaterial, PkiError>,
) -> bool {
    match made {
        Ok(leaf) => {
            &&& can_be_dated(now, validity_days)
            &&& cannot_sign(ca) is None
            &&& dns_names_fault(dns_names) is None
            &&& leaf.not_after_unix == days_later(now, validity_days as int)
            &&& leaf_named(leaf, ca, common_name, dns_names)
            &&& leaf_sized(ca, common_name, dns_names) ==> begins(
                leaf.certificate_pem@,
                days_later(now, -1),
            )
        },
        Err(e) => if !can_be_dated(now, validity_days) {
            e@ == PkiErrorView::Validity
        } else {
            match cannot_sign(ca) {
                Some(reason) => e@ == PkiErrorView::Signing(reason),
                None => signing_failure(e@, dns_names),
            }
        },
    }
}

/// Makes the certificate of a broker, valid from the day before a time on for some days from
/// then. Whether an authority that can sign does so rests with the outside signer.
pub fn issue_leaf_at(
    ca: &CaMaterial,
    common_name: &str,
    dns_names: &Vec<String>,
    validity_days: u32,
    now: i64,
) -> (r: Result<LeafMaterial, PkiError>)
    ensures
        leaf_made(*ca, common_name@, text::texts(dns_names@), validity_days, now, r),
{
    let request = leaf_request(common_name, dns_names, validity_days, now);
    if !expressible(request.not_before) || !expressible(request.not_after) {
        return Err(PkiError::Validity);
    }
    let until: i64 = request.not_after;
    if let Some(reason) = signing_fault(ca) {
        return Err(PkiError::Signing(reason.to_owned()));
    }
    let key = match make_key() {
        Ok(key) => key,
        Err(_) => {
            return Err(PkiError::Signing("generate Broker TLS key".to_owned()));
        },
    };
    if let Some(fault) = fault_of_dns_names(text::clone_texts(dns_names)) {
        return Err(PkiError::Signing(fault));
    }
    match sign_leaf(
        ca.certificate_pem.as_str(),
        ca.private_key_pem.as_str(),
        key.as_str(),
        request,
    ) {
        Ok(certificate_pem) => Ok(
            leaf_of(ca, SignedPair { certificate_pem, private_key_pem: key }, until),
        ),
        Err(_) => Err(PkiError::Signing("sign Broker TLS certificate".to_owned())),
    }
}

/// Makes the certificate of a broker, valid from yesterday on for some days from
/// now.
pub fn issue_leaf(
    ca: &CaMaterial,
    common_name: &str,
    dns_names: &Vec<String>,
    validity_days: u32,
) -> (r: Result<LeafMaterial, PkiError>)
    ensures
        cannot_sign(*ca) is Some ==> r is Err,
        r matches Ok(leaf) ==> leaf_named(leaf, *ca, common_name@, text::texts(dns_names@)),
        exists|now: i64| #[trigger]
            leaf_made(*ca, common_name@, text::texts(dns_names@), validity_days, now, r),
{
    let now: i64 = status::unix_now();
    issue_leaf_at(ca, common_name, dns_names, validity_days, now)
}

/// Bytes in lower-case hexadecimal.
pub fn hex_token(bytes: &Vec<u8>) -> (r: String)
    ensures
        r@ == digest::hex_text(bytes@),
{
    let mut out = String::new();
    let mut i: usize = 0;
    assert(bytes@.take(0) =~= Seq::<u8>::empty());
    while i < bytes.len()
        invariant
            i <= bytes@.len(),
            out@ == digest::hex_text(bytes@.take(i as int)),
        decreases bytes@.len() - i,
    {
        assert(bytes@.take(i + 1).drop_last() =~= bytes@.take(i as int));
        assert(bytes@.take(i + 1).last() == bytes@[i as int]);
        out.append(text::hex_digits(bytes[i] as u64, 2).as_str());
        i += 1;
    }
    assert(bytes@.take(bytes@.len() as int) =~= bytes@);
    out
}

/// A random token: the given number of bytes in hexadecimal.
pub fn random_hex(bytes: usize) -> (r: String)
    requires
        bytes <= isize::MAX,
    ensures
        r@.len() == 2 * bytes,
        exists|value: Seq<u8>| value.len() == bytes && r@ == #[trigger] digest::hex_text(value),
{
    let value = random_bytes(bytes);
    proof {
        digest::lemma_hex_text_len(value@);
    }
    hex_token(&value)
}

/// Certificates are valid from a day before they are made until as many days after as is asked
/// for.
pub proof fn law_days_are_counted_from_now(now: i64, days: u32)
    requires
        0 <= now <= 253_402_300_799,
    ensures
        days_later(now, days as int) == now + days * 86_400,
        days_later(now, -1) == now - 86_400,
        days_later(now, 0) == now,
{
}

/// An authority that was made lasts as long as was asked for, has its name, and may sign; it is
/// loaded again with the same end.
pub proof fn law_made_authorities_can_be_loaded(
    name: Seq<char>,
    days: u32,
    now: i64,
    ca: CaMaterial,
)
    requires
        authority_made(name, days, now, Ok(ca)),
        name.len() <= 65_536,
        0 <= now <= 253_402_300_799,
    ensures
        ca.not_after_unix == now + days * 86_400,
        loaded(ca.certificate_pem@, ca.private_key_pem@) == Ok::<i64, PkiErrorView>(
            ca.not_after_unix,
        ),
        ({
            &&& pem_contents(ca.certificate_pem@) matches Ok(der)
            &&& certificate_facts(der) matches Ok(facts)
            &&& facts.is_ca
            &&& facts.not_before == now - 86_400
            &&& facts.usages == Some(97u16)
            &&& certificate_names(der) matches Some(names)
            &&& names.0 == names.1
        }),
{
    let u = authority_usages();
    assert(u[0] == AuthorityUsage::KeyCertSign);
    assert(u[1] == AuthorityUsage::CrlSign);
    assert(u[2] == AuthorityUsage::DigitalSignature);
}

/// A key and a certificate are an authority exactly where both can be read, belong together, and
/// can issue.
pub proof fn law_authorities_are_loaded_when_they_fit(certificate: Seq<char>, key: Seq<char>)
    ensures
        ({
            let r = loaded(certificate, key);
            let info = key_public_info(key);
            let der = pem_contents(certificate);
            &&& r is Ok <==> info is Some && der is Ok && certificate_facts(der->Ok_0) is Ok
                && certificate_facts(der->Ok_0)->Ok_0.key == info->0 && makes_issuer(
                certificate,
                key,
            )
            &&& r is Ok ==> r->Ok_0 == certificate_facts(der->Ok_0)->Ok_0.not_after
            &&& info is None ==> r == Err::<i64, PkiErrorView>(PkiErrorView::PrivateKey)
        }),
{
}

/// The certificate of a broker is not an authority, is for servers and clients both, and has the
/// end that was asked for.
pub proof fn law_leaves_are_for_servers_and_clients(
    ca: CaMaterial,
    name: Seq<char>,
    dns_names: Seq<Seq<char>>,
    days: u32,
    now: i64,
    leaf: LeafMaterial,
)
    requires
        leaf_made(ca, name, dns_names, days, now, Ok(leaf)),
        leaf_sized(ca, name, dns_names),
        0 <= now <= 253_402_300_799,
    ensures
        leaf.not_after_unix == now + days * 86_400,
        ({
            &&& pem_contents(leaf.certificate_pem@) matches Ok(der)
            &&& certificate_facts(der) matches Ok(facts)
            &&& !facts.is_ca
            &&& facts.usages == Some(5u16)
            &&& facts.purposes == Some((true, true))
            &&& facts.not_after == leaf.not_after_unix
        }),
        is_signed(leaf.certificate_pem@, ca.private_key_pem@),
{
    let u = leaf_usages();
    assert(u[0] == LeafUsage::DigitalSignature);
    assert(u[1] == LeafUsage::KeyEncipherment);
    let p = leaf_purposes();
    assert(p[0] == LeafPurpose::Server);
    assert(p[1] == LeafPurpose::Client);
}

/// A leaf that was made has the revision of its certificate and its authority's,
/// and is made only where its time can be told, the authority can sign, and the
/// names are names. Where its time cannot be told, that is what is said.
pub proof fn law_leaves_are_made_where_they_can_be(
    ca: CaMaterial,
    name: Seq<char>,
    dns_names: Seq<Seq<char>>,
    days: u32,
    now: i64,
    made: Result<LeafMaterial, PkiError>,
)
    requires
        leaf_made(ca, name, dns_names, days, now, made),
    ensures
        made is Ok ==> can_be_dated(now, days) && cannot_sign(ca) is None && dns_names_fault(
            dns_names,
        ) is None,
        made is Ok ==> made->Ok_0.revision == content_revision(
            encode_utf8(made->Ok_0.certificate_pem@) + encode_utf8(ca.certificate_pem@),
        ),
        !can_be_dated(now, days) ==> made is Err && made->Err_0@ == PkiErrorView::Validity,
        can_be_dated(now, days) && cannot_sign(ca) is Some ==> made is Err && made->Err_0@
            == PkiErrorView::Signing(cannot_sign(ca)->0),
{
}

} // verus!
