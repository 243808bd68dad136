//! The tokens with which brokers, Discovery and the console know each other.
use crate::operator::controller::security;
use crate::operator::crd::RustQueue;
use crate::text;
use rand::distributions::DistString;
use vstd::prelude::*;
use vstd::string::*;
use vstd::utf8::*;

verus! {

/// The tokens that the operator uses.
#[derive(Debug)]
pub struct AuthSecret {
    pub name: String,
    pub admin_token: String,
    pub registry_token: String,
    pub revision: String,
}

/// What is wrong with a secret.
#[derive(Debug)]
pub enum AuthError {
    /// The configured secret does not exist.
    NoSecret(String),
    NoData,
    Missing(String),
    NotText(String),
    Empty(String),
    /// Two roles share a token.
    Shared(String, String),
}

/// `AuthError` as values.
#[allow(inconsistent_fields)]
pub enum AuthErrorView {
    NoSecret(Seq<char>),
    NoData,
    Missing(Seq<char>),
    NotText(Seq<char>),
    Empty(Seq<char>),
    Shared(Seq<char>, Seq<char>),
}

impl View for AuthError {
    type V = AuthErrorView;

    open spec fn view(&self) -> AuthErrorView {
        match *self {
            AuthError::NoSecret(n) => AuthErrorView::NoSecret(n@),
            AuthError::NoData => AuthErrorView::NoData,
            AuthError::Missing(k) => AuthErrorView::Missing(k@),
            AuthError::NotText(k) => AuthErrorView::NotText(k@),
            AuthError::Empty(k) => AuthErrorView::Empty(k@),
            AuthError::Shared(a, b) => AuthErrorView::Shared(a@, b@),
        }
    }
}

/// The message of an error.
pub open spec fn error_text(e: AuthErrorView) -> Seq<char> {
    match e {
        AuthErrorView::NoSecret(n) => "configured registry Secret "@ + n + " does not exist"@,
        AuthErrorView::NoData => "auth Secret has no data"@,
        AuthErrorView::Missing(k) => "auth Secret is missing "@ + k,
        AuthErrorView::NotText(k) => k + " is not UTF-8"@,
        AuthErrorView::Empty(k) => "auth Secret "@ + k + " is empty"@,
        AuthErrorView::Shared(a, b) => "auth Secret "@ + a + " and "@ + b + " must be distinct"@,
    }
}

impl AuthError {
    /// The message of the error.
    pub fn message(&self) -> (r: String)
        ensures
            r@ == error_text(self@),
    {
        match self {
            AuthError::NoSecret(n) => {
                let mut m = "configured registry Secret ".to_owned();
                m.append(n.as_str());
                m.append(" does not exist");
                m
            },
            AuthError::NoData => "auth Secret has no data".to_owned(),
            AuthError::Missing(k) => {
                let mut m = "auth Secret is missing ".to_owned();
                m.append(k.as_str());
                m
            },
            AuthError::NotText(k) => {
                let mut m = k.clone();
                m.append(" is not UTF-8");
                m
            },
            AuthError::Empty(k) => {
                let mut m = "auth Secret ".to_owned();
                m.append(k.as_str());
                m.append(" is empty");
                m
            },
            AuthError::Shared(a, b) => {
                let mut m = "auth Secret ".to_owned();
                m.append(a.as_str());
                m.append(" and ");
                m.append(b.as_str());
                m.append(" must be distinct");
                m
            },
        }
    }
}

/// Whether a character is a letter or digit of ASCII.
pub open spec fn is_alphanumeric(c: char) -> bool {
    ('0' <= c && c <= '9') || ('a' <= c && c <= 'z') || ('A' <= c && c <= 'Z')
}

/// Whether a text is a fresh token: 48 letters and digits.
pub open spec fn is_token(s: Seq<char>) -> bool {
    s.len() == 48 && forall|i: int| 0 <= i < s.len() ==> is_alphanumeric(#[trigger] s[i])
}

/// So many random letters and digits, by `sample_string` of
/// `rand::distributions::Alphanumeric` with `rand::thread_rng`. Lengths that memory cannot
/// hold panic; long ones are left out.
#[verifier::external_body]
fn random_letters(length: usize) -> (r: String)
    requires
        length <= 65_536,
    ensures
        r@.len() == length,
        forall|i: int| 0 <= i < length ==> is_alphanumeric(#[trigger] r@[i]),
{
    rand::distributions::Alphanumeric.sample_string(&mut rand::thread_rng(), length)
}

/// A random token of 48 letters and digits.
fn random_token() -> (r: String)
    ensures
        is_token(r@),
{
    random_letters(48)
}

/// The name of a cluster's secret: the configured one, or one of its own.
pub open spec fn name_of_secret(cluster: RustQueue) -> Seq<char> {
    match cluster.spec.registry_secret_name {
        Some(n) => n@,
        None => cluster.metadata.name@ + "-auth"@,
    }
}

/// The name of a cluster's secret.
pub fn secret_name(cluster: &RustQueue) -> (r: String)
    ensures
        r@ == name_of_secret(*cluster),
{
    match &cluster.spec.registry_secret_name {
        Some(n) => n.clone(),
        None => {
            let mut n = cluster.metadata.name.clone();
            n.append("-auth");
            n
        },
    }
}

/// The tokens of a new secret: one for each role, all random.
pub fn new_tokens() -> (r: Vec<(String, String)>)
    ensures
        r@.len() == 3,
        r@[0].0@ == "admin-token"@,
        r@[1].0@ == "registry-token"@,
        r@[2].0@ == "console-token"@,
        forall|i: int| 0 <= i < 3 ==> is_token((#[trigger] r@[i]).1@),
{
    let mut r: Vec<(String, String)> = Vec::new();
    r.push(("admin-token".to_owned(), random_token()));
    r.push(("registry-token".to_owned(), random_token()));
    r.push(("console-token".to_owned(), random_token()));
    r
}

/// What to do about a missing secret: create it where it is the cluster's own.
pub fn create_or_refuse(cluster: &RustQueue) -> (r: Result<(), AuthError>)
    ensures
        match r {
            Ok(()) => cluster.spec.registry_secret_name is None,
            Err(e) => cluster.spec.registry_secret_name is Some && e@ == AuthErrorView::NoSecret(
                name_of_secret(*cluster),
            ),
        },
{
    if cluster.spec.registry_secret_name.is_none() {
        Ok(())
    } else {
        Err(AuthError::NoSecret(secret_name(cluster)))
    }
}

/// The bytes under a key.
pub open spec fn under(data: Option<&Vec<(String, Vec<u8>)>>, key: Seq<char>) -> Option<Seq<u8>> {
    match data {
        Some(d) => security::data_under(d@, key, 0),
        None => None,
    }
}

fn find_bytes<'a>(data: &'a Vec<(String, Vec<u8>)>, key: &str) -> (r: Option<&'a Vec<u8>>)
    ensures
        match r {
            Some(b) => security::data_under(data@, key@, 0) == Some(b@),
            None => security::data_under(data@, key@, 0) is None,
        },
{
    let mut i: usize = 0;
    while i < data.len()
        invariant
            i <= data@.len(),
            security::data_under(data@, key@, 0) == security::data_under(data@, key@, i as int),
        decreases data@.len() - i,
    {
        if text::str_eq(data[i].0.as_str(), key) {
            return Some(&data[i].1);
        }
        i += 1;
    }
    None
}

fn has_key(data: Option<&Vec<(String, Vec<u8>)>>, key: &str) -> (r: bool)
    ensures
        r == under(data, key@) is Some,
{
    match data {
        Some(d) => find_bytes(d, key).is_some(),
        None => false,
    }
}

/// A change to a secret: it gets a console token where it lacks one, and its
/// observer token is dropped.
#[derive(Debug)]
pub struct TokenUpdate {
    pub console_token: Option<String>,
}

/// The change that a cluster's own secret needs, if any.
pub fn token_update(cluster: &RustQueue, data: Option<&Vec<(String, Vec<u8>)>>) -> (r: Option<
    TokenUpdate,
>)
    ensures
        r is Some <==> cluster.spec.registry_secret_name is None && (under(data, "console-token"@)
            is None || under(data, "observer-token"@) is Some),
        r is Some ==> (r->0.console_token is Some <==> under(data, "console-token"@) is None),
        r is Some && r->0.console_token is Some ==> is_token(r->0.console_token->0@),
{
    let missing_console = !has_key(data, "console-token");
    let has_observer = has_key(data, "observer-token");
    if cluster.spec.registry_secret_name.is_none() && (missing_console || has_observer) {
        let console_token = if missing_console {
            Some(random_token())
        } else {
            None
        };
        Some(TokenUpdate { console_token })
    } else {
        None
    }
}

/// The token under a key, trimmed.
pub open spec fn token_under(data: Seq<(String, Vec<u8>)>, key: Seq<char>) -> Result<
    Seq<char>,
    AuthErrorView,
> {
    match security::data_under(data, key, 0) {
        None => Err(AuthErrorView::Missing(key)),
        Some(bytes) => if !valid_utf8(bytes) {
            Err(AuthErrorView::NotText(key))
        } else if text::is_blank(decode_utf8(bytes)) {
            Err(AuthErrorView::Empty(key))
        } else {
            Ok(text::trimmed(decode_utf8(bytes)))
        },
    }
}

fn read_token(data: &Vec<(String, Vec<u8>)>, key: &str) -> (r: Result<String, AuthError>)
    ensures
        match r {
            Ok(t) => token_under(data@, key@) == Ok::<Seq<char>, AuthErrorView>(t@),
            Err(e) => token_under(data@, key@) == Err::<Seq<char>, AuthErrorView>(e@),
        },
{
    match find_bytes(data, key) {
        None => Err(AuthError::Missing(key.to_owned())),
        Some(bytes) => match text::utf8_text(bytes.as_slice()) {
            None => Err(AuthError::NotText(key.to_owned())),
            Some(value) => {
                proof {
                    encode_utf8_decode_utf8(value@);
                }
                if text::blank(value.as_str()) {
                    Err(AuthError::Empty(key.to_owned()))
                } else {
                    Ok(text::trim(value.as_str()))
                }
            },
        },
    }
}

/// The first token after `i` that equals the one at `i`, from `k` on.
pub open spec fn equal_after(tokens: Seq<(&str, &str)>, i: int, k: int) -> Option<int>
    decreases tokens.len() - k,
{
    if k < 0 || k >= tokens.len() {
        None
    } else if tokens[k].1@ == tokens[i].1@ {
        Some(k)
    } else {
        equal_after(tokens, i, k + 1)
    }
}

/// The first two tokens that are equal, the first of them from `i` on.
pub open spec fn first_shared(tokens: Seq<(&str, &str)>, i: int) -> Option<(int, int)>
    decreases tokens.len() - i,
{
    if i < 0 || i >= tokens.len() {
        None
    } else {
        match equal_after(tokens, i, i + 1) {
            Some(j) => Some((i, j)),
            None => first_shared(tokens, i + 1),
        }
    }
}

/// Checks that no two roles share a token; the first two that do are named.
pub fn validate_distinct_tokens(tokens: &[(&str, &str)]) -> (r: Result<(), AuthError>)
    ensures
        match first_shared(tokens@, 0) {
            None => r is Ok,
            Some((i, j)) => r is Err && r->Err_0@ == AuthErrorView::Shared(
                tokens@[i].0@,
                tokens@[j].0@,
            ),
        },
{
    let mut i: usize = 0;
    while i < tokens.len()
        invariant
            i <= tokens@.len(),
            first_shared(tokens@, 0) == first_shared(tokens@, i as int),
        decreases tokens@.len() - i,
    {
        let mut j: usize = i + 1;
        while j < tokens.len()
            invariant
                i < j <= tokens@.len(),
                first_shared(tokens@, 0) == first_shared(tokens@, i as int),
                equal_after(tokens@, i as int, i + 1) == equal_after(
                    tokens@,
                    i as int,
                    j as int,
                ),
            decreases tokens@.len() - j,
        {
            if text::str_eq(tokens[i].1, tokens[j].1) {
                return Err(AuthError::Shared(tokens[i].0.to_owned(), tokens[j].0.to_owned()));
            }
            j += 1;
        }
        i += 1;
    }
    Ok(())
}

proof fn lemma_equal_after(tokens: Seq<(&str, &str)>, i: int, k: int, j: int)
    requires
        equal_after(tokens, i, k) is None,
        0 <= k <= j < tokens.len(),
    ensures
        tokens[j].1@ != tokens[i].1@,
    decreases j - k,
{
    if k < j {
        lemma_equal_after(tokens, i, k + 1, j);
    }
}

proof fn lemma_first_shared(tokens: Seq<(&str, &str)>, k: int, i: int, j: int)
    requires
        first_shared(tokens, k) is None,
        0 <= k <= i < j < tokens.len(),
    ensures
        tokens[i].1@ != tokens[j].1@,
    decreases i - k,
{
    if k < i {
        lemma_first_shared(tokens, k + 1, i, j);
    } else {
        lemma_equal_after(tokens, i, i + 1, j);
    }
}

/// Tokens that pass are pairwise distinct.
pub proof fn law_accepted_tokens_are_pairwise_distinct(tokens: Seq<(&str, &str)>, i: int, j: int)
    requires
        first_shared(tokens, 0) is None,
        0 <= i < j < tokens.len(),
    ensures
        tokens[i].1@ != tokens[j].1@,
{
    lemma_first_shared(tokens, 0, i, j);
}

/// What is wrong with the tokens of a secret.
pub open spec fn tokens_fault(data: Option<&Vec<(String, Vec<u8>)>>) -> Option<AuthErrorView> {
    match data {
        None => Some(AuthErrorView::NoData),
        Some(d) => {
            let admin = token_under(d@, "admin-token"@);
            let registry = token_under(d@, "registry-token"@);
            let console = token_under(d@, "console-token"@);
            if admin is Err {
                Some(admin->Err_0)
            } else if registry is Err {
                Some(registry->Err_0)
            } else if console is Err {
                Some(console->Err_0)
            } else if admin->Ok_0 == registry->Ok_0 {
                Some(AuthErrorView::Shared("admin-token"@, "registry-token"@))
            } else if admin->Ok_0 == console->Ok_0 {
                Some(AuthErrorView::Shared("admin-token"@, "console-token"@))
            } else if registry->Ok_0 == console->Ok_0 {
                Some(AuthErrorView::Shared("registry-token"@, "console-token"@))
            } else {
                None
            }
        },
    }
}

/// Reads the tokens of a secret. Each role has one of its own.
pub fn read_tokens(
    name: &str,
    data: Option<&Vec<(String, Vec<u8>)>>,
    resource_version: Option<String>,
) -> (r: Result<AuthSecret, AuthError>)
    ensures
        match r {
            Ok(a) => {
                &&& tokens_fault(data) is None
                &&& a.name@ == name@
                &&& token_under(data->0@, "admin-token"@) == Ok::<Seq<char>, AuthErrorView>(
                    a.admin_token@,
                )
                &&& token_under(data->0@, "registry-token"@) == Ok::<Seq<char>, AuthErrorView>(
                    a.registry_token@,
                )
                &&& a.revision@ == match resource_version {
                    Some(v) => v@,
                    None => ""@,
                }
            },
            Err(e) => tokens_fault(data) == Some(e@),
        },
{
    let d = match data {
        Some(d) => d,
        None => {
            return Err(AuthError::NoData);
        },
    };
    let admin = match read_token(d, "admin-token") {
        Ok(t) => t,
        Err(e) => {
            return Err(e);
        },
    };
    let registry = match read_token(d, "registry-token") {
        Ok(t) => t,
        Err(e) => {
            return Err(e);
        },
    };
    let console = match read_token(d, "console-token") {
        Ok(t) => t,
        Err(e) => {
            return Err(e);
        },
    };
    let tokens: [(&str, &str); 3] = [
        ("admin-token", admin.as_str()),
        ("registry-token", registry.as_str()),
        ("console-token", console.as_str()),
    ];
    proof {
        reveal_with_fuel(first_shared, 4);
        reveal_with_fuel(equal_after, 4);
    }
    match validate_distinct_tokens(tokens.as_slice()) {
        Err(e) => {
            return Err(e);
        },
        Ok(()) => {},
    }
    let revision = match resource_version {
        Some(v) => v,
        None => "".to_owned(),
    };
    Ok(
        AuthSecret {
            name: name.to_owned(),
            admin_token: admin,
            registry_token: registry,
            revision,
        },
    )
}

/// What is wrong with the TLS secret of a cluster.
#[derive(Clone, Copy, Debug, PartialEq, Eq, Structural)]
pub enum TlsError {
    NoData,
    NoCertificate,
    NoKey,
}

/// What is wrong with the TLS secret of a cluster.
pub open spec fn tls_fault(data: Option<&Vec<(String, Vec<u8>)>>) -> Option<TlsError> {
    let crt = under(data, "tls.crt"@);
    let key = under(data, "tls.key"@);
    if data is None {
        Some(TlsError::NoData)
    } else if crt is None || crt->0.len() == 0 {
        Some(TlsError::NoCertificate)
    } else if key is None || key->0.len() == 0 {
        Some(TlsError::NoKey)
    } else {
        None
    }
}

fn has_bytes(data: &Vec<(String, Vec<u8>)>, key: &str) -> (r: bool)
    ensures
        r == (security::data_under(data@, key@, 0) is Some && security::data_under(
            data@,
            key@,
            0,
        )->0.len() > 0),
{
    match find_bytes(data, key) {
        Some(b) => b.len() > 0,
        None => false,
    }
}

/// The revision of the secrets that pods mount, where clients use TLS: that of
/// the tokens and that of the TLS secret.
pub fn tls_revision(
    auth_revision: &str,
    data: Option<&Vec<(String, Vec<u8>)>>,
    resource_version: Option<String>,
) -> (r: Result<String, TlsError>)
    ensures
        match r {
            Ok(t) => tls_fault(data) is None && t@ == auth_revision@ + ":"@
                + match resource_version {
                Some(v) => v@,
                None => ""@,
            },
            Err(e) => tls_fault(data) == Some(e),
        },
{
    let d = match data {
        Some(d) => d,
        None => {
            return Err(TlsError::NoData);
        },
    };
    if !has_bytes(d, "tls.crt") {
        return Err(TlsError::NoCertificate);
    }
    if !has_bytes(d, "tls.key") {
        return Err(TlsError::NoKey);
    }
    let mut r = auth_revision.to_owned();
    r.append(":");
    match resource_version {
        Some(v) => r.append(v.as_str()),
        None => r.append(""),
    }
    Ok(r)
}

/// The message of an error of the TLS secret.
pub fn tls_message(error: TlsError, name: &str) -> (r: String)
    ensures
        r@ == match error {
            TlsError::NoData => "client TLS Secret has no data"@,
            TlsError::NoCertificate => "client TLS Secret "@ + name@ + " is missing "@
                + "tls.crt"@,
            TlsError::NoKey => "client TLS Secret "@ + name@ + " is missing "@ + "tls.key"@,
        },
{
    let key = match error {
        TlsError::NoData => {
            return "client TLS Secret has no data".to_owned();
        },
        TlsError::NoCertificate => "tls.crt",
        TlsError::NoKey => "tls.key",
    };
    let mut m = "client TLS Secret ".to_owned();
    m.append(name);
    m.append(" is missing ");
    m.append(key);
    m
}

/// Tokens are accepted exactly where all three are there as texts that are not blank and no two
/// of them are the same.
pub proof fn law_accepted_tokens_are_three(data: Vec<(String, Vec<u8>)>)
    ensures
        ({
            let a = token_under(data@, "admin-token"@);
            let r = token_under(data@, "registry-token"@);
            let c = token_under(data@, "console-token"@);
            &&& tokens_fault(Some(&data)) is None <==> a is Ok && r is Ok && c is Ok && a->Ok_0
                != r->Ok_0 && a->Ok_0 != c->Ok_0 && r->Ok_0 != c->Ok_0
            &&& tokens_fault(None) == Some(AuthErrorView::NoData)
        }),
{
}

/// A token is read exactly where there are bytes under its key that are a text and not blank; it
/// is that text without the spaces round it.
pub proof fn law_tokens_are_read_without_spaces(data: Seq<(String, Vec<u8>)>, key: Seq<char>)
    ensures
        ({
            let bytes = security::data_under(data, key, 0);
            let r = token_under(data, key);
            &&& r is Ok <==> bytes is Some && valid_utf8(bytes->0) && !text::is_blank(
                decode_utf8(bytes->0),
            )
            &&& r is Ok ==> r->Ok_0 == text::trimmed(decode_utf8(bytes->0))
            &&& bytes is None ==> r->Err_0 == AuthErrorView::Missing(key)
            &&& bytes is Some && !valid_utf8(bytes->0) ==> r->Err_0 == AuthErrorView::NotText(key)
            &&& bytes is Some && valid_utf8(bytes->0) && text::is_blank(decode_utf8(bytes->0))
                ==> r->Err_0 == AuthErrorView::Empty(key)
        }),
{
}

/// A certificate and a key are both needed, and neither may be empty.
pub proof fn law_tls_needs_a_certificate_and_a_key(data: Vec<(String, Vec<u8>)>)
    ensures
        ({
            let c = security::data_under(data@, "tls.crt"@, 0);
            let k = security::data_under(data@, "tls.key"@, 0);
            &&& tls_fault(Some(&data)) is None <==> c is Some && c->0.len() > 0 && k is Some
                && k->0.len() > 0
            &&& tls_fault(Some(&data)) == Some(TlsError::NoKey) ==> c is Some && c->0.len() > 0
            &&& tls_fault(None) == Some(TlsError::NoData)
        }),
{
}

/// The Secret is the one that is configured, else the cluster's own.
pub proof fn law_the_configured_secret_wins(cluster: RustQueue)
    ensures
        cluster.spec.registry_secret_name is Some ==> name_of_secret(cluster)
            == cluster.spec.registry_secret_name->0@,
        cluster.spec.registry_secret_name is None ==> name_of_secret(cluster)
            == cluster.metadata.name@ + "-auth"@,
{
}

} // verus!
