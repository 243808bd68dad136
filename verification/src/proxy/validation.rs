//! What a request must be like to be forwarded.
use crate::text;
use vstd::prelude::*;
use vstd::string::*;

verus! {

/// What is forwarded of a request's head.
#[derive(Clone, Debug, Eq, PartialEq)]
pub struct ForwardMetadata {
    pub path_and_query: String,
    pub declared_bytes: Option<usize>,
}

/// Why a request is not forwarded.
#[derive(Clone, Copy, Debug, Eq, PartialEq, Structural)]
pub enum ForwardMetadataError {
    Invalid,
    BodyTooLarge,
}

/// The parts of a URI that decide on forwarding.
#[derive(Clone, Debug)]
pub struct UriParts {
    pub has_scheme: bool,
    pub has_authority: bool,
    pub path_and_query: Option<String>,
}

/// Whether a URI has a scheme, whether it has an authority, and its path with
/// its query.
pub open spec fn parts_view(p: Option<UriParts>) -> Option<(bool, bool, Option<Seq<char>>)> {
    match p {
        None => None,
        Some(p) => Some((p.has_scheme, p.has_authority, text::opt_text(p.path_and_query))),
    }
}

/// What `http::Uri`'s parser makes of a text: nothing where it is no URI, else
/// whether it has a scheme, whether it has an authority, and its path with its
/// query where it has one.
pub uninterp spec fn uri_parts(target: Seq<char>) -> Option<(bool, bool, Option<Seq<char>>)>;

/// `str::parse::<http::Uri>`, with `Uri::scheme`, `Uri::authority` and
/// `Uri::path_and_query` read from what it returns: what they return depends on
/// the text alone.
#[verifier::external_body]
fn parse_uri(target: &str) -> (r: Option<UriParts>)
    ensures
        parts_view(r) == uri_parts(target@),
{
    match target.parse::<axum::http::Uri>() {
        Ok(uri) => Some(
            UriParts {
                has_scheme: uri.scheme().is_some(),
                has_authority: uri.authority().is_some(),
                path_and_query: uri.path_and_query().map(|p| p.to_string()),
            },
        ),
        Err(_) => None,
    }
}

/// The length that a header declares, or nothing where the header cannot be read.
pub open spec fn declared(content_length: Option<Seq<char>>) -> Option<Option<nat>> {
    match content_length {
        None => Some(None),
        Some(value) => match text::parsed_unsigned(value, 10, usize::MAX as nat) {
            None => None,
            Some(n) => Some(Some(n)),
        },
    }
}

/// What is forwarded of a request with this target and declared length.
pub open spec fn forwarded(
    parts: Option<(bool, bool, Option<Seq<char>>)>,
    content_length: Option<Seq<char>>,
    max_body_bytes: nat,
) -> Result<(Seq<char>, Option<nat>), ForwardMetadataError> {
    match parts {
        None => Err(ForwardMetadataError::Invalid),
        Some((scheme, authority, path)) => if scheme || authority {
            Err(ForwardMetadataError::Invalid)
        } else {
            match declared(content_length) {
                None => Err(ForwardMetadataError::Invalid),
                Some(bytes) => if bytes is Some && bytes->0 > max_body_bytes {
                    Err(ForwardMetadataError::BodyTooLarge)
                } else {
                    Ok(
                        (
                            match path {
                                Some(path) => path,
                                None => "/"@,
                            },
                            bytes,
                        ),
                    )
                },
            }
        },
    }
}

/// The value of an optional length.
pub open spec fn length_view(n: Option<usize>) -> Option<nat> {
    match n {
        None => None,
        Some(n) => Some(n as nat),
    }
}

/// What a result forwards.
pub open spec fn metadata_view(r: Result<ForwardMetadata, ForwardMetadataError>) -> Result<
    (Seq<char>, Option<nat>),
    ForwardMetadataError,
> {
    match r {
        Ok(m) => Ok((m.path_and_query@, length_view(m.declared_bytes))),
        Err(e) => Err(e),
    }
}

/// The text of an optional header.
pub open spec fn header_view(h: Option<&str>) -> Option<Seq<char>> {
    match h {
        None => None,
        Some(s) => Some(s@),
    }
}

/// What is forwarded of a request, from the parts of its target.
pub fn forward_metadata(
    parts: Option<UriParts>,
    content_length: Option<&str>,
    max_body_bytes: usize,
) -> (r: Result<ForwardMetadata, ForwardMetadataError>)
    ensures
        metadata_view(r) == forwarded(
            parts_view(parts),
            header_view(content_length),
            max_body_bytes as nat,
        ),
{
    let parts = match parts {
        None => {
            return Err(ForwardMetadataError::Invalid);
        },
        Some(parts) => parts,
    };
    if parts.has_scheme || parts.has_authority {
        return Err(ForwardMetadataError::Invalid);
    }
    let declared_bytes: Option<usize> = match content_length {
        None => None,
        Some(value) => match text::parse_decimal(value, usize::MAX as u64) {
            None => {
                return Err(ForwardMetadataError::Invalid);
            },
            Some(n) => Some(n as usize),
        },
    };
    if let Some(bytes) = declared_bytes {
        if bytes > max_body_bytes {
            return Err(ForwardMetadataError::BodyTooLarge);
        }
    }
    let path_and_query = match parts.path_and_query {
        Some(path) => path,
        None => "/".to_owned(),
    };
    Ok(ForwardMetadata { path_and_query, declared_bytes })
}

/// What is forwarded of a request. Only targets without a scheme and an authority
/// are.
pub fn parse_forward_metadata(
    target: &str,
    content_length: Option<&str>,
    max_body_bytes: usize,
) -> (r: Result<ForwardMetadata, ForwardMetadataError>)
    ensures
        metadata_view(r) == forwarded(
            uri_parts(target@),
            header_view(content_length),
            max_body_bytes as nat,
        ),
{
    forward_metadata(parse_uri(target), content_length, max_body_bytes)
}

/// A forwarded request has neither a scheme nor an authority, and declares no more
/// than the limit.
pub proof fn law_forwarded_requests_are_bounded(
    target: Seq<char>,
    content_length: Option<Seq<char>>,
    max_body_bytes: nat,
)
    ensures
        forwarded(uri_parts(target), content_length, max_body_bytes) matches Ok((_, bytes))
            ==> uri_parts(target) is Some && !(uri_parts(target)->0).0 && !(uri_parts(target)->0).1
            && (bytes is Some ==> bytes->0 <= max_body_bytes),
{
}

/// A target without a scheme and an authority is forwarded as it is, with the length that was
/// declared; it is refused as too large exactly where more was declared than is allowed.
pub proof fn law_readable_requests_are_forwarded(
    path: Option<Seq<char>>,
    length: Option<nat>,
    max_body_bytes: nat,
)
    requires
        length is Some ==> length->0 <= usize::MAX,
    ensures
        ({
            let header = match length {
                Some(n) => Some(text::dec(n)),
                None => None,
            };
            let r = forwarded(Some((false, false, path)), header, max_body_bytes);
            &&& length is None || length->0 <= max_body_bytes ==> (r matches Ok((p, bytes))
                && bytes == length && p == (match path {
                Some(q) => q,
                None => "/"@,
            }))
            &&& length is Some && length->0 > max_body_bytes ==> r == Err::<
                (Seq<char>, Option<nat>),
                ForwardMetadataError,
            >(ForwardMetadataError::BodyTooLarge)
        }),
{
    if length is Some {
        text::lemma_dec_round_trip(length->0, usize::MAX as nat);
    }
}

/// A target with a scheme or an authority is not forwarded, and neither is one with a length
/// that is no number.
pub proof fn law_foreign_targets_are_refused(
    scheme: bool,
    authority: bool,
    path: Option<Seq<char>>,
    content_length: Option<Seq<char>>,
    max_body_bytes: nat,
)
    requires
        scheme || authority || (content_length is Some && text::parsed_unsigned(
            content_length->0,
            10,
            usize::MAX as nat,
        ) is None),
    ensures
        forwarded(Some((scheme, authority, path)), content_length, max_body_bytes) == Err::<
            (Seq<char>, Option<nat>),
            ForwardMetadataError,
        >(ForwardMetadataError::Invalid),
{
}

} // verus!
