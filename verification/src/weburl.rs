//! The fields of a parsed URL, as the `url` crate (WHATWG URL parsing)
//! reports them, held as plain values.
use vstd::prelude::*;
use url::Host;

verus! {

/// No host.
pub const HOST_NONE: u8 = 0;

/// A domain name host (`url::Host::Domain`), in its serialized, punycode form.
pub const HOST_DOMAIN: u8 = 1;

/// An IPv4 address host (`url::Host::Ipv4`), written in dotted decimal.
pub const HOST_IPV4: u8 = 2;

/// An IPv6 address host (`url::Host::Ipv6`).
pub const HOST_IPV6: u8 = 3;

/// The parts of a parsed URL that the rules of this library read.
#[derive(Debug)]
pub struct UrlParts {
    pub scheme: String,
    pub host_kind: u8,
    pub host: String,
    pub username: String,
    pub has_password: bool,
    pub has_query: bool,
    pub has_fragment: bool,
    pub path: String,
    pub serialized: String,
}

pub struct UrlPartsView {
    pub scheme: Seq<char>,
    pub host_kind: u8,
    pub host: Seq<char>,
    pub username: Seq<char>,
    pub has_password: bool,
    pub has_query: bool,
    pub has_fragment: bool,
    pub path: Seq<char>,
    pub serialized: Seq<char>,
}

impl View for UrlParts {
    type V = UrlPartsView;

    open spec fn view(&self) -> UrlPartsView {
        UrlPartsView {
            scheme: self.scheme@,
            host_kind: self.host_kind,
            host: self.host@,
            username: self.username@,
            has_password: self.has_password,
            has_query: self.has_query,
            has_fragment: self.has_fragment,
            path: self.path@,
            serialized: self.serialized@,
        }
    }
}

/// What `url::Url::parse` gives for `input`: `None` where it refuses the
/// text, else the fields of the parsed URL.
pub uninterp spec fn url_parse(input: Seq<char>) -> Option<UrlPartsView>;

/// The serialization of `input`, parsed by `url::Url::parse`, after
/// `Url::set_path(path)`; `None` where `input` does not parse.
pub uninterp spec fn url_with_path(input: Seq<char>, path: Seq<char>) -> Option<Seq<char>>;

/// Parses `input` with `url::Url::parse` and reads its scheme, host (kind
/// and text), username, whether a password, query or fragment is present,
/// its path and its serialization. The contract claims only that the result
/// is the fixed function `url_parse` of the input: the WHATWG parsing rules
/// themselves are not restated.
#[verifier::external_body]
pub(crate) fn parse_url(input: &str) -> (r: Option<UrlParts>)
    ensures
        match r {
            Some(p) => url_parse(input@) == Some(p@),
            None => url_parse(input@) is None,
        },
{
    let u = url::Url::parse(input).ok()?;
    let (host_kind, host) = match u.host() {
        None => (HOST_NONE, "".into()),
        Some(Host::Domain(d)) => (HOST_DOMAIN, d.into()),
        Some(Host::Ipv4(a)) => (HOST_IPV4, a.to_string()),
        Some(Host::Ipv6(a)) => (HOST_IPV6, a.to_string()),
    };
    Some(UrlParts {
        scheme: u.scheme().into(), host_kind, host, username: u.username().into(),
        has_password: u.password().is_some(), has_query: u.query().is_some(),
        has_fragment: u.fragment().is_some(), path: u.path().into(), serialized: u.into(),
    })
}

/// Parses `input` with `url::Url::parse`, replaces its path with
/// `Url::set_path(path)` and returns the serialization. The contract claims
/// only that the result is the fixed function `url_with_path` of the two
/// arguments.
#[verifier::external_body]
pub(crate) fn replace_path(input: &str, path: &str) -> (r: Option<String>)
    ensures
        match r {
            Some(s) => url_with_path(input@, path@) == Some(s@),
            None => url_with_path(input@, path@) is None,
        },
{
    let mut u = url::Url::parse(input).ok()?;
    u.set_path(path);
    Some(u.into())
}

/// The serialization of `input`, parsed by `url::Url::parse`, after its
/// last path segment is replaced by `segment` (`path_segments_mut`, then
/// `pop` and `push`); `None` where `input` does not parse or cannot be a
/// base.
pub uninterp spec fn url_with_last_segment(input: Seq<char>, segment: Seq<char>) -> Option<Seq<char>>;

/// Parses `input` with `url::Url::parse`, replaces the last segment of its
/// path with `segment` (which `push` percent-encodes as needed) and returns
/// the serialization. The contract claims only that the result is the fixed
/// function `url_with_last_segment` of the two arguments.
#[verifier::external_body]
pub(crate) fn replace_last_segment(input: &str, segment: &str) -> (r: Option<String>)
    ensures
        match r {
            Some(s) => url_with_last_segment(input@, segment@) == Some(s@),
            None => url_with_last_segment(input@, segment@) is None,
        },
{
    let mut u = url::Url::parse(input).ok()?;
    u.path_segments_mut().ok()?.pop().push(segment);
    Some(u.into())
}

} // verus!
