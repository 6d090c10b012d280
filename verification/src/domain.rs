//! Literal HTTPS URLs: the only URLs the configuration accepts for
//! downloads, canonicalized by the `url` crate.
use vstd::prelude::*;
use crate::text::{
    any_chars, chars_of, concat3, contains_char, contains_str, debug_str, debug_text, first_index,
    first_index_of, has_control, is_alnum, is_space, last_index, last_index_of, slice_to_vec, space,
    split, split_chars, trim, trim_chars, views, alnum, contains_control, contains_seq, eq_str,
};
use crate::weburl::{parse_url, url_parse, HOST_IPV4, HOST_IPV6, HOST_NONE};

verus! {

/// An absolute `https` URL with a host and no credentials or fragment, in
/// the `url` crate's serialization.
#[derive(Debug)]
pub struct HttpsUrl {
    serialized: String,
}

impl View for HttpsUrl {
    type V = Seq<char>;

    closed spec fn view(&self) -> Seq<char> {
        self.serialized@
    }
}

impl HttpsUrl {
    pub fn as_str(&self) -> (r: &str)
        ensures
            r@ == self@,
    {
        self.serialized.as_str()
    }
}

pub open spec fn prefix_error(value: Seq<char>) -> Seq<char> {
    "invalid HTTPS URL "@ + debug_text(value)
}

/// Text that a template engine would expand.
pub open spec fn has_substitution(value: Seq<char>) -> bool {
    value.contains('$') || contains_seq(value, "{{"@) || contains_seq(value, "{%"@)
}

pub open spec fn has_space(value: Seq<char>) -> bool {
    exists|i: int| 0 <= i < value.len() && is_space(#[trigger] value[i])
}

/// A DNS name: at most 253 characters, labels of at most 63 letters, digits
/// and hyphens, alphanumeric at both ends.
pub open spec fn valid_domain(domain: Seq<char>) -> bool {
    domain.len() > 0 && domain.len() <= 253 && forall|i: int|
        0 <= i < split(domain, '.').len() ==> #[trigger] valid_label(split(domain, '.')[i])
}

pub open spec fn valid_label(label: Seq<char>) -> bool {
    label.len() <= 63 && label.len() > 0 && is_alnum(label[0]) && is_alnum(label.last()) && forall|k: int|
        0 <= k < label.len() ==> (is_alnum(#[trigger] label[k]) || label[k] == '-')
}

/// The authority as written: what follows `://` up to the first `/`, `?` or `#`.
pub open spec fn raw_authority(value: Seq<char>) -> Seq<char> {
    match first_occurrence_of(value, "://"@) {
        None => Seq::empty(),
        Some(k) => {
            let rest = value.skip(k + 3);
            rest.take(authority_end(rest))
        },
    }
}

pub open spec fn raw_scheme(value: Seq<char>) -> Seq<char> {
    match first_occurrence_of(value, "://"@) {
        None => Seq::empty(),
        Some(k) => value.take(k),
    }
}

pub open spec fn first_occurrence_of(s: Seq<char>, t: Seq<char>) -> Option<int> {
    crate::text::first_occurrence(s, t)
}

/// The position of the first `/`, `?` or `#`, or the length.
pub open spec fn authority_end(rest: Seq<char>) -> int
    decreases rest.len(),
{
    if rest.len() == 0 {
        0
    } else if rest[0] == '/' || rest[0] == '?' || rest[0] == '#' {
        0
    } else {
        1 + authority_end(rest.drop_first())
    }
}

/// The host as written and whether an empty port follows it.
pub open spec fn raw_host(authority: Seq<char>) -> (Seq<char>, bool) {
    let host_port = match last_index(authority, '@') {
        Some(k) => authority.skip(k + 1),
        None => authority,
    };
    if host_port.len() > 0 && host_port[0] == '[' {
        match first_index(host_port.drop_first(), ']') {
            Some(k) => (host_port.take(k + 2), host_port.skip(k + 2) == ":"@),
            None => (host_port, false),
        }
    } else {
        match last_index(host_port, ':') {
            Some(k) => (host_port.take(k), k + 1 == host_port.len()),
            None => (host_port, false),
        }
    }
}

/// The rule that a text breaks to be no literal HTTPS URL.
#[derive(Clone, Copy, Debug, PartialEq, Eq, Structural)]
pub enum UrlFault {
    /// empty or blank
    Empty,
    /// whitespace, a control character, a backslash or a substitution
    NotLiteral,
    /// `url::Url::parse` refuses it
    Unparsable,
    /// not `https`, no host, an odd host or port, credentials or a fragment
    NotHttps,
}

/// The rules on a literal HTTPS URL, in the order they are checked: the
/// canonical serialization where all hold, else the first rule broken.
pub open spec fn https_url_outcome(value: Seq<char>) -> Result<Seq<char>, UrlFault> {
    if trim(value).len() == 0 {
        Err(UrlFault::Empty)
    } else if has_space(value) || has_control(value) || value.contains('\\') || has_substitution(value) {
        Err(UrlFault::NotLiteral)
    } else {
        match url_parse(value) {
            None => Err(UrlFault::Unparsable),
            Some(u) => {
                let authority = raw_authority(value);
                let (host, empty_port) = raw_host(authority);
                let invalid_host = if u.host_kind == HOST_NONE {
                    true
                } else if u.host_kind == HOST_IPV4 {
                    host != u.host
                } else if u.host_kind == HOST_IPV6 {
                    false
                } else {
                    !valid_domain(u.host)
                };
                if raw_scheme(value) != "https"@ || u.scheme != "https"@ || authority.len() == 0
                    || authority.contains('%') || empty_port || invalid_host || u.username.len() > 0
                    || u.has_password || authority.contains('@') || u.has_fragment {
                    Err(UrlFault::NotHttps)
                } else {
                    Ok(u.serialized)
                }
            },
        }
    }
}

pub open spec fn fault_detail(f: UrlFault) -> Seq<char> {
    match f {
        UrlFault::Empty => "; must be a non-empty string"@,
        UrlFault::NotLiteral => "; must be literal and contain no whitespace or substitutions"@,
        UrlFault::Unparsable => "; must be a valid absolute URL"@,
        UrlFault::NotHttps => "; must use HTTPS with a non-empty host and no credentials or fragment"@,
    }
}

/// What `HttpsUrl::parse` gives: the serialization, or the message that
/// quotes the text and names the rule broken.
pub open spec fn https_url_result(value: Seq<char>) -> Result<Seq<char>, Seq<char>> {
    match https_url_outcome(value) {
        Ok(s) => Ok(s),
        Err(f) => Err(prefix_error(value) + fault_detail(f)),
    }
}

fn fault_text(f: UrlFault) -> (r: &'static str)
    ensures
        r@ == fault_detail(f),
{
    match f {
        UrlFault::Empty => "; must be a non-empty string",
        UrlFault::NotLiteral => "; must be literal and contain no whitespace or substitutions",
        UrlFault::Unparsable => "; must be a valid absolute URL",
        UrlFault::NotHttps => "; must use HTTPS with a non-empty host and no credentials or fragment",
    }
}

fn valid_label_exec(label: &[char]) -> (r: bool)
    ensures
        r == valid_label(label@),
{
    if label.len() > 63 || label.len() == 0 || !alnum(label[0]) || !alnum(label[label.len() - 1]) {
        return false;
    }
    let mut k: usize = 0;
    while k < label.len()
        invariant
            k <= label@.len(),
            forall|j: int| 0 <= j < k ==> (is_alnum(#[trigger] label@[j]) || label@[j] == '-'),
        decreases label@.len() - k,
    {
        if !(alnum(label[k]) || label[k] == '-') {
            return false;
        }
        k += 1;
    }
    true
}

fn valid_domain_host(domain: &[char]) -> (r: bool)
    ensures
        r == valid_domain(domain@),
{
    if domain.len() == 0 || domain.len() > 253 {
        return false;
    }
    let labels = split_chars(domain, '.');
    let mut i: usize = 0;
    while i < labels.len()
        invariant
            i <= labels@.len(),
            views(labels@) == split(domain@, '.'),
            domain@.len() > 0 && domain@.len() <= 253,
            forall|j: int| 0 <= j < i ==> #[trigger] valid_label(split(domain@, '.')[j]),
        decreases labels@.len() - i,
    {
        assert(split(domain@, '.')[i as int] == labels@[i as int]@);
        if !valid_label_exec(&labels[i]) {
            return false;
        }
        i += 1;
    }
    true
}

fn authority_of(value: &[char]) -> (r: (Vec<char>, Vec<char>))
    ensures
        r.0@ == raw_scheme(value@),
        r.1@ == raw_authority(value@),
{
    let sep = chars_of("://");
    match crate::text::find_seq(value, &sep) {
        None => {
            proof {
                assert(crate::text::first_occurrence(value@, "://"@) is None);
            }
            (Vec::new(), Vec::new())
        },
        Some(k) => {
            proof {
                crate::text::lemma_first_occurrence_at(value@, "://"@, k as int);
                reveal_strlit("://");
            }
            let scheme = slice_to_vec(value, 0, k);
            assert(scheme@ =~= value@.take(k as int));
            let n = value.len();
            let rest = slice_to_vec(value, k + 3, n);
            assert(rest@ =~= value@.skip(k + 3));
            let mut e: usize = 0;
            assert(rest@.skip(0) =~= rest@);
            while e < rest.len() && !(rest[e] == '/' || rest[e] == '?' || rest[e] == '#')
                invariant
                    e <= rest@.len(),
                    authority_end(rest@) == e + authority_end(rest@.skip(e as int)),
                decreases rest@.len() - e,
            {
                assert(rest@.skip(e as int).drop_first() =~= rest@.skip(e + 1));
                e += 1;
            }
            let authority = slice_to_vec(&rest, 0, e);
            assert(authority@ =~= rest@.take(e as int));
            (scheme, authority)
        },
    }
}

fn host_of(authority: &[char]) -> (r: (Vec<char>, bool))
    ensures
        (r.0@, r.1) == raw_host(authority@),
{
    let host_port = match last_index_of(authority, '@') {
        Some(k) => {
            let n = authority.len();
            assert(k < n);
            let after: usize = k + 1;
            let hp = slice_to_vec(authority, after, n);
            assert(hp@ =~= authority@.skip(k + 1));
            hp
        },
        None => slice_to_vec(authority, 0, authority.len()),
    };
    assert(host_port@ =~= (match last_index(authority@, '@') {
        Some(k) => authority@.skip(k + 1),
        None => authority@,
    }));
    if host_port.len() > 0 && host_port[0] == '[' {
        let rest = slice_to_vec(&host_port, 1, host_port.len());
        assert(rest@ =~= host_port@.drop_first());
        match first_index_of(&rest, ']') {
            Some(k) => {
                let host = slice_to_vec(&host_port, 0, k + 2);
                let suffix = slice_to_vec(&host_port, k + 2, host_port.len());
                assert(host@ =~= host_port@.take(k + 2));
                assert(suffix@ =~= host_port@.skip(k + 2));
                (host, eq_str(&suffix, ":"))
            },
            None => (host_port, false),
        }
    } else {
        match last_index_of(&host_port, ':') {
            Some(k) => {
                let host = slice_to_vec(&host_port, 0, k);
                assert(host@ =~= host_port@.take(k as int));
                (host, k + 1 == host_port.len())
            },
            None => (host_port, false),
        }
    }
}

impl HttpsUrl {
    /// Accepts a literal HTTPS URL and keeps its canonical serialization;
    /// a refused text is answered with the rule it breaks.
    pub fn check(value: &str) -> (r: Result<HttpsUrl, UrlFault>)
        ensures
            match r {
                Ok(u) => https_url_outcome(value@) == Ok::<Seq<char>, UrlFault>(u@),
                Err(f) => https_url_outcome(value@) == Err::<Seq<char>, UrlFault>(f),
            },
    {
        let v = chars_of(value);
        if trim_chars(&v).len() == 0 {
            return Err(UrlFault::Empty);
        }
        let ws = |c: char| -> (b: bool)
            ensures
                b == is_space(c),
            { space(c) };
        let spaced = any_chars(&v, ws, Ghost(|c: char| is_space(c)));
        if spaced || contains_control(value) || contains_char(&v, '\\') || contains_char(&v, '$')
            || contains_str(&v, "{{") || contains_str(&v, "{%") {
            return Err(UrlFault::NotLiteral);
        }
        let parsed = match parse_url(value) {
            None => {
                return Err(UrlFault::Unparsable);
            },
            Some(p) => p,
        };
        let (scheme, authority) = authority_of(&v);
        let (host, empty_port) = host_of(&authority);
        let invalid_host = if parsed.host_kind == HOST_NONE {
            true
        } else if parsed.host_kind == HOST_IPV4 {
            let h = chars_of(parsed.host.as_str());
            !crate::text::eq_chars(&host, &h)
        } else if parsed.host_kind == HOST_IPV6 {
            false
        } else {
            !valid_domain_host(&chars_of(parsed.host.as_str()))
        };
        let scheme_ok = eq_str(&scheme, "https") && eq_str(&chars_of(parsed.scheme.as_str()), "https");
        if !scheme_ok || authority.len() == 0 || contains_char(&authority, '%') || empty_port || invalid_host
            || chars_of(parsed.username.as_str()).len() > 0 || parsed.has_password || contains_char(
            &authority,
            '@',
        ) || parsed.has_fragment {
            return Err(UrlFault::NotHttps);
        }
        Ok(HttpsUrl { serialized: parsed.serialized })
    }

    /// Accepts a literal HTTPS URL and keeps its canonical serialization.
    pub fn parse(value: &str) -> (r: Result<HttpsUrl, String>)
        ensures
            match r {
                Ok(u) => https_url_result(value@) == Ok::<Seq<char>, Seq<char>>(u@),
                Err(e) => https_url_result(value@) == Err::<Seq<char>, Seq<char>>(e@),
            },
    {
        match HttpsUrl::check(value) {
            Ok(u) => Ok(u),
            Err(f) => {
                let quoted = debug_str(value);
                Err(concat3("invalid HTTPS URL ", quoted.as_str(), fault_text(f)))
            },
        }
    }
}

} // verus!
