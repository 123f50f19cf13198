//! SSRF guard for cloud `base_url` values: plaintext schemes, loopback,
//! link-local and private-range hosts are refused unless the operator opts
//! in with `[server].allow_plaintext_upstream`.

use vstd::prelude::*;
use crate::config::{BackendType, ConfigError, ConfigIssue, Issue};
use crate::text::{push_str, str_eq, str_eq_ignore_case, to_string, eq_ignore_case};

verus! {

/// The host of a parsed URL.
pub enum UrlHost {
    Missing,
    Ipv4([u8; 4]),
    Ipv6([u16; 8]),
    Domain(String),
}

/// What the gateway reads from a parsed URL.
pub struct ParsedUrl {
    pub scheme: String,
    pub host: UrlHost,
}

/// The result of `url::Url::parse` on a text, as
/// `Ok((scheme, host kind, address parts, domain))` or `Err(message)`.
/// Host kind: 0 = none, 1 = domain, 4 = IPv4 (parts are the octets),
/// 6 = IPv6 (parts are the eight segments).
pub uninterp spec fn url_parse(text: Seq<char>) -> Result<(Seq<char>, int, Seq<int>, Seq<char>), Seq<char>>;

pub open spec fn host_kind(h: UrlHost) -> int {
    match h {
        UrlHost::Missing => 0,
        UrlHost::Domain(_) => 1,
        UrlHost::Ipv4(_) => 4,
        UrlHost::Ipv6(_) => 6,
    }
}

pub open spec fn host_parts(h: UrlHost) -> Seq<int> {
    match h {
        UrlHost::Ipv4(o) => o@.map_values(|x: u8| x as int),
        UrlHost::Ipv6(s) => s@.map_values(|x: u16| x as int),
        _ => Seq::empty(),
    }
}

pub open spec fn host_domain(h: UrlHost) -> Seq<char> {
    match h {
        UrlHost::Domain(d) => d@,
        _ => Seq::empty(),
    }
}

pub open spec fn parsed_view(r: Result<ParsedUrl, String>) -> Result<(Seq<char>, int, Seq<int>, Seq<char>), Seq<char>> {
    match r {
        Ok(u) => Ok((u.scheme@, host_kind(u.host), host_parts(u.host), host_domain(u.host))),
        Err(e) => Err(e@),
    }
}

/// `url::Url::parse`: parses an absolute URL. The result, read back as
/// scheme and host (IPv4 octets, IPv6 segments or domain text), or the
/// parse error's message, is a function of the text alone.
#[verifier::external_body]
pub(crate) fn parse_url(text: &str) -> (r: Result<ParsedUrl, String>)
    ensures
        parsed_view(r) == url_parse(text@),
{
    let u = url::Url::parse(text).map_err(|e| e.to_string())?;
    let host = match u.host() {
        None => UrlHost::Missing,
        Some(url::Host::Ipv4(ip)) => UrlHost::Ipv4(ip.octets()),
        Some(url::Host::Ipv6(ip)) => UrlHost::Ipv6(ip.segments()),
        Some(url::Host::Domain(d)) => UrlHost::Domain(d.to_string()),
    };
    Ok(ParsedUrl { scheme: u.scheme().to_string(), host })
}

/// Provider-default base URLs of the cloud backends.
pub open spec fn provider_default(backend: BackendType) -> Option<Seq<char>> {
    match backend {
        BackendType::Openai => Some("https://api.openai.com/v1"@),
        BackendType::Groq => Some("https://api.groq.com/openai/v1"@),
        BackendType::Anthropic => Some("https://api.anthropic.com/v1"@),
        BackendType::Local => None,
        BackendType::Hf => None,
    }
}

/// Known provider-default base URLs, used when a cloud model leaves
/// `base_url` unset.
pub fn provider_default_base_url(backend: &BackendType) -> (r: Option<&'static str>)
    ensures
        match r {
            Some(s) => provider_default(*backend) == Some(s@),
            None => provider_default(*backend) is None,
        },
{
    match backend {
        BackendType::Openai => Some("https://api.openai.com/v1"),
        BackendType::Groq => Some("https://api.groq.com/openai/v1"),
        BackendType::Anthropic => Some("https://api.anthropic.com/v1"),
        BackendType::Local => None,
        BackendType::Hf => None,
    }
}

/// fc00::/7 (unique local) or fe80::/10 (link local), by the first segment.
pub open spec fn ipv6_private(seg0: int) -> bool {
    (0xfc00 <= seg0 <= 0xfdff) || (0xfe80 <= seg0 <= 0xfebf)
}

/// True when an IPv6 address is in the unique-local (fc00::/7) or
/// link-local (fe80::/10) range.
pub fn is_ipv6_private(segments: [u16; 8]) -> (r: bool)
    ensures
        r == ipv6_private(segments@[0] as int),
{
    let seg = segments[0];
    let is_ula = (seg & 0xfe00) == 0xfc00;
    let is_link_local = (seg & 0xffc0) == 0xfe80;
    assert(((seg & 0xfe00) == 0xfc00) == (0xfc00 <= seg && seg <= 0xfdff)) by (bit_vector);
    assert(((seg & 0xffc0) == 0xfe80) == (0xfe80 <= seg && seg <= 0xfebf)) by (bit_vector);
    is_ula || is_link_local
}

/// Loopback (127/8), link-local (169.254/16), private (10/8, 172.16/12,
/// 192.168/16) or unspecified (0.0.0.0) IPv4 address.
pub open spec fn ipv4_dangerous(o: Seq<int>) -> bool {
    ||| o[0] == 127
    ||| (o[0] == 169 && o[1] == 254)
    ||| o[0] == 10
    ||| (o[0] == 172 && 16 <= o[1] <= 31)
    ||| (o[0] == 192 && o[1] == 168)
    ||| (o[0] == 0 && o[1] == 0 && o[2] == 0 && o[3] == 0)
}

/// Loopback (::1), unspecified (::), unique-local or link-local IPv6 address.
pub open spec fn ipv6_dangerous(s: Seq<int>) -> bool {
    let zero_prefix = s[0] == 0 && s[1] == 0 && s[2] == 0 && s[3] == 0 && s[4] == 0 && s[5] == 0 && s[6] == 0;
    ||| (zero_prefix && s[7] == 1)
    ||| (zero_prefix && s[7] == 0)
    ||| ipv6_private(s[0])
}

/// A host that must not be reached without the plaintext opt-in.
pub open spec fn host_dangerous(kind: int, parts: Seq<int>, domain: Seq<char>) -> bool {
    if kind == 4 {
        ipv4_dangerous(parts)
    } else if kind == 6 {
        ipv6_dangerous(parts)
    } else {
        eq_ignore_case(domain, "localhost"@) || domain.len() == 0
    }
}

fn dangerous(host: &UrlHost) -> (r: bool)
    ensures
        host_kind(*host) != 0 ==> r == host_dangerous(host_kind(*host), host_parts(*host), host_domain(*host)),
{
    match host {
        UrlHost::Ipv4(o) => {
            let r = o[0] == 127 || (o[0] == 169 && o[1] == 254) || o[0] == 10 || (o[0] == 172 && 16 <= o[1]
                && o[1] <= 31) || (o[0] == 192 && o[1] == 168) || (o[0] == 0 && o[1] == 0 && o[2] == 0
                && o[3] == 0);
            r
        },
        UrlHost::Ipv6(s) => {
            let zero_prefix = s[0] == 0 && s[1] == 0 && s[2] == 0 && s[3] == 0 && s[4] == 0 && s[5] == 0
                && s[6] == 0;
            (zero_prefix && s[7] == 1) || (zero_prefix && s[7] == 0) || is_ipv6_private(*s)
        },
        UrlHost::Domain(d) => str_eq_ignore_case(d.as_str(), "localhost") || d.as_str().unicode_len() == 0,
        UrlHost::Missing => false,
    }
}

pub open spec fn unsupported_scheme_reason(scheme: Seq<char>) -> Seq<char> {
    "unsupported scheme '"@ + scheme + "' (only http and https are allowed)"@
}

/// What `validate_upstream_url` reports for a model id and URL.
pub open spec fn upstream_issue(id: Seq<char>, url: Seq<char>, allow_plaintext: bool) -> Option<Issue> {
    match url_parse(url) {
        Err(reason) => Some(ConfigIssue::InvalidBaseUrl { id, reason }),
        Ok((scheme, kind, parts, domain)) => {
            if scheme != "https"@ && scheme != "http"@ {
                Some(ConfigIssue::InvalidBaseUrl { id, reason: unsupported_scheme_reason(scheme) })
            } else if scheme == "http"@ && !allow_plaintext {
                Some(ConfigIssue::PlaintextUpstreamForbidden { id, url })
            } else if kind == 0 {
                Some(ConfigIssue::InvalidBaseUrl { id, reason: "URL has no host component"@ })
            } else if host_dangerous(kind, parts, domain) && !allow_plaintext {
                Some(ConfigIssue::PlaintextUpstreamForbidden { id, url })
            } else {
                None
            }
        },
    }
}

/// Reject plaintext schemes, loopback, link-local and private-range hosts
/// unless `allow_plaintext` is set; reject unparsable URLs, schemes other
/// than http/https, and URLs without a host.
pub fn validate_upstream_url(id: &str, url_str: &str, allow_plaintext: bool) -> (r: Result<(), ConfigError>)
    ensures
        match upstream_issue(id@, url_str@, allow_plaintext) {
            None => r is Ok,
            Some(i) => r matches Err(e) && e.issue() == i,
        },
{
    let parsed = match parse_url(url_str) {
        Ok(p) => p,
        Err(reason) => return Err(ConfigError::InvalidBaseUrl { id: to_string(id), reason }),
    };
    let is_https = str_eq(parsed.scheme.as_str(), "https");
    let is_http = str_eq(parsed.scheme.as_str(), "http");
    if !is_https && !is_http {
        let mut reason = to_string("unsupported scheme '");
        push_str(&mut reason, parsed.scheme.as_str());
        push_str(&mut reason, "' (only http and https are allowed)");
        return Err(ConfigError::InvalidBaseUrl { id: to_string(id), reason });
    }
    if is_http && !allow_plaintext {
        return Err(ConfigError::PlaintextUpstreamForbidden { id: to_string(id), url: to_string(url_str) });
    }
    match &parsed.host {
        UrlHost::Missing => {
            return Err(ConfigError::InvalidBaseUrl {
                id: to_string(id),
                reason: to_string("URL has no host component"),
            });
        },
        _ => {},
    }
    if dangerous(&parsed.host) && !allow_plaintext {
        return Err(ConfigError::PlaintextUpstreamForbidden { id: to_string(id), url: to_string(url_str) });
    }
    Ok(())
}

/// Without the plaintext opt-in an upstream is reached only over https and
/// only at a public address: a plain-http URL, and an IPv4 host that is
/// loopback, link-local, private or unspecified, are refused as plaintext
/// upstreams. With the opt-in, any http or https URL with a host passes.
pub proof fn law_upstream_needs_https_public(
    id: Seq<char>,
    url: Seq<char>,
    scheme: Seq<char>,
    kind: int,
    parts: Seq<int>,
    domain: Seq<char>,
    allow_plaintext: bool,
)
    requires
        url_parse(url) == Ok::<(Seq<char>, int, Seq<int>, Seq<char>), Seq<char>>((scheme, kind, parts, domain)),
    ensures
        scheme == "http"@ && !allow_plaintext ==> upstream_issue(id, url, allow_plaintext) == Some::<Issue>(
            ConfigIssue::PlaintextUpstreamForbidden { id, url },
        ),
        scheme == "https"@ && kind == 4 && !allow_plaintext && (parts[0] == 127 || parts[0] == 10
            || (parts[0] == 169 && parts[1] == 254) || (parts[0] == 192 && parts[1] == 168)
            || (parts[0] == 172 && 16 <= parts[1] <= 31)) ==> upstream_issue(id, url, allow_plaintext) == Some::<Issue>(
            ConfigIssue::PlaintextUpstreamForbidden { id, url },
        ),
        scheme == "https"@ && kind == 4 && parts[0] == 8 ==> upstream_issue(id, url, allow_plaintext) is None,
        allow_plaintext && (scheme == "https"@ || scheme == "http"@) && kind != 0 ==> upstream_issue(
            id,
            url,
            allow_plaintext,
        ) is None,
{
    reveal_strlit("https");
    reveal_strlit("http");
    assert("https"@ != "http"@) by {
        assert("https"@.len() != "http"@.len());
    }
}

} // verus!
