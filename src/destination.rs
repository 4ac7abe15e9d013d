//! Destination resolution: from a server name, the answer of its well-known
//! document and the answer of an SRV lookup, to the URL that requests go to
//! and the `Host` header they carry.
//!
//! The lookups themselves are made by the caller; this module decides what
//! to look up and what the answers mean.

use vstd::prelude::*;
use vstd::string::*;

verus! {

/// Whether a host name carries an explicit port.
pub open spec fn has_port(host: Seq<char>) -> bool {
    host.contains(':')
}

/// A host name with the default federation port added where it has none.
pub open spec fn with_default_port(host: Seq<char>) -> Seq<char> {
    if has_port(host) {
        host
    } else {
        host + ":8448"@
    }
}

/// A name with every trailing `.` removed.
pub open spec fn trim_trailing_dots(s: Seq<char>) -> Seq<char>
    decreases s.len(),
{
    if s.len() > 0 && s.last() == '.' {
        trim_trailing_dots(s.drop_last())
    } else {
        s
    }
}

/// The host name that the SRV lookup is made for: the well-known delegation
/// where there is one, else the server name itself.
pub open spec fn delegated_host(name: Seq<char>, well_known: Option<Seq<char>>) -> Seq<char> {
    match well_known {
        Some(h) => h,
        None => name,
    }
}

/// The URL of the destination, for a delegated host name and the target of
/// the first SRV record, if any.
pub open spec fn destination_url(host: Seq<char>, srv_target: Option<Seq<char>>) -> Seq<char> {
    "https://"@ + match srv_target {
        Some(t) => trim_trailing_dots(t),
        None => with_default_port(host),
    }
}

/// Where a request to a server goes.
pub struct Destination {
    /// `https://` and the host, with a port where one is known.
    pub url: String,
    /// The `Host` header that the request carries, where it differs from the URL's.
    pub host: Option<String>,
}

pub open spec fn opt_view(o: Option<String>) -> Option<Seq<char>> {
    match o {
        Some(s) => Some(s@),
        None => None,
    }
}

/// Whether `host` holds a `:`.
pub fn has_explicit_port(host: &str) -> (r: bool)
    ensures
        r == has_port(host@),
{
    let n = host.unicode_len();
    let mut i: usize = 0;
    while i < n
        invariant
            n == host@.len(),
            i <= n,
            forall|j: int| 0 <= j < i ==> host@[j] != ':',
        decreases n - i,
    {
        if host.get_char(i) == ':' {
            assert(host@[i as int] == ':');
            return true;
        }
        i += 1;
    }
    false
}

/// `host` with `:8448` appended where it names no port.
pub fn add_default_port(host: &str) -> (r: String)
    ensures
        r@ == with_default_port(host@),
{
    let owned = String::from_str(host);
    if has_explicit_port(host) {
        owned
    } else {
        owned.concat(":8448")
    }
}

/// `name` without its trailing dots (an SRV target is a fully qualified name).
pub fn strip_trailing_dots(name: &str) -> (r: String)
    ensures
        r@ == trim_trailing_dots(name@),
{
    let mut k = name.unicode_len();
    assert(name@.subrange(0, k as int) =~= name@);
    while k > 0 && name.get_char(k - 1) == '.'
        invariant
            k <= name@.len(),
            trim_trailing_dots(name@) == trim_trailing_dots(name@.subrange(0, k as int)),
        decreases k,
    {
        assert(name@.subrange(0, k as int).drop_last() =~= name@.subrange(0, k - 1));
        k -= 1;
    }
    String::from_str(name.substring_char(0, k))
}

/// The host name to look up SRV records for.
pub fn delegated_hostname(name: &str, well_known: Option<String>) -> (r: String)
    ensures
        r@ == delegated_host(name@, opt_view(well_known)),
{
    match well_known {
        Some(h) => h,
        None => String::from_str(name),
    }
}

/// The name of the SRV records of a host.
pub fn srv_query_name(host: &str) -> (r: String)
    ensures
        r@ == "_matrix._tcp."@ + host@,
{
    String::from_str("_matrix._tcp.").concat(host)
}

/// The URL of a server's well-known delegation document.
pub fn well_known_url(name: &str) -> (r: String)
    ensures
        r@ == "https://"@ + name@ + "/.well-known/matrix/server"@,
{
    String::from_str("https://").concat(name).concat("/.well-known/matrix/server")
}

/// Where requests to the server `name` go, given what its well-known
/// document delegates to (`None` where it is missing or unreadable) and the
/// target of the first SRV record of the delegated host (`None` where there
/// is none). With an SRV record the `Host` header names the delegated host.
pub fn resolve_destination(name: &str, well_known: Option<String>, srv_target: Option<String>) -> (r: Destination)
    ensures
        r.url@ == destination_url(delegated_host(name@, opt_view(well_known)), opt_view(srv_target)),
        opt_view(r.host) == (match srv_target {
            Some(_) => Some(delegated_host(name@, opt_view(well_known))),
            None => None::<Seq<char>>,
        }),
{
    let host = delegated_hostname(name, well_known);
    match srv_target {
        Some(t) => {
            let target = strip_trailing_dots(t.as_str());
            Destination { url: String::from_str("https://").concat(target.as_str()), host: Some(host) }
        },
        None => {
            let with_port = add_default_port(host.as_str());
            Destination { url: String::from_str("https://").concat(with_port.as_str()), host: None }
        },
    }
}

/// The string member `m.server` of a well-known document, as `serde_json`
/// reads it from the document's text.
pub uninterp spec fn well_known_server(body: Seq<char>) -> Option<Seq<char>>;

/// Relies on `serde_json::from_str` into a `serde_json::Value`, then
/// `Value::get("m.server")` and `Value::as_str`: a function of the text,
/// `None` where the text is no JSON or the member is absent or no string.
#[verifier::external_body]
fn parse_well_known(body: &str) -> (r: Option<String>)
    ensures
        opt_view(r) == well_known_server(body@),
{
    let value: serde_json::Value = serde_json::from_str(body).ok()?;
    value.get("m.server")?.as_str().map(|s| s.to_owned())
}

/// The delegation that a fetched well-known document gives, if any.
pub open spec fn delegation(body: Option<Seq<char>>) -> Option<Seq<char>> {
    match body {
        Some(b) => well_known_server(b),
        None => None,
    }
}

/// The host name to look up SRV records for, from the text of the server's
/// well-known document (`None` where fetching it failed): its `m.server`
/// where it has one, else the server name itself.
pub fn host_from_well_known(name: &str, body: Option<String>) -> (r: String)
    ensures
        r@ == delegated_host(name@, delegation(opt_view(body))),
{
    let delegated = match body {
        Some(b) => parse_well_known(b.as_str()),
        None => None,
    };
    delegated_hostname(name, delegated)
}

} // verus!
