use vstd::prelude::*;
use vstd::string::StringExecFns;

use crate::text::{eq_ignoring_ascii_case, starts_with, text_eq_ignoring_ascii_case};

verus! {

broadcast use vstd::string::group_string_axioms;

/// The HTTP methods that requests are forwarded upstream with.
#[derive(Clone, Copy, Debug, PartialEq, Eq, Structural)]
pub enum ProxyMethod {
    Get,
    Post,
    Put,
    Delete,
    Head,
    Options,
    Patch,
    Trace,
}

/// The method a request is forwarded with: the one it names among POST, PUT,
/// DELETE, HEAD, OPTIONS, PATCH and TRACE, and GET for any other name.
pub open spec fn method_for(name: Seq<char>) -> ProxyMethod {
    if name == "POST"@ {
        ProxyMethod::Post
    } else if name == "PUT"@ {
        ProxyMethod::Put
    } else if name == "DELETE"@ {
        ProxyMethod::Delete
    } else if name == "HEAD"@ {
        ProxyMethod::Head
    } else if name == "OPTIONS"@ {
        ProxyMethod::Options
    } else if name == "PATCH"@ {
        ProxyMethod::Patch
    } else if name == "TRACE"@ {
        ProxyMethod::Trace
    } else {
        ProxyMethod::Get
    }
}

/// The name of a method.
pub open spec fn method_name(method: ProxyMethod) -> Seq<char> {
    match method {
        ProxyMethod::Get => "GET"@,
        ProxyMethod::Post => "POST"@,
        ProxyMethod::Put => "PUT"@,
        ProxyMethod::Delete => "DELETE"@,
        ProxyMethod::Head => "HEAD"@,
        ProxyMethod::Options => "OPTIONS"@,
        ProxyMethod::Patch => "PATCH"@,
        ProxyMethod::Trace => "TRACE"@,
    }
}

/// The method to forward a request with, from the name of its own method.
pub fn proxy_method(method: &str) -> (forwarded: ProxyMethod)
    ensures
        forwarded == method_for(method@),
{
    if crate::text::same_text(method, "POST") {
        ProxyMethod::Post
    } else if crate::text::same_text(method, "PUT") {
        ProxyMethod::Put
    } else if crate::text::same_text(method, "DELETE") {
        ProxyMethod::Delete
    } else if crate::text::same_text(method, "HEAD") {
        ProxyMethod::Head
    } else if crate::text::same_text(method, "OPTIONS") {
        ProxyMethod::Options
    } else if crate::text::same_text(method, "PATCH") {
        ProxyMethod::Patch
    } else if crate::text::same_text(method, "TRACE") {
        ProxyMethod::Trace
    } else {
        ProxyMethod::Get
    }
}

impl ProxyMethod {
    /// The method's name, as it goes on the wire.
    pub fn as_str(&self) -> (name: &'static str)
        ensures
            name@ == method_name(*self),
    {
        match self {
            ProxyMethod::Get => "GET",
            ProxyMethod::Post => "POST",
            ProxyMethod::Put => "PUT",
            ProxyMethod::Delete => "DELETE",
            ProxyMethod::Head => "HEAD",
            ProxyMethod::Options => "OPTIONS",
            ProxyMethod::Patch => "PATCH",
            ProxyMethod::Trace => "TRACE",
        }
    }
}

/// The address a request for `uri` is forwarded to: the upstream as given,
/// with `http://` put in front unless it already names `http://` or `https://`,
/// followed by the request's URI.
pub open spec fn upstream_url_spec(upstream: Seq<char>, uri: Seq<char>) -> Seq<char> {
    let scheme = if "http://"@.is_prefix_of(upstream) || "https://"@.is_prefix_of(upstream) {
        Seq::<char>::empty()
    } else {
        "http://"@
    };
    scheme + upstream + uri
}

/// The address to forward a request for `uri` to.
pub fn upstream_url(upstream: &str, uri: &str) -> (url: String)
    ensures
        url@ == upstream_url_spec(upstream@, uri@),
{
    let has_scheme = starts_with(upstream, "http://") || starts_with(upstream, "https://");
    let mut url = String::new();
    if !has_scheme {
        url.append("http://");
    }
    url.append(upstream);
    url.append(uri);
    assert(url@ =~= upstream_url_spec(upstream@, uri@));
    url
}

/// Where a request goes when the script leaves it unhandled: nowhere when no
/// upstream is configured, else the upstream address for its URI.
pub fn proxy_target(upstream: &Option<String>, uri: &str) -> (target: Option<String>)
    ensures
        match (upstream, target) {
            (Some(u), Some(t)) => t@ == upstream_url_spec(u@, uri@),
            (None, None) => true,
            _ => false,
        },
{
    match upstream {
        Some(u) => Some(upstream_url(u.as_str(), uri)),
        None => None,
    }
}

/// Whether a request header named `name` is passed on upstream: all are but
/// `host` and `connection`, in any case.
pub open spec fn forwards_header_spec(name: Seq<char>) -> bool {
    !eq_ignoring_ascii_case(name, "host"@) && !eq_ignoring_ascii_case(name, "connection"@)
}

/// Whether a request header is passed on upstream.
pub fn forwards_header(name: &str) -> (forwarded: bool)
    ensures
        forwarded == forwards_header_spec(name@),
{
    !text_eq_ignoring_ascii_case(name, "host") && !text_eq_ignoring_ascii_case(name, "connection")
}

/// The codes that an HTTP status can carry: three digits, from 100 to 999.
pub open spec fn is_status_code(code: u16) -> bool {
    100 <= code <= 999
}

/// The status a response is sent with: the given code where it is a valid
/// status, else 200 OK.
pub fn status_or_ok(code: u16) -> (status: u16)
    ensures
        status == if is_status_code(code) {
            code
        } else {
            200
        },
{
    if 100 <= code && code <= 999 {
        code
    } else {
        200
    }
}


/// Every upstream address names a scheme, `http://` or `https://`.
pub proof fn law_upstream_url_has_scheme(upstream: Seq<char>, uri: Seq<char>)
    ensures
        "http://"@.is_prefix_of(upstream_url_spec(upstream, uri)) || "https://"@.is_prefix_of(
            upstream_url_spec(upstream, uri),
        ),
{
    let url = upstream_url_spec(upstream, uri);
    let rest = upstream + uri;
    if "http://"@.is_prefix_of(upstream) {
        assert(url =~= rest);
        assert(rest.subrange(0, "http://"@.len() as int) =~= upstream.subrange(
            0,
            "http://"@.len() as int,
        ));
    } else if "https://"@.is_prefix_of(upstream) {
        assert(url =~= rest);
        assert(rest.subrange(0, "https://"@.len() as int) =~= upstream.subrange(
            0,
            "https://"@.len() as int,
        ));
    } else {
        assert(url =~= "http://"@ + rest);
        assert(url.subrange(0, "http://"@.len() as int) =~= "http://"@);
    }
}

/// An upstream that already names its scheme is used as given.
pub proof fn law_scheme_kept(upstream: Seq<char>, uri: Seq<char>)
    requires
        "http://"@.is_prefix_of(upstream) || "https://"@.is_prefix_of(upstream),
    ensures
        upstream_url_spec(upstream, uri) == upstream + uri,
{
    assert(upstream_url_spec(upstream, uri) =~= upstream + uri);
}

/// Each forwarded method is forwarded under its own name.
pub proof fn law_method_name_round_trip(method: ProxyMethod)
    ensures
        method_for(method_name(method)) == method,
{
    reveal_strlit("GET");
    reveal_strlit("POST");
    reveal_strlit("PUT");
    reveal_strlit("DELETE");
    reveal_strlit("HEAD");
    reveal_strlit("OPTIONS");
    reveal_strlit("PATCH");
    reveal_strlit("TRACE");
    let names = seq!["POST"@, "PUT"@, "DELETE"@, "HEAD"@, "OPTIONS"@, "PATCH"@, "TRACE"@, "GET"@];
    assert(names[0][0] == 'P' && names[0][1] == 'O');
    assert(names[1][0] == 'P' && names[1][1] == 'U');
    assert(names[2][0] == 'D');
    assert(names[3][0] == 'H');
    assert(names[4][0] == 'O');
    assert(names[5][0] == 'P' && names[5][1] == 'A');
    assert(names[6][0] == 'T');
    assert(names[7][0] == 'G');
    assert(forall|i: int, j: int| 0 <= i < 8 && 0 <= j < 8 && i != j ==> names[i] != names[j]) by {
        assert forall|i: int, j: int| 0 <= i < 8 && 0 <= j < 8 && i != j implies names[i] != names[j] by {
            if names[i] == names[j] {
                assert(names[i][0] == names[j][0]);
                assert(names[i][1] == names[j][1]);
            }
        }
    }
}

/// A method outside the seven named ones is forwarded as GET.
pub proof fn law_other_methods_become_get(name: Seq<char>)
    requires
        name != "POST"@,
        name != "PUT"@,
        name != "DELETE"@,
        name != "HEAD"@,
        name != "OPTIONS"@,
        name != "PATCH"@,
        name != "TRACE"@,
    ensures
        method_for(name) == ProxyMethod::Get,
{
}

/// The `host` and `connection` headers are never passed on, whatever their case.
pub proof fn law_hop_headers_dropped(name: Seq<char>)
    requires
        eq_ignoring_ascii_case(name, "host"@) || eq_ignoring_ascii_case(name, "connection"@),
    ensures
        !forwards_header_spec(name),
{
}

/// A response always goes out with a valid status, and a valid one unchanged.
pub proof fn law_status_is_valid(code: u16)
    ensures
        is_status_code(if is_status_code(code) { code } else { 200 }),
        is_status_code(code) ==> (if is_status_code(code) { code } else { 200 }) == code,
{
}

/// Every header is passed on except `host` and `connection` (in any case).
pub proof fn law_other_headers_forwarded(name: Seq<char>)
    ensures
        forwards_header_spec(name) <==> !(eq_ignoring_ascii_case(name, "host"@)
            || eq_ignoring_ascii_case(name, "connection"@)),
{
}

/// The valid status codes are exactly 100 to 999, and those are sent unchanged.
pub proof fn law_status_codes_are_100_to_999(code: u16)
    ensures
        is_status_code(code) <==> 100 <= code <= 999,
        (if is_status_code(code) {
            code
        } else {
            200
        }) == (if 100 <= code <= 999 {
            code
        } else {
            200u16
        }),
{
}

} // verus!
