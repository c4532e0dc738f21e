//! Per-request dispatch decisions: extract the routing key, consult one
//! table snapshot, and plan the forward; classify how an outbound call ended.
//!
//! A request moves from accepted, through key extraction and routing, to
//! forwarding and relaying; any step can divert to an error response. The
//! decisions on that path are pure functions of one table value and the
//! request, so a request planned against one snapshot is untouched by any
//! concurrent table replacement. The network work around them — issuing the
//! outbound call under its timeout, streaming the response, aborting on
//! client disconnect — is the caller's, and no table access is held across it.

use vstd::prelude::*;
use vstd::string::*;
use crate::text::{lower, host_key_of, eq_ignore_case};
use crate::route::{Protocol, protocol_of, JsonRouteV, http_route_of, https_route_of};
use crate::router::{
    Router, RouterV, find_http, find_https, config_ok, loaded_table, http_routes_of,
    https_routes_of, lemma_load_partitions, lemma_find_http_unique, lemma_find_https_unique,
};

verus! {

/// Bound on one outbound forwarding call, in milliseconds.
pub const DEFAULT_FORWARD_TIMEOUT_MS: u64 = 10000;

/// The forwarded URI: plain-HTTP scheme (TLS termination is external), the
/// route's target authority, and the original path and query verbatim.
pub open spec fn uri_of(target: Seq<char>, path: Seq<char>, query: Option<Seq<char>>) -> Seq<
    char,
> {
    "http://"@ + target + path + (match query {
        Some(q) => "?"@ + q,
        None => Seq::empty(),
    })
}

/// What the dispatcher decides for one inbound request.
pub enum DispatchPlan {
    /// Forward the request, rewritten to this URI, to the backend.
    Forward { uri: String },
    /// Answer with the deterministic "route not found" response.
    NotFound,
}

/// The mathematical value of a [`DispatchPlan`].
pub enum PlanV {
    Forward(Seq<char>),
    NotFound,
}

impl View for DispatchPlan {
    type V = PlanV;

    open spec fn view(&self) -> PlanV {
        match self {
            DispatchPlan::Forward { uri } => PlanV::Forward(uri@),
            DispatchPlan::NotFound => PlanV::NotFound,
        }
    }
}

/// The plan one table value yields for one request: no usable host or no
/// matching entry plans the "route not found" response, a hit plans a
/// forward to the entry's target with path and query kept verbatim.
pub open spec fn spec_plan(
    t: RouterV,
    scheme: Protocol,
    host: Option<Seq<char>>,
    path: Seq<char>,
    query: Option<Seq<char>>,
) -> PlanV {
    match host {
        None => PlanV::NotFound,
        Some(h) => match scheme {
            Protocol::Http => match find_http(t.http, host_key_of(h)) {
                Some(rt) => PlanV::Forward(uri_of(rt.target, path, query)),
                None => PlanV::NotFound,
            },
            Protocol::Https => match find_https(t.https, host_key_of(h)) {
                Some(rt) => PlanV::Forward(uri_of(rt.target, path, query)),
                None => PlanV::NotFound,
            },
        },
    }
}

/// Builds the outbound URI: only the destination authority is rewritten;
/// path and query are preserved verbatim.
pub fn build_forward_uri(target: &str, path: &str, query: Option<&str>) -> (r: String)
    ensures
        r@ == uri_of(
            target@,
            path@,
            match query {
                Some(q) => Some(q@),
                None => None,
            },
        ),
{
    let mut u = "http://".to_owned();
    u.append(target);
    u.append(path);
    match query {
        Some(q) => {
            u.append("?");
            u.append(q);
        },
        None => {},
    }
    proof {
        assert(u@ =~= uri_of(
            target@,
            path@,
            match query {
                Some(q) => Some(q@),
                None => None,
            },
        ));
    }
    u
}

/// Plans one request against one table snapshot. The result is a function
/// of the snapshot and the request alone, so a concurrent replacement of
/// the live table cannot change a plan already taken from this snapshot.
pub fn plan_request(
    router: &Router,
    scheme: Protocol,
    host: Option<&str>,
    path: &str,
    query: Option<&str>,
) -> (p: DispatchPlan)
    ensures
        p@ == spec_plan(
            router@,
            scheme,
            match host {
                Some(h) => Some(h@),
                None => None,
            },
            path@,
            match query {
                Some(q) => Some(q@),
                None => None,
            },
        ),
{
    match host {
        None => DispatchPlan::NotFound,
        Some(h) => match scheme {
            Protocol::Http => match router.lookup_http(h) {
                Some(rt) => DispatchPlan::Forward {
                    uri: build_forward_uri(rt.target.as_str(), path, query),
                },
                None => DispatchPlan::NotFound,
            },
            Protocol::Https => match router.lookup_https(h) {
                Some(rt) => DispatchPlan::Forward {
                    uri: build_forward_uri(rt.target.as_str(), path, query),
                },
                None => DispatchPlan::NotFound,
            },
        },
    }
}

/// The deterministic body of the "route not found" response.
pub fn not_found_body() -> (r: String)
    ensures
        r@ == "Requested Reprox redirection URL not found..."@,
{
    "Requested Reprox redirection URL not found...".to_owned()
}

/// The deterministic body of the gateway-error response.
pub fn upstream_error_body() -> (r: String)
    ensures
        r@ == "Error processing request"@,
{
    "Error processing request".to_owned()
}

/// How one outbound forwarding call ended.
#[derive(Clone, Copy, PartialEq, Eq, Structural, Debug)]
pub enum UpstreamOutcome {
    /// The backend answered within the timeout.
    Responded,
    /// The backend could not be connected to.
    ConnectFailed,
    /// The bounded timeout elapsed first.
    TimedOut,
}

/// The relaying decision for a finished outbound call: `None` relays the
/// upstream status, headers and body unmodified; `Some` carries the
/// gateway-error body. Either way the failure stays inside this request.
pub fn relay_decision(outcome: UpstreamOutcome) -> (r: Option<String>)
    ensures
        (r is None <==> outcome == UpstreamOutcome::Responded),
        (match r {
            Some(b) => b@ == "Error processing request"@,
            None => true,
        }),
{
    match outcome {
        UpstreamOutcome::Responded => None,
        UpstreamOutcome::ConnectFailed => Some(upstream_error_body()),
        UpstreamOutcome::TimedOut => Some(upstream_error_body()),
    }
}

/// Law: in a table loaded from a well-formed configuration, a request whose
/// host identifier folds to a record's host key is forwarded to that
/// record's target, with the inbound scheme selecting the record's protocol
/// bucket and the request's path and query preserved verbatim.
pub proof fn lemma_configured_host_is_forwarded(
    rs: Seq<JsonRouteV>,
    i: int,
    scheme: Protocol,
    h: Seq<char>,
    path: Seq<char>,
    query: Option<Seq<char>>,
)
    requires
        config_ok(rs),
        0 <= i < rs.len(),
        protocol_of(rs[i].protocol) == Some(scheme),
        host_key_of(h) == lower(rs[i].source),
    ensures
        spec_plan(loaded_table(rs), scheme, Some(h), path, query) == PlanV::Forward(
            uri_of(rs[i].target, path, query),
        ),
{
    lemma_load_partitions(rs);
    match scheme {
        Protocol::Http => {
            lemma_find_http_unique(http_routes_of(rs), http_route_of(rs[i]));
        },
        Protocol::Https => {
            lemma_find_https_unique(https_routes_of(rs), https_route_of(rs[i]));
        },
    }
}

/// A header name is hop-specific: it concerns one connection and is not
/// copied onto the relayed response.
pub open spec fn is_hop_name(s: Seq<char>) -> bool {
    ||| lower(s) == "connection"@
    ||| lower(s) == "keep-alive"@
    ||| lower(s) == "proxy-authenticate"@
    ||| lower(s) == "proxy-authorization"@
    ||| lower(s) == "te"@
    ||| lower(s) == "trailers"@
    ||| lower(s) == "transfer-encoding"@
    ||| lower(s) == "upgrade"@
}

proof fn lemma_hop_literals_are_folded()
    ensures
        lower("connection"@) == "connection"@,
        lower("keep-alive"@) == "keep-alive"@,
        lower("proxy-authenticate"@) == "proxy-authenticate"@,
        lower("proxy-authorization"@) == "proxy-authorization"@,
        lower("te"@) == "te"@,
        lower("trailers"@) == "trailers"@,
        lower("transfer-encoding"@) == "transfer-encoding"@,
        lower("upgrade"@) == "upgrade"@,
{
    reveal_strlit("connection");
    reveal_strlit("keep-alive");
    reveal_strlit("proxy-authenticate");
    reveal_strlit("proxy-authorization");
    reveal_strlit("te");
    reveal_strlit("trailers");
    reveal_strlit("transfer-encoding");
    reveal_strlit("upgrade");
    assert(lower("connection"@) =~= "connection"@);
    assert(lower("keep-alive"@) =~= "keep-alive"@);
    assert(lower("proxy-authenticate"@) =~= "proxy-authenticate"@);
    assert(lower("proxy-authorization"@) =~= "proxy-authorization"@);
    assert(lower("te"@) =~= "te"@);
    assert(lower("trailers"@) =~= "trailers"@);
    assert(lower("transfer-encoding"@) =~= "transfer-encoding"@);
    assert(lower("upgrade"@) =~= "upgrade"@);
}

/// Whether a header is hop-specific, compared case-insensitively; relaying
/// drops such headers rather than duplicating them onto the response.
pub fn is_hop_header(name: &str) -> (r: bool)
    ensures
        r == is_hop_name(name@),
{
    proof {
        lemma_hop_literals_are_folded();
    }
    if eq_ignore_case(name, "connection") {
        true
    } else if eq_ignore_case(name, "keep-alive") {
        true
    } else if eq_ignore_case(name, "proxy-authenticate") {
        true
    } else if eq_ignore_case(name, "proxy-authorization") {
        true
    } else if eq_ignore_case(name, "te") {
        true
    } else if eq_ignore_case(name, "trailers") {
        true
    } else if eq_ignore_case(name, "transfer-encoding") {
        true
    } else {
        eq_ignore_case(name, "upgrade")
    }
}

} // verus!
