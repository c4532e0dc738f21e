//! The route data model: the closed protocol set, the configuration record,
//! and the per-protocol route entries a table holds.

use vstd::prelude::*;
use crate::text::{lower, eq_ignore_case};

verus! {

/// The closed set of supported protocols. A configuration tag outside this
/// set is an invalid record, never a process abort.
#[derive(Clone, Copy, PartialEq, Eq, Structural, Debug)]
pub enum Protocol {
    Http,
    Https,
}

/// The protocol a tag denotes, compared case-insensitively; `None` for a tag
/// outside the closed set.
pub open spec fn protocol_of(tag: Seq<char>) -> Option<Protocol> {
    if lower(tag) == "http"@ {
        Some(Protocol::Http)
    } else if lower(tag) == "https"@ {
        Some(Protocol::Https)
    } else {
        None
    }
}

proof fn lemma_tag_literals_are_folded()
    ensures
        lower("http"@) == "http"@,
        lower("https"@) == "https"@,
        "http"@ != "https"@,
{
    reveal_strlit("http");
    reveal_strlit("https");
    assert(lower("http"@) =~= "http"@);
    assert(lower("https"@) =~= "https"@);
    assert("http"@.len() != "https"@.len());
}

/// Parses a protocol tag case-insensitively into the closed set.
pub fn parse_protocol(tag: &str) -> (r: Option<Protocol>)
    ensures
        r == protocol_of(tag@),
{
    proof {
        lemma_tag_literals_are_folded();
    }
    if eq_ignore_case(tag, "http") {
        Some(Protocol::Http)
    } else if eq_ignore_case(tag, "https") {
        Some(Protocol::Https)
    } else {
        None
    }
}

/// One route record as configuration supplies it: a protocol tag, a source
/// host, a target authority, and optional TLS material for HTTPS routes.
pub struct JsonRoute {
    pub protocol: String,
    pub source: String,
    pub target: String,
    pub ssl: Option<String>,
}

/// The mathematical value of a [`JsonRoute`].
pub struct JsonRouteV {
    pub protocol: Seq<char>,
    pub source: Seq<char>,
    pub target: Seq<char>,
    pub ssl: Option<Seq<char>>,
}

impl View for JsonRoute {
    type V = JsonRouteV;

    open spec fn view(&self) -> JsonRouteV {
        JsonRouteV {
            protocol: self.protocol@,
            source: self.source@,
            target: self.target@,
            ssl: match self.ssl {
                Some(s) => Some(s@),
                None => None,
            },
        }
    }
}

/// One installed HTTP route: a source host mapped to a target authority.
pub struct HttpRoute {
    pub source: String,
    pub target: String,
}

/// The mathematical value of an [`HttpRoute`].
pub struct HttpRouteV {
    pub source: Seq<char>,
    pub target: Seq<char>,
}

impl View for HttpRoute {
    type V = HttpRouteV;

    open spec fn view(&self) -> HttpRouteV {
        HttpRouteV { source: self.source@, target: self.target@ }
    }
}

impl Clone for HttpRoute {
    fn clone(&self) -> (r: Self)
        ensures
            r@ == self@,
    {
        HttpRoute { source: self.source.clone(), target: self.target.clone() }
    }
}

/// One installed HTTPS route; `ssl_path` points at TLS material that an
/// external terminator consumes, empty when the record supplied none.
pub struct HttpsRoute {
    pub source: String,
    pub target: String,
    pub ssl_path: String,
}

/// The mathematical value of an [`HttpsRoute`].
pub struct HttpsRouteV {
    pub source: Seq<char>,
    pub target: Seq<char>,
    pub ssl_path: Seq<char>,
}

impl View for HttpsRoute {
    type V = HttpsRouteV;

    open spec fn view(&self) -> HttpsRouteV {
        HttpsRouteV { source: self.source@, target: self.target@, ssl_path: self.ssl_path@ }
    }
}

impl Clone for HttpsRoute {
    fn clone(&self) -> (r: Self)
        ensures
            r@ == self@,
    {
        HttpsRoute {
            source: self.source.clone(),
            target: self.target.clone(),
            ssl_path: self.ssl_path.clone(),
        }
    }
}

/// The HTTP table entry a record denotes.
pub open spec fn http_route_of(r: JsonRouteV) -> HttpRouteV {
    HttpRouteV { source: r.source, target: r.target }
}

/// The HTTPS table entry a record denotes; a missing TLS path becomes empty.
pub open spec fn https_route_of(r: JsonRouteV) -> HttpsRouteV {
    HttpsRouteV {
        source: r.source,
        target: r.target,
        ssl_path: match r.ssl {
            Some(s) => s,
            None => Seq::empty(),
        },
    }
}

} // verus!
