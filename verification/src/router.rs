//! The route table: two disjoint per-protocol buckets mapping a source host
//! to a backend target.
//!
//! `load` validates every configuration record before any is committed: a
//! record whose protocol tag is outside the closed set, or whose host key
//! repeats an earlier record's key within the same bucket, fails the whole
//! load and is reported by index. A table value is immutable once built;
//! mutations construct a complete replacement table, so a reader holding one
//! table value can never observe a mix of two versions.

use vstd::prelude::*;
use vstd::string::*;
use crate::text::{lower, host_key_of, eq_ignore_case, strip_port_exec};
use crate::route::{
    Protocol, protocol_of, parse_protocol, JsonRoute, JsonRouteV, HttpRoute, HttpRouteV,
    HttpsRoute, HttpsRouteV, http_route_of, https_route_of,
};

verus! {

/// Record `j` clashes with record `i`: both parse to the same protocol
/// bucket and their host keys fold to the same string.
pub open spec fn dup_at(rs: Seq<JsonRouteV>, j: int, i: int) -> bool {
    &&& protocol_of(rs[j].protocol) is Some
    &&& protocol_of(rs[j].protocol) == protocol_of(rs[i].protocol)
    &&& lower(rs[j].source) == lower(rs[i].source)
}

/// Record `i` of a configuration is invalid: its protocol tag is outside the
/// closed set, or an earlier record already claims its key in the same bucket.
pub open spec fn rec_invalid(rs: Seq<JsonRouteV>, i: int) -> bool {
    ||| protocol_of(rs[i].protocol) is None
    ||| exists|j: int| 0 <= j < i && dup_at(rs, j, i)
}

/// A configuration is well-formed iff no record of it is invalid.
pub open spec fn config_ok(rs: Seq<JsonRouteV>) -> bool {
    forall|i: int| 0 <= i < rs.len() ==> !rec_invalid(rs, i)
}

/// The indices of the invalid records among the first `n`, in order.
pub open spec fn invalid_upto(rs: Seq<JsonRouteV>, n: int) -> Seq<int>
    decreases n,
{
    if n <= 0 {
        Seq::empty()
    } else {
        invalid_upto(rs, n - 1) + (if rec_invalid(rs, n - 1) {
            seq![n - 1]
        } else {
            Seq::empty()
        })
    }
}

/// The indices of all invalid records, in order.
pub open spec fn invalid_indices(rs: Seq<JsonRouteV>) -> Seq<int> {
    invalid_upto(rs, rs.len() as int)
}

/// The HTTP bucket a configuration denotes: its HTTP records, in order.
pub open spec fn http_routes_of(rs: Seq<JsonRouteV>) -> Seq<HttpRouteV>
    decreases rs.len(),
{
    if rs.len() == 0 {
        Seq::empty()
    } else {
        http_routes_of(rs.drop_last()) + (if protocol_of(rs.last().protocol) == Some(
            Protocol::Http,
        ) {
            seq![http_route_of(rs.last())]
        } else {
            Seq::empty()
        })
    }
}

/// The HTTPS bucket a configuration denotes: its HTTPS records, in order.
pub open spec fn https_routes_of(rs: Seq<JsonRouteV>) -> Seq<HttpsRouteV>
    decreases rs.len(),
{
    if rs.len() == 0 {
        Seq::empty()
    } else {
        https_routes_of(rs.drop_last()) + (if protocol_of(rs.last().protocol) == Some(
            Protocol::Https,
        ) {
            seq![https_route_of(rs.last())]
        } else {
            Seq::empty()
        })
    }
}

/// The first entry of an HTTP bucket whose folded source equals `k`.
pub open spec fn find_http(b: Seq<HttpRouteV>, k: Seq<char>) -> Option<HttpRouteV>
    decreases b.len(),
{
    if b.len() == 0 {
        None
    } else if lower(b[0].source) == k {
        Some(b[0])
    } else {
        find_http(b.drop_first(), k)
    }
}

/// The first entry of an HTTPS bucket whose folded source equals `k`.
pub open spec fn find_https(b: Seq<HttpsRouteV>, k: Seq<char>) -> Option<HttpsRouteV>
    decreases b.len(),
{
    if b.len() == 0 {
        None
    } else if lower(b[0].source) == k {
        Some(b[0])
    } else {
        find_https(b.drop_first(), k)
    }
}

/// An HTTP bucket without the entries whose folded source equals `k`.
pub open spec fn remove_http(b: Seq<HttpRouteV>, k: Seq<char>) -> Seq<HttpRouteV>
    decreases b.len(),
{
    if b.len() == 0 {
        Seq::empty()
    } else {
        remove_http(b.drop_last(), k) + (if lower(b.last().source) == k {
            Seq::empty()
        } else {
            seq![b.last()]
        })
    }
}

/// An HTTPS bucket without the entries whose folded source equals `k`.
pub open spec fn remove_https(b: Seq<HttpsRouteV>, k: Seq<char>) -> Seq<HttpsRouteV>
    decreases b.len(),
{
    if b.len() == 0 {
        Seq::empty()
    } else {
        remove_https(b.drop_last(), k) + (if lower(b.last().source) == k {
            Seq::empty()
        } else {
            seq![b.last()]
        })
    }
}

/// The table after adding one record: `None` if the record's protocol tag is
/// outside the closed set or its host key is already claimed in its bucket;
/// otherwise the same table with the one entry appended to its bucket.
pub open spec fn spec_add_route(t: RouterV, rec: JsonRouteV) -> Option<RouterV> {
    match protocol_of(rec.protocol) {
        None => None,
        Some(Protocol::Http) => if find_http(t.http, lower(rec.source)) is Some {
            None
        } else {
            Some(RouterV { http: t.http.push(http_route_of(rec)), https: t.https })
        },
        Some(Protocol::Https) => if find_https(t.https, lower(rec.source)) is Some {
            None
        } else {
            Some(RouterV { http: t.http, https: t.https.push(https_route_of(rec)) })
        },
    }
}

/// The table after removing one host key from one bucket: `None` if no entry
/// of that bucket has the key; otherwise the same table without it.
pub open spec fn spec_remove_route(t: RouterV, protocol: Protocol, source: Seq<char>) -> Option<
    RouterV,
> {
    match protocol {
        Protocol::Http => if find_http(t.http, lower(source)) is Some {
            Some(RouterV { http: remove_http(t.http, lower(source)), https: t.https })
        } else {
            None
        },
        Protocol::Https => if find_https(t.https, lower(source)) is Some {
            Some(RouterV { http: t.http, https: remove_https(t.https, lower(source)) })
        } else {
            None
        },
    }
}

/// Folded host keys are pairwise distinct within an HTTP bucket.
pub open spec fn http_keys_unique(b: Seq<HttpRouteV>) -> bool {
    forall|i: int, j: int|
        0 <= i < j < b.len() ==> lower(#[trigger] b[i].source) != lower(#[trigger] b[j].source)
}

/// Folded host keys are pairwise distinct within an HTTPS bucket.
pub open spec fn https_keys_unique(b: Seq<HttpsRouteV>) -> bool {
    forall|i: int, j: int|
        0 <= i < j < b.len() ==> lower(#[trigger] b[i].source) != lower(#[trigger] b[j].source)
}

/// A well-formed table: each bucket's host keys are unique.
pub open spec fn table_wf(t: RouterV) -> bool {
    http_keys_unique(t.http) && https_keys_unique(t.https)
}

/// The table a well-formed configuration loads to.
pub open spec fn loaded_table(rs: Seq<JsonRouteV>) -> RouterV {
    RouterV { http: http_routes_of(rs), https: https_routes_of(rs) }
}

/// The mathematical value of a [`Router`]: the two buckets.
pub struct RouterV {
    pub http: Seq<HttpRouteV>,
    pub https: Seq<HttpsRouteV>,
}

/// A malformed configuration: the indices of the records that were invalid.
#[derive(Debug)]
pub struct ConfigError {
    pub invalid: Vec<usize>,
}

/// The route table. Values are immutable once built; every mutation builds a
/// complete replacement, so any table value a reader holds is one version.
pub struct Router {
    http_route_table: Vec<HttpRoute>,
    https_route_table: Vec<HttpsRoute>,
}

impl View for Router {
    type V = RouterV;

    closed spec fn view(&self) -> RouterV {
        RouterV {
            http: self.http_route_table@.map_values(|r: HttpRoute| r@),
            https: self.https_route_table@.map_values(|r: HttpsRoute| r@),
        }
    }
}

impl Clone for Router {
    fn clone(&self) -> (r: Self)
        ensures
            r@ == self@,
    {
        let r = Router {
            http_route_table: clone_http_vec(&self.http_route_table),
            https_route_table: clone_https_vec(&self.https_route_table),
        };
        proof {
            assert(r@.http =~= self@.http);
            assert(r@.https =~= self@.https);
        }
        r
    }
}

fn clone_http_vec(tab: &Vec<HttpRoute>) -> (r: Vec<HttpRoute>)
    ensures
        r@.map_values(|x: HttpRoute| x@) == tab@.map_values(|x: HttpRoute| x@),
{
    let mut out: Vec<HttpRoute> = Vec::new();
    let n = tab.len();
    let mut i: usize = 0;
    while i < n
        invariant
            i <= n,
            n == tab@.len(),
            out@.len() == i,
            forall|k: int| 0 <= k < i ==> #[trigger] out@[k]@ == tab@[k]@,
        decreases n - i,
    {
        out.push(tab[i].clone());
        i += 1;
    }
    proof {
        assert(out@.map_values(|x: HttpRoute| x@) =~= tab@.map_values(|x: HttpRoute| x@));
    }
    out
}

fn clone_https_vec(tab: &Vec<HttpsRoute>) -> (r: Vec<HttpsRoute>)
    ensures
        r@.map_values(|x: HttpsRoute| x@) == tab@.map_values(|x: HttpsRoute| x@),
{
    let mut out: Vec<HttpsRoute> = Vec::new();
    let n = tab.len();
    let mut i: usize = 0;
    while i < n
        invariant
            i <= n,
            n == tab@.len(),
            out@.len() == i,
            forall|k: int| 0 <= k < i ==> #[trigger] out@[k]@ == tab@[k]@,
        decreases n - i,
    {
        out.push(tab[i].clone());
        i += 1;
    }
    proof {
        assert(out@.map_values(|x: HttpsRoute| x@) =~= tab@.map_values(|x: HttpsRoute| x@));
    }
    out
}

/// The first position in an HTTP table whose source folds to the same string
/// as `key`, if any.
fn scan_http(tab: &Vec<HttpRoute>, key: &str) -> (r: Option<usize>)
    ensures
        ({
            let b = tab@.map_values(|x: HttpRoute| x@);
            match r {
                Some(i) => i < b.len() && find_http(b, lower(key@)) == Some(b[i as int]),
                None => find_http(b, lower(key@)) is None,
            }
        }),
{
    let ghost b = tab@.map_values(|x: HttpRoute| x@);
    let n = tab.len();
    let mut i: usize = 0;
    while i < n
        invariant
            i <= n,
            n == tab@.len(),
            b == tab@.map_values(|x: HttpRoute| x@),
            forall|j: int| 0 <= j < i ==> lower(#[trigger] b[j].source) != lower(key@),
        decreases n - i,
    {
        if eq_ignore_case(tab[i].source.as_str(), key) {
            proof {
                lemma_find_http_skip(b, lower(key@), i as int);
                assert(b.skip(i as int)[0] == b[i as int]);
            }
            return Some(i);
        }
        i += 1;
    }
    proof {
        lemma_find_http_skip(b, lower(key@), n as int);
    }
    None
}

/// The first position in an HTTPS table whose source folds to the same
/// string as `key`, if any.
fn scan_https(tab: &Vec<HttpsRoute>, key: &str) -> (r: Option<usize>)
    ensures
        ({
            let b = tab@.map_values(|x: HttpsRoute| x@);
            match r {
                Some(i) => i < b.len() && find_https(b, lower(key@)) == Some(b[i as int]),
                None => find_https(b, lower(key@)) is None,
            }
        }),
{
    let ghost b = tab@.map_values(|x: HttpsRoute| x@);
    let n = tab.len();
    let mut i: usize = 0;
    while i < n
        invariant
            i <= n,
            n == tab@.len(),
            b == tab@.map_values(|x: HttpsRoute| x@),
            forall|j: int| 0 <= j < i ==> lower(#[trigger] b[j].source) != lower(key@),
        decreases n - i,
    {
        if eq_ignore_case(tab[i].source.as_str(), key) {
            proof {
                lemma_find_https_skip(b, lower(key@), i as int);
                assert(b.skip(i as int)[0] == b[i as int]);
            }
            return Some(i);
        }
        i += 1;
    }
    proof {
        lemma_find_https_skip(b, lower(key@), n as int);
    }
    None
}

proof fn lemma_find_http_skip(b: Seq<HttpRouteV>, k: Seq<char>, i: int)
    requires
        0 <= i <= b.len(),
        forall|j: int| 0 <= j < i ==> lower(#[trigger] b[j].source) != k,
    ensures
        find_http(b, k) == find_http(b.skip(i), k),
    decreases i,
{
    if i > 0 {
        assert(lower(b[0].source) != k);
        assert(forall|j: int|
            0 <= j < i - 1 ==> lower(#[trigger] b.drop_first()[j].source) != k) by {
            assert(forall|j: int| 0 <= j < i - 1 ==> b.drop_first()[j] == b[j + 1]);
        }
        lemma_find_http_skip(b.drop_first(), k, i - 1);
        assert(b.drop_first().skip(i - 1) =~= b.skip(i));
    } else {
        assert(b.skip(0) =~= b);
    }
}

proof fn lemma_find_https_skip(b: Seq<HttpsRouteV>, k: Seq<char>, i: int)
    requires
        0 <= i <= b.len(),
        forall|j: int| 0 <= j < i ==> lower(#[trigger] b[j].source) != k,
    ensures
        find_https(b, k) == find_https(b.skip(i), k),
    decreases i,
{
    if i > 0 {
        assert(lower(b[0].source) != k);
        assert(forall|j: int|
            0 <= j < i - 1 ==> lower(#[trigger] b.drop_first()[j].source) != k) by {
            assert(forall|j: int| 0 <= j < i - 1 ==> b.drop_first()[j] == b[j + 1]);
        }
        lemma_find_https_skip(b.drop_first(), k, i - 1);
        assert(b.drop_first().skip(i - 1) =~= b.skip(i));
    } else {
        assert(b.skip(0) =~= b);
    }
}

proof fn lemma_invalid_upto_empty(rs: Seq<JsonRouteV>, n: int)
    requires
        0 <= n <= rs.len(),
    ensures
        (invalid_upto(rs, n).len() == 0) <==> (forall|i: int| 0 <= i < n ==> !rec_invalid(rs, i)),
    decreases n,
{
    if n > 0 {
        lemma_invalid_upto_empty(rs, n - 1);
    }
}

/// Entry `k` of the HTTP bucket of `rs` comes from some HTTP record of `rs`.
pub open spec fn http_entry_from(rs: Seq<JsonRouteV>, k: int) -> bool {
    exists|j: int|
        0 <= j < rs.len() && protocol_of(#[trigger] rs[j].protocol) == Some(Protocol::Http)
            && http_routes_of(rs)[k] == http_route_of(rs[j])
}

/// Entry `k` of the HTTPS bucket of `rs` comes from some HTTPS record of `rs`.
pub open spec fn https_entry_from(rs: Seq<JsonRouteV>, k: int) -> bool {
    exists|j: int|
        0 <= j < rs.len() && protocol_of(#[trigger] rs[j].protocol) == Some(Protocol::Https)
            && https_routes_of(rs)[k] == https_route_of(rs[j])
}

proof fn lemma_http_routes_membership(rs: Seq<JsonRouteV>)
    ensures
        forall|k: int| 0 <= k < http_routes_of(rs).len() ==> #[trigger] http_entry_from(rs, k),
    decreases rs.len(),
{
    if rs.len() > 0 {
        let s = rs.drop_last();
        lemma_http_routes_membership(s);
        let prev = http_routes_of(s);
        assert forall|k: int| 0 <= k < http_routes_of(rs).len() implies #[trigger] http_entry_from(
            rs,
            k,
        ) by {
            if k < prev.len() {
                assert(http_routes_of(rs)[k] == prev[k]);
                assert(http_entry_from(s, k));
                let j = choose|j: int|
                    0 <= j < s.len() && protocol_of(#[trigger] s[j].protocol) == Some(
                        Protocol::Http,
                    ) && http_routes_of(s)[k] == http_route_of(s[j]);
                assert(s[j] == rs[j]);
                assert(http_routes_of(rs)[k] == http_route_of(rs[j]));
            } else {
                assert(protocol_of(rs.last().protocol) == Some(Protocol::Http));
                assert(http_routes_of(rs)[k] == http_route_of(rs[rs.len() - 1]));
            }
        }
    }
}

proof fn lemma_https_routes_membership(rs: Seq<JsonRouteV>)
    ensures
        forall|k: int| 0 <= k < https_routes_of(rs).len() ==> #[trigger] https_entry_from(rs, k),
    decreases rs.len(),
{
    if rs.len() > 0 {
        let s = rs.drop_last();
        lemma_https_routes_membership(s);
        let prev = https_routes_of(s);
        assert forall|k: int| 0 <= k < https_routes_of(rs).len() implies #[trigger] https_entry_from(
            rs,
            k,
        ) by {
            if k < prev.len() {
                assert(https_routes_of(rs)[k] == prev[k]);
                assert(https_entry_from(s, k));
                let j = choose|j: int|
                    0 <= j < s.len() && protocol_of(#[trigger] s[j].protocol) == Some(
                        Protocol::Https,
                    ) && https_routes_of(s)[k] == https_route_of(s[j]);
                assert(s[j] == rs[j]);
                assert(https_routes_of(rs)[k] == https_route_of(rs[j]));
            } else {
                assert(protocol_of(rs.last().protocol) == Some(Protocol::Https));
                assert(https_routes_of(rs)[k] == https_route_of(rs[rs.len() - 1]));
            }
        }
    }
}

proof fn lemma_config_ok_prefix(rs: Seq<JsonRouteV>)
    requires
        config_ok(rs),
        rs.len() > 0,
    ensures
        config_ok(rs.drop_last()),
{
    let s = rs.drop_last();
    assert forall|i: int| 0 <= i < s.len() implies !rec_invalid(s, i) by {
        assert(!rec_invalid(rs, i));
        if rec_invalid(s, i) {
            assert(s[i] == rs[i]);
            if !(protocol_of(s[i].protocol) is None) {
                let j = choose|j: int| 0 <= j < i && dup_at(s, j, i);
                assert(s[j] == rs[j]);
                assert(dup_at(rs, j, i));
            }
        }
    }
}

/// Law: a well-formed configuration loads to a table whose host keys are
/// unique within each protocol bucket, and every record's entry stands in
/// the bucket of the record's normalized protocol.
pub proof fn lemma_load_partitions(rs: Seq<JsonRouteV>)
    requires
        config_ok(rs),
    ensures
        table_wf(loaded_table(rs)),
        forall|i: int|
            0 <= i < rs.len() && protocol_of(#[trigger] rs[i].protocol) == Some(Protocol::Http)
                ==> http_routes_of(rs).contains(http_route_of(rs[i])),
        forall|i: int|
            0 <= i < rs.len() && protocol_of(#[trigger] rs[i].protocol) == Some(Protocol::Https)
                ==> https_routes_of(rs).contains(https_route_of(rs[i])),
        forall|k: int| 0 <= k < http_routes_of(rs).len() ==> #[trigger] http_entry_from(rs, k),
        forall|k: int| 0 <= k < https_routes_of(rs).len() ==> #[trigger] https_entry_from(rs, k),
    decreases rs.len(),
{
    lemma_http_routes_membership(rs);
    lemma_https_routes_membership(rs);
    if rs.len() > 0 {
        let s = rs.drop_last();
        lemma_config_ok_prefix(rs);
        lemma_load_partitions(s);
        lemma_http_routes_membership(s);
        lemma_https_routes_membership(s);
        let last = rs.last();
        assert(!rec_invalid(rs, rs.len() - 1));
        let hb = http_routes_of(rs);
        let sb = https_routes_of(rs);
        let hprev = http_routes_of(s);
        let sprev = https_routes_of(s);
        if protocol_of(last.protocol) == Some(Protocol::Http) {
            assert(hb =~= hprev.push(http_route_of(last)));
            assert(sb =~= sprev);
            assert forall|k: int| 0 <= k < hprev.len() implies lower(hprev[k].source) != lower(
                last.source,
            ) by {
                assert(http_entry_from(s, k));
                let j = choose|j: int|
                    0 <= j < s.len() && protocol_of(#[trigger] s[j].protocol) == Some(
                        Protocol::Http,
                    ) && http_routes_of(s)[k] == http_route_of(s[j]);
                assert(s[j] == rs[j]);
                if lower(hprev[k].source) == lower(last.source) {
                    assert(dup_at(rs, j, rs.len() - 1));
                    assert(rec_invalid(rs, rs.len() - 1));
                }
            }
            assert forall|i: int, j: int| 0 <= i < j < hb.len() implies lower(
                #[trigger] hb[i].source,
            ) != lower(#[trigger] hb[j].source) by {
                if j < hprev.len() {
                    assert(hb[i] == hprev[i] && hb[j] == hprev[j]);
                } else {
                    assert(hb[i] == hprev[i] && hb[j] == http_route_of(last));
                }
            }
        } else {
            assert(protocol_of(last.protocol) == Some(Protocol::Https));
            assert(hb =~= hprev);
            assert(sb =~= sprev.push(https_route_of(last)));
            assert forall|k: int| 0 <= k < sprev.len() implies lower(sprev[k].source) != lower(
                last.source,
            ) by {
                assert(https_entry_from(s, k));
                let j = choose|j: int|
                    0 <= j < s.len() && protocol_of(#[trigger] s[j].protocol) == Some(
                        Protocol::Https,
                    ) && https_routes_of(s)[k] == https_route_of(s[j]);
                assert(s[j] == rs[j]);
                if lower(sprev[k].source) == lower(last.source) {
                    assert(dup_at(rs, j, rs.len() - 1));
                    assert(rec_invalid(rs, rs.len() - 1));
                }
            }
            assert forall|i: int, j: int| 0 <= i < j < sb.len() implies lower(
                #[trigger] sb[i].source,
            ) != lower(#[trigger] sb[j].source) by {
                if j < sprev.len() {
                    assert(sb[i] == sprev[i] && sb[j] == sprev[j]);
                } else {
                    assert(sb[i] == sprev[i] && sb[j] == https_route_of(last));
                }
            }
        }
        assert forall|i: int|
            0 <= i < rs.len() && protocol_of(#[trigger] rs[i].protocol) == Some(
                Protocol::Http,
            ) implies http_routes_of(rs).contains(http_route_of(rs[i])) by {
            if i < rs.len() - 1 {
                assert(s[i] == rs[i]);
                assert(hprev.contains(http_route_of(s[i])));
                let k = choose|k: int| 0 <= k < hprev.len() && hprev[k] == http_route_of(s[i]);
                assert(hb[k] == http_route_of(rs[i]));
            } else {
                assert(hb[hb.len() - 1] == http_route_of(rs[i]));
            }
        }
        assert forall|i: int|
            0 <= i < rs.len() && protocol_of(#[trigger] rs[i].protocol) == Some(
                Protocol::Https,
            ) implies https_routes_of(rs).contains(https_route_of(rs[i])) by {
            if i < rs.len() - 1 {
                assert(s[i] == rs[i]);
                assert(sprev.contains(https_route_of(s[i])));
                let k = choose|k: int| 0 <= k < sprev.len() && sprev[k] == https_route_of(s[i]);
                assert(sb[k] == https_route_of(rs[i]));
            } else {
                assert(sb[sb.len() - 1] == https_route_of(rs[i]));
            }
        }
    }
}

/// In a bucket with unique keys, lookup under an entry's own key finds
/// exactly that entry.
pub proof fn lemma_find_http_unique(b: Seq<HttpRouteV>, x: HttpRouteV)
    requires
        http_keys_unique(b),
        b.contains(x),
    ensures
        find_http(b, lower(x.source)) == Some(x),
    decreases b.len(),
{
    let idx = choose|idx: int| 0 <= idx < b.len() && b[idx] == x;
    if lower(b[0].source) == lower(x.source) {
        assert(b[0] == x) by {
            if idx != 0 {
                assert(lower(b[0].source) != lower(b[idx].source));
            }
        }
    } else {
        assert(idx != 0);
        let t = b.drop_first();
        assert(t[idx - 1] == x);
        assert(t.contains(x));
        assert forall|i: int, j: int| 0 <= i < j < t.len() implies lower(
            #[trigger] t[i].source,
        ) != lower(#[trigger] t[j].source) by {
            assert(t[i] == b[i + 1] && t[j] == b[j + 1]);
        }
        lemma_find_http_unique(t, x);
    }
}

/// In a bucket with unique keys, lookup under an entry's own key finds
/// exactly that entry.
pub proof fn lemma_find_https_unique(b: Seq<HttpsRouteV>, x: HttpsRouteV)
    requires
        https_keys_unique(b),
        b.contains(x),
    ensures
        find_https(b, lower(x.source)) == Some(x),
    decreases b.len(),
{
    let idx = choose|idx: int| 0 <= idx < b.len() && b[idx] == x;
    if lower(b[0].source) == lower(x.source) {
        assert(b[0] == x) by {
            if idx != 0 {
                assert(lower(b[0].source) != lower(b[idx].source));
            }
        }
    } else {
        assert(idx != 0);
        let t = b.drop_first();
        assert(t[idx - 1] == x);
        assert(t.contains(x));
        assert forall|i: int, j: int| 0 <= i < j < t.len() implies lower(
            #[trigger] t[i].source,
        ) != lower(#[trigger] t[j].source) by {
            assert(t[i] == b[i + 1] && t[j] == b[j + 1]);
        }
        lemma_find_https_unique(t, x);
    }
}

/// A miss means no entry of the bucket has the key.
pub proof fn lemma_find_http_none(b: Seq<HttpRouteV>, k: Seq<char>)
    requires
        find_http(b, k) is None,
    ensures
        forall|i: int| 0 <= i < b.len() ==> lower(#[trigger] b[i].source) != k,
    decreases b.len(),
{
    if b.len() > 0 {
        lemma_find_http_none(b.drop_first(), k);
        assert forall|i: int| 0 <= i < b.len() implies lower(#[trigger] b[i].source) != k by {
            if i > 0 {
                assert(b.drop_first()[i - 1] == b[i]);
            }
        }
    }
}

/// A miss means no entry of the bucket has the key.
pub proof fn lemma_find_https_none(b: Seq<HttpsRouteV>, k: Seq<char>)
    requires
        find_https(b, k) is None,
    ensures
        forall|i: int| 0 <= i < b.len() ==> lower(#[trigger] b[i].source) != k,
    decreases b.len(),
{
    if b.len() > 0 {
        lemma_find_https_none(b.drop_first(), k);
        assert forall|i: int| 0 <= i < b.len() implies lower(#[trigger] b[i].source) != k by {
            if i > 0 {
                assert(b.drop_first()[i - 1] == b[i]);
            }
        }
    }
}

proof fn lemma_remove_http_subset(b: Seq<HttpRouteV>, k: Seq<char>)
    ensures
        forall|x: HttpRouteV| #[trigger] remove_http(b, k).contains(x) ==> b.contains(x),
    decreases b.len(),
{
    if b.len() > 0 {
        let prev = b.drop_last();
        lemma_remove_http_subset(prev, k);
        assert forall|x: HttpRouteV| #[trigger] remove_http(b, k).contains(x) implies b.contains(
            x,
        ) by {
            let r = remove_http(b, k);
            let idx = choose|idx: int| 0 <= idx < r.len() && r[idx] == x;
            if idx < remove_http(prev, k).len() {
                assert(remove_http(prev, k)[idx] == x);
                assert(remove_http(prev, k).contains(x));
                assert(prev.contains(x));
                let j = choose|j: int| 0 <= j < prev.len() && prev[j] == x;
                assert(b[j] == x);
            } else {
                assert(x == b.last());
                assert(b[b.len() - 1] == x);
            }
        }
    }
}

proof fn lemma_remove_https_subset(b: Seq<HttpsRouteV>, k: Seq<char>)
    ensures
        forall|x: HttpsRouteV| #[trigger] remove_https(b, k).contains(x) ==> b.contains(x),
    decreases b.len(),
{
    if b.len() > 0 {
        let prev = b.drop_last();
        lemma_remove_https_subset(prev, k);
        assert forall|x: HttpsRouteV| #[trigger] remove_https(b, k).contains(x) implies b.contains(
            x,
        ) by {
            let r = remove_https(b, k);
            let idx = choose|idx: int| 0 <= idx < r.len() && r[idx] == x;
            if idx < remove_https(prev, k).len() {
                assert(remove_https(prev, k)[idx] == x);
                assert(remove_https(prev, k).contains(x));
                assert(prev.contains(x));
                let j = choose|j: int| 0 <= j < prev.len() && prev[j] == x;
                assert(b[j] == x);
            } else {
                assert(x == b.last());
                assert(b[b.len() - 1] == x);
            }
        }
    }
}

proof fn lemma_remove_http_keeps_unique(b: Seq<HttpRouteV>, k: Seq<char>)
    requires
        http_keys_unique(b),
    ensures
        http_keys_unique(remove_http(b, k)),
    decreases b.len(),
{
    if b.len() > 0 {
        let prev = b.drop_last();
        assert forall|i: int, j: int| 0 <= i < j < prev.len() implies lower(
            #[trigger] prev[i].source,
        ) != lower(#[trigger] prev[j].source) by {
            assert(prev[i] == b[i] && prev[j] == b[j]);
        }
        lemma_remove_http_keeps_unique(prev, k);
        lemma_remove_http_subset(prev, k);
        let r = remove_http(b, k);
        let rp = remove_http(prev, k);
        assert forall|i: int, j: int| 0 <= i < j < r.len() implies lower(
            #[trigger] r[i].source,
        ) != lower(#[trigger] r[j].source) by {
            if j < rp.len() {
                assert(r[i] == rp[i] && r[j] == rp[j]);
            } else {
                assert(r[j] == b.last());
                assert(r[i] == rp[i]);
                assert(rp.contains(rp[i]));
                assert(prev.contains(rp[i]));
                let m = choose|m: int| 0 <= m < prev.len() && prev[m] == rp[i];
                assert(b[m] == rp[i]);
                assert(lower(b[m].source) != lower(b[b.len() - 1].source));
            }
        }
    }
}

proof fn lemma_remove_https_keeps_unique(b: Seq<HttpsRouteV>, k: Seq<char>)
    requires
        https_keys_unique(b),
    ensures
        https_keys_unique(remove_https(b, k)),
    decreases b.len(),
{
    if b.len() > 0 {
        let prev = b.drop_last();
        assert forall|i: int, j: int| 0 <= i < j < prev.len() implies lower(
            #[trigger] prev[i].source,
        ) != lower(#[trigger] prev[j].source) by {
            assert(prev[i] == b[i] && prev[j] == b[j]);
        }
        lemma_remove_https_keeps_unique(prev, k);
        lemma_remove_https_subset(prev, k);
        let r = remove_https(b, k);
        let rp = remove_https(prev, k);
        assert forall|i: int, j: int| 0 <= i < j < r.len() implies lower(
            #[trigger] r[i].source,
        ) != lower(#[trigger] r[j].source) by {
            if j < rp.len() {
                assert(r[i] == rp[i] && r[j] == rp[j]);
            } else {
                assert(r[j] == b.last());
                assert(r[i] == rp[i]);
                assert(rp.contains(rp[i]));
                assert(prev.contains(rp[i]));
                let m = choose|m: int| 0 <= m < prev.len() && prev[m] == rp[i];
                assert(b[m] == rp[i]);
                assert(lower(b[m].source) != lower(b[b.len() - 1].source));
            }
        }
    }
}

/// Law: an accepted `add_route` preserves the table invariant — bucket keys
/// stay unique.
pub proof fn lemma_add_preserves_wf(t: RouterV, rec: JsonRouteV)
    requires
        table_wf(t),
    ensures
        spec_add_route(t, rec) matches Some(t2) ==> table_wf(t2),
{
    if spec_add_route(t, rec) is Some {
        let t2 = spec_add_route(t, rec)->Some_0;
        match protocol_of(rec.protocol) {
            Some(Protocol::Http) => {
                lemma_find_http_none(t.http, lower(rec.source));
                assert forall|i: int, j: int| 0 <= i < j < t2.http.len() implies lower(
                    #[trigger] t2.http[i].source,
                ) != lower(#[trigger] t2.http[j].source) by {
                    if j < t.http.len() {
                        assert(t2.http[i] == t.http[i] && t2.http[j] == t.http[j]);
                    } else {
                        assert(t2.http[i] == t.http[i] && t2.http[j] == http_route_of(rec));
                    }
                }
            },
            Some(Protocol::Https) => {
                lemma_find_https_none(t.https, lower(rec.source));
                assert forall|i: int, j: int| 0 <= i < j < t2.https.len() implies lower(
                    #[trigger] t2.https[i].source,
                ) != lower(#[trigger] t2.https[j].source) by {
                    if j < t.https.len() {
                        assert(t2.https[i] == t.https[i] && t2.https[j] == t.https[j]);
                    } else {
                        assert(t2.https[i] == t.https[i] && t2.https[j] == https_route_of(rec));
                    }
                }
            },
            None => {},
        }
    }
}

/// Law: an accepted `remove_route` preserves the table invariant — bucket
/// keys stay unique.
pub proof fn lemma_remove_preserves_wf(t: RouterV, p: Protocol, src: Seq<char>)
    requires
        table_wf(t),
    ensures
        spec_remove_route(t, p, src) matches Some(t2) ==> table_wf(t2),
{
    if spec_remove_route(t, p, src) is Some {
        match p {
            Protocol::Http => {
                lemma_remove_http_keeps_unique(t.http, lower(src));
            },
            Protocol::Https => {
                lemma_remove_https_keeps_unique(t.https, lower(src));
            },
        }
    }
}

impl Router {
    /// Builds a table from configuration records, validating all of them
    /// before any is committed. Succeeds iff every record's protocol tag is
    /// in the closed set and no record repeats an earlier record's host key
    /// within its bucket; otherwise reports every invalid record's index and
    /// commits nothing.
    pub fn load(records: &Vec<JsonRoute>) -> (r: Result<Router, ConfigError>)
        ensures
            ({
                let rs = records@.map_values(|x: JsonRoute| x@);
                &&& (r is Ok <==> config_ok(rs))
                &&& (r matches Ok(t) ==> t@ == loaded_table(rs))
                &&& (r matches Err(e) ==> e.invalid@.map_values(|u: usize| u as int)
                    == invalid_indices(rs) && e.invalid@.len() > 0)
            }),
    {
        let ghost rs: Seq<JsonRouteV> = records@.map_values(|x: JsonRoute| x@);
        let n = records.len();
        let mut http_tab: Vec<HttpRoute> = Vec::new();
        let mut https_tab: Vec<HttpsRoute> = Vec::new();
        let mut invalid: Vec<usize> = Vec::new();
        let mut i: usize = 0;
        while i < n
            invariant
                i <= n,
                n == records@.len(),
                rs == records@.map_values(|x: JsonRoute| x@),
                http_tab@.map_values(|x: HttpRoute| x@) == http_routes_of(rs.take(i as int)),
                https_tab@.map_values(|x: HttpsRoute| x@) == https_routes_of(rs.take(i as int)),
                invalid@.map_values(|u: usize| u as int) == invalid_upto(rs, i as int),
            decreases n - i,
        {
            let rec = &records[i];
            proof {
                assert(rs[i as int] == rec@);
            }
            let pi = parse_protocol(rec.protocol.as_str());
            match pi {
                None => {
                    invalid.push(i);
                    proof {
                        assert(rec_invalid(rs, i as int));
                        assert(invalid@.map_values(|u: usize| u as int) =~= invalid_upto(
                            rs,
                            i as int + 1,
                        ));
                    }
                },
                Some(p) => {
                    let mut dup = false;
                    let mut j: usize = 0;
                    while j < i
                        invariant
                            j <= i,
                            i < n,
                            n == records@.len(),
                            rs == records@.map_values(|x: JsonRoute| x@),
                            rs[i as int] == records@[i as int]@,
                            rec@ == rs[i as int],
                            Some(p) == protocol_of(rs[i as int].protocol),
                            dup == exists|jj: int| 0 <= jj < j && dup_at(rs, jj, i as int),
                        decreases i - j,
                    {
                        proof {
                            assert(rs[j as int] == records@[j as int]@);
                        }
                        let pj = parse_protocol(records[j].protocol.as_str());
                        if let Some(q) = pj {
                            if q == p && eq_ignore_case(
                                records[j].source.as_str(),
                                rec.source.as_str(),
                            ) {
                                proof {
                                    assert(dup_at(rs, j as int, i as int));
                                }
                                dup = true;
                            }
                        }
                        j += 1;
                    }
                    if dup {
                        invalid.push(i);
                        proof {
                            assert(rec_invalid(rs, i as int));
                            assert(invalid@.map_values(|u: usize| u as int) =~= invalid_upto(
                                rs,
                                i as int + 1,
                            ));
                        }
                    } else {
                        proof {
                            assert(!rec_invalid(rs, i as int));
                            assert(invalid@.map_values(|u: usize| u as int) =~= invalid_upto(
                                rs,
                                i as int + 1,
                            ));
                        }
                    }
                    match p {
                        Protocol::Http => {
                            http_tab.push(
                                HttpRoute { source: rec.source.clone(), target: rec.target.clone() },
                            );
                        },
                        Protocol::Https => {
                            let ssl_path = match &rec.ssl {
                                Some(s) => s.clone(),
                                None => String::new(),
                            };
                            https_tab.push(
                                HttpsRoute {
                                    source: rec.source.clone(),
                                    target: rec.target.clone(),
                                    ssl_path,
                                },
                            );
                        },
                    }
                },
            }
            proof {
                assert(rs.take(i as int + 1).drop_last() =~= rs.take(i as int));
                assert(rs.take(i as int + 1).last() == rs[i as int]);
                assert(http_tab@.map_values(|x: HttpRoute| x@) =~= http_routes_of(
                    rs.take(i as int + 1),
                ));
                assert(https_tab@.map_values(|x: HttpsRoute| x@) =~= https_routes_of(
                    rs.take(i as int + 1),
                ));
            }
            i += 1;
        }
        proof {
            assert(rs.take(n as int) =~= rs);
            lemma_invalid_upto_empty(rs, n as int);
        }
        if invalid.len() == 0 {
            proof {
                assert(invalid@.map_values(|u: usize| u as int).len() == 0);
            }
            Ok(Router { http_route_table: http_tab, https_route_table: https_tab })
        } else {
            proof {
                assert(invalid@.map_values(|u: usize| u as int).len() > 0);
            }
            Err(ConfigError { invalid })
        }
    }

    /// A copy of the HTTP bucket.
    pub fn get_http_routes(&self) -> (r: Vec<HttpRoute>)
        ensures
            r@.map_values(|x: HttpRoute| x@) == self@.http,
    {
        clone_http_vec(&self.http_route_table)
    }

    /// A copy of the HTTPS bucket.
    pub fn get_https_routes(&self) -> (r: Vec<HttpsRoute>)
        ensures
            r@.map_values(|x: HttpsRoute| x@) == self@.https,
    {
        clone_https_vec(&self.https_route_table)
    }

    /// Looks an inbound HTTP host up: the host's trailing `:port` is
    /// stripped and the rest compared case-insensitively.
    pub fn lookup_http(&self, host: &str) -> (r: Option<&HttpRoute>)
        ensures
            match r {
                Some(rt) => find_http(self@.http, host_key_of(host@)) == Some(rt@),
                None => find_http(self@.http, host_key_of(host@)) is None,
            },
    {
        let key = strip_port_exec(host);
        match scan_http(&self.http_route_table, key) {
            Some(i) => Some(&self.http_route_table[i]),
            None => None,
        }
    }

    /// Looks an inbound HTTPS host up, under the same normalization.
    pub fn lookup_https(&self, host: &str) -> (r: Option<&HttpsRoute>)
        ensures
            match r {
                Some(rt) => find_https(self@.https, host_key_of(host@)) == Some(rt@),
                None => find_https(self@.https, host_key_of(host@)) is None,
            },
    {
        let key = strip_port_exec(host);
        match scan_https(&self.https_route_table, key) {
            Some(i) => Some(&self.https_route_table[i]),
            None => None,
        }
    }

    /// Adds one record under the same validation as `load`: the protocol tag
    /// must be in the closed set and the host key free in its bucket. Builds
    /// a complete new table and commits nothing on failure.
    pub fn add_route(&self, rec: &JsonRoute) -> (r: Option<Router>)
        ensures
            match r {
                Some(t2) => spec_add_route(self@, rec@) == Some(t2@),
                None => spec_add_route(self@, rec@) is None,
            },
    {
        match parse_protocol(rec.protocol.as_str()) {
            None => None,
            Some(Protocol::Http) => {
                match scan_http(&self.http_route_table, rec.source.as_str()) {
                    Some(_) => None,
                    None => {
                        let mut t = self.clone();
                        t.http_route_table.push(
                            HttpRoute { source: rec.source.clone(), target: rec.target.clone() },
                        );
                        proof {
                            assert(t@.http =~= self@.http.push(http_route_of(rec@)));
                        }
                        Some(t)
                    },
                }
            },
            Some(Protocol::Https) => {
                match scan_https(&self.https_route_table, rec.source.as_str()) {
                    Some(_) => None,
                    None => {
                        let mut t = self.clone();
                        let ssl_path = match &rec.ssl {
                            Some(s) => s.clone(),
                            None => String::new(),
                        };
                        t.https_route_table.push(
                            HttpsRoute {
                                source: rec.source.clone(),
                                target: rec.target.clone(),
                                ssl_path,
                            },
                        );
                        proof {
                            assert(t@.https =~= self@.https.push(https_route_of(rec@)));
                        }
                        Some(t)
                    },
                }
            },
        }
    }

    /// Removes the entry under one host key from one bucket; `None` (and no
    /// change) if the bucket has no such key. Builds a complete new table.
    pub fn remove_route(&self, protocol: Protocol, source: &str) -> (r: Option<Router>)
        ensures
            match r {
                Some(t2) => spec_remove_route(self@, protocol, source@) == Some(t2@),
                None => spec_remove_route(self@, protocol, source@) is None,
            },
    {
        match protocol {
            Protocol::Http => {
                match scan_http(&self.http_route_table, source) {
                    None => None,
                    Some(_) => {
                        let mut out: Vec<HttpRoute> = Vec::new();
                        let n = self.http_route_table.len();
                        let mut i: usize = 0;
                        while i < n
                            invariant
                                i <= n,
                                n == self.http_route_table@.len(),
                                out@.map_values(|x: HttpRoute| x@) == remove_http(
                                    self@.http.take(i as int),
                                    lower(source@),
                                ),
                            decreases n - i,
                        {
                            let entry = &self.http_route_table[i];
                            if !eq_ignore_case(entry.source.as_str(), source) {
                                out.push(entry.clone());
                            }
                            proof {
                                assert(self@.http.take(i as int + 1).drop_last() =~= self@.http.take(
                                    i as int,
                                ));
                                assert(self@.http.take(i as int + 1).last() == self@.http[i as int]);
                                assert(out@.map_values(|x: HttpRoute| x@) =~= remove_http(
                                    self@.http.take(i as int + 1),
                                    lower(source@),
                                ));
                            }
                            i += 1;
                        }
                        proof {
                            assert(self@.http.take(n as int) =~= self@.http);
                        }
                        Some(
                            Router {
                                http_route_table: out,
                                https_route_table: clone_https_vec(&self.https_route_table),
                            },
                        )
                    },
                }
            },
            Protocol::Https => {
                match scan_https(&self.https_route_table, source) {
                    None => None,
                    Some(_) => {
                        let mut out: Vec<HttpsRoute> = Vec::new();
                        let n = self.https_route_table.len();
                        let mut i: usize = 0;
                        while i < n
                            invariant
                                i <= n,
                                n == self.https_route_table@.len(),
                                out@.map_values(|x: HttpsRoute| x@) == remove_https(
                                    self@.https.take(i as int),
                                    lower(source@),
                                ),
                            decreases n - i,
                        {
                            let entry = &self.https_route_table[i];
                            if !eq_ignore_case(entry.source.as_str(), source) {
                                out.push(entry.clone());
                            }
                            proof {
                                assert(self@.https.take(i as int + 1).drop_last()
                                    =~= self@.https.take(i as int));
                                assert(self@.https.take(i as int + 1).last() == self@.https[i as int]);
                                assert(out@.map_values(|x: HttpsRoute| x@) =~= remove_https(
                                    self@.https.take(i as int + 1),
                                    lower(source@),
                                ));
                            }
                            i += 1;
                        }
                        proof {
                            assert(self@.https.take(n as int) =~= self@.https);
                        }
                        Some(
                            Router {
                                http_route_table: clone_http_vec(&self.http_route_table),
                                https_route_table: out,
                            },
                        )
                    },
                }
            },
        }
    }

    /// An immutable snapshot of this table for one in-flight request: the
    /// request's routing decisions are made against this one value, however
    /// the live table is replaced meanwhile.
    pub fn snapshot(&self) -> (r: Router)
        ensures
            r@ == self@,
    {
        self.clone()
    }

    /// Installs another table in place of this one. Mutations build their
    /// replacement aside and install it here in one step, so this value is
    /// always wholly the old table or wholly the new one.
    pub fn replace(&mut self, new_table: Router)
        ensures
            final(self)@ == new_table@,
    {
        *self = new_table;
    }
}

} // verus!
