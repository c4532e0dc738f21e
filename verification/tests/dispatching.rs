use reprox::dispatch::{
    plan_request, build_forward_uri, not_found_body, upstream_error_body, relay_decision,
    is_hop_header, DispatchPlan, UpstreamOutcome, DEFAULT_FORWARD_TIMEOUT_MS,
};
use reprox::route::{JsonRoute, Protocol};
use reprox::router::Router;

fn one_route_table() -> Router {
    let records = vec![JsonRoute {
        protocol: "http".to_string(),
        source: "a.test".to_string(),
        target: "127.0.0.1:9001".to_string(),
        ssl: None,
    }];
    Router::load(&records).unwrap()
}

#[test]
fn forward_preserves_path_and_query() {
    let table = one_route_table();
    let plan = plan_request(&table, Protocol::Http, Some("a.test"), "/foo", Some("x=1"));
    match plan {
        DispatchPlan::Forward { uri } => assert_eq!(uri, "http://127.0.0.1:9001/foo?x=1"),
        DispatchPlan::NotFound => panic!("a configured host must be forwarded"),
    }
}

#[test]
fn forward_without_query_has_no_question_mark() {
    let table = one_route_table();
    let plan = plan_request(&table, Protocol::Http, Some("a.test:8080"), "/foo", None);
    match plan {
        DispatchPlan::Forward { uri } => assert_eq!(uri, "http://127.0.0.1:9001/foo"),
        DispatchPlan::NotFound => panic!("a configured host must be forwarded"),
    }
}

#[test]
fn unknown_host_is_not_found() {
    let table = one_route_table();
    let plan = plan_request(&table, Protocol::Http, Some("unknown.test"), "/", None);
    assert!(matches!(plan, DispatchPlan::NotFound));
}

#[test]
fn missing_host_is_not_found() {
    let table = one_route_table();
    let plan = plan_request(&table, Protocol::Http, None, "/", None);
    assert!(matches!(plan, DispatchPlan::NotFound));
}

#[test]
fn scheme_selects_bucket() {
    let table = one_route_table();
    let plan = plan_request(&table, Protocol::Https, Some("a.test"), "/", None);
    assert!(matches!(plan, DispatchPlan::NotFound));
}

#[test]
fn not_found_body_is_deterministic_and_distinct() {
    assert_eq!(not_found_body(), "Requested Reprox redirection URL not found...");
    assert_eq!(not_found_body(), not_found_body());
    assert_ne!(not_found_body(), "");
    assert_ne!(not_found_body(), upstream_error_body());
}

#[test]
fn build_forward_uri_rewrites_authority_only() {
    let uri = build_forward_uri("10.0.0.1:80", "/p/q", Some("a=b&c=d"));
    assert_eq!(uri, "http://10.0.0.1:80/p/q?a=b&c=d");
}

#[test]
fn upstream_success_is_relayed_unmodified() {
    assert!(relay_decision(UpstreamOutcome::Responded).is_none());
}

#[test]
fn upstream_failures_become_gateway_errors() {
    assert_eq!(relay_decision(UpstreamOutcome::ConnectFailed).unwrap(), "Error processing request");
    assert_eq!(relay_decision(UpstreamOutcome::TimedOut).unwrap(), "Error processing request");
}

#[test]
fn forward_timeout_is_bounded() {
    assert!(DEFAULT_FORWARD_TIMEOUT_MS > 0);
}

#[test]
fn hop_headers_are_recognized_case_insensitively() {
    assert!(is_hop_header("Connection"));
    assert!(is_hop_header("TRANSFER-ENCODING"));
    assert!(is_hop_header("keep-alive"));
    assert!(!is_hop_header("content-type"));
    assert!(!is_hop_header("host"));
}

#[test]
fn held_snapshot_outlives_a_replacement() {
    let mut live = one_route_table();
    let snapshot = live.snapshot();
    let new_records = vec![JsonRoute {
        protocol: "http".to_string(),
        source: "a.test".to_string(),
        target: "127.0.0.1:9999".to_string(),
        ssl: None,
    }];
    live.replace(Router::load(&new_records).unwrap());
    // The request that took its snapshot before the replacement still
    // completes against the pre-replacement table.
    match plan_request(&snapshot, Protocol::Http, Some("a.test"), "/", None) {
        DispatchPlan::Forward { uri } => assert_eq!(uri, "http://127.0.0.1:9001/"),
        DispatchPlan::NotFound => panic!("a.test must be routed"),
    }
    match plan_request(&live, Protocol::Http, Some("a.test"), "/", None) {
        DispatchPlan::Forward { uri } => assert_eq!(uri, "http://127.0.0.1:9999/"),
        DispatchPlan::NotFound => panic!("a.test must be routed"),
    }
}

#[test]
fn snapshot_sees_one_whole_table() {
    let old_records = vec![
        JsonRoute {
            protocol: "http".to_string(),
            source: "a.test".to_string(),
            target: "127.0.0.1:9001".to_string(),
            ssl: None,
        },
        JsonRoute {
            protocol: "http".to_string(),
            source: "b.test".to_string(),
            target: "127.0.0.1:9002".to_string(),
            ssl: None,
        },
    ];
    let new_records = vec![
        JsonRoute {
            protocol: "http".to_string(),
            source: "a.test".to_string(),
            target: "127.0.0.1:9101".to_string(),
            ssl: None,
        },
        JsonRoute {
            protocol: "http".to_string(),
            source: "b.test".to_string(),
            target: "127.0.0.1:9102".to_string(),
            ssl: None,
        },
    ];
    let old_table = Router::load(&old_records).unwrap();
    let new_table = Router::load(&new_records).unwrap();
    // A request planned against the old snapshot sees both old targets even
    // after the new table exists; one planned against the new snapshot sees
    // both new targets. No plan mixes the two versions.
    for (table, a_target, b_target) in [
        (&old_table, "http://127.0.0.1:9001/", "http://127.0.0.1:9002/"),
        (&new_table, "http://127.0.0.1:9101/", "http://127.0.0.1:9102/"),
    ] {
        match plan_request(table, Protocol::Http, Some("a.test"), "/", None) {
            DispatchPlan::Forward { uri } => assert_eq!(uri, a_target),
            DispatchPlan::NotFound => panic!("a.test must be routed"),
        }
        match plan_request(table, Protocol::Http, Some("b.test"), "/", None) {
            DispatchPlan::Forward { uri } => assert_eq!(uri, b_target),
            DispatchPlan::NotFound => panic!("b.test must be routed"),
        }
    }
}
