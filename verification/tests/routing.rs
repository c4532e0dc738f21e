use reprox::route::JsonRoute;
use reprox::router::Router;

fn rec(protocol: &str, source: &str, target: &str) -> JsonRoute {
    JsonRoute {
        protocol: protocol.to_string(),
        source: source.to_string(),
        target: target.to_string(),
        ssl: None,
    }
}

fn rec_ssl(protocol: &str, source: &str, target: &str, ssl: &str) -> JsonRoute {
    JsonRoute {
        protocol: protocol.to_string(),
        source: source.to_string(),
        target: target.to_string(),
        ssl: Some(ssl.to_string()),
    }
}

#[test]
fn load_single_http_route() {
    let records = vec![rec("http", "a.test", "127.0.0.1:9001")];
    let table = Router::load(&records).unwrap();
    let http = table.get_http_routes();
    assert_eq!(http.len(), 1);
    assert_eq!(http[0].source, "a.test");
    assert_eq!(http[0].target, "127.0.0.1:9001");
    assert_eq!(table.get_https_routes().len(), 0);
}

#[test]
fn load_rejects_unsupported_protocol() {
    let records = vec![rec("ftp", "a.test", "127.0.0.1:9001")];
    let err = match Router::load(&records) {
        Ok(_) => panic!("an unsupported protocol tag must fail the load"),
        Err(e) => e,
    };
    assert_eq!(err.invalid, vec![0]);
}

#[test]
fn load_reports_every_invalid_record() {
    let records = vec![
        rec("http", "a.test", "127.0.0.1:9001"),
        rec("ftp", "b.test", "127.0.0.1:9002"),
        rec("gopher", "c.test", "127.0.0.1:9003"),
    ];
    let err = Router::load(&records).err().unwrap();
    assert_eq!(err.invalid, vec![1, 2]);
}

#[test]
fn load_rejects_duplicate_host_key_in_bucket() {
    let records = vec![
        rec("http", "a.test", "127.0.0.1:9001"),
        rec("http", "A.TEST", "127.0.0.1:9002"),
    ];
    let err = Router::load(&records).err().unwrap();
    assert_eq!(err.invalid, vec![1]);
}

#[test]
fn load_allows_same_host_in_both_buckets() {
    let records = vec![
        rec("http", "a.test", "127.0.0.1:9001"),
        rec_ssl("https", "a.test", "127.0.0.1:9443", "/certs/a.pem"),
    ];
    let table = Router::load(&records).unwrap();
    assert_eq!(table.get_http_routes().len(), 1);
    assert_eq!(table.get_https_routes().len(), 1);
}

#[test]
fn load_folds_protocol_tag_case() {
    let records = vec![
        rec("HTTP", "a.test", "127.0.0.1:9001"),
        rec_ssl("HtTpS", "b.test", "127.0.0.1:9443", "/certs/b.pem"),
    ];
    let table = Router::load(&records).unwrap();
    let http = table.get_http_routes();
    let https = table.get_https_routes();
    assert_eq!(http.len(), 1);
    assert_eq!(http[0].source, "a.test");
    assert_eq!(https.len(), 1);
    assert_eq!(https[0].source, "b.test");
    assert_eq!(https[0].ssl_path, "/certs/b.pem");
}

#[test]
fn https_route_without_ssl_gets_empty_path() {
    let records = vec![rec("https", "a.test", "127.0.0.1:9443")];
    let table = Router::load(&records).unwrap();
    assert_eq!(table.get_https_routes()[0].ssl_path, "");
}

#[test]
fn lookup_strips_port_and_folds_case() {
    let records = vec![rec("http", "a.test", "127.0.0.1:9001")];
    let table = Router::load(&records).unwrap();
    let hit = table.lookup_http("A.TEST:8080").unwrap();
    assert_eq!(hit.target, "127.0.0.1:9001");
    assert!(table.lookup_http("b.test").is_none());
    assert!(table.lookup_https("a.test").is_none());
}

#[test]
fn empty_configuration_loads_empty_table() {
    let records: Vec<JsonRoute> = Vec::new();
    let table = Router::load(&records).unwrap();
    assert_eq!(table.get_http_routes().len(), 0);
    assert_eq!(table.get_https_routes().len(), 0);
    assert!(table.lookup_http("a.test").is_none());
}
