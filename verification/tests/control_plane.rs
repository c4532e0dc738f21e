use reprox::client::{echo_status, exit_code, ClientOutcome, DEFAULT_CONTROL_TIMEOUT_MS};
use reprox::control::{handle_command, Command, CommandEnvelope, ControlReply, ErrorKind};
use reprox::route::JsonRoute;
use reprox::router::Router;

const SECRET: &str = "test-shared-secret";

fn record(protocol: &str, source: &str, target: &str) -> JsonRoute {
    JsonRoute {
        protocol: protocol.to_string(),
        source: source.to_string(),
        target: target.to_string(),
        ssl: None,
    }
}

fn seeded_table() -> Router {
    Router::load(&vec![record("http", "a.test", "127.0.0.1:9001")]).unwrap()
}

fn envelope(credential: &str, command: Command) -> CommandEnvelope {
    CommandEnvelope { credential: credential.to_string(), command }
}

fn table_bytes(table: &Router) -> Vec<(String, String)> {
    let mut out: Vec<(String, String)> = Vec::new();
    for r in table.get_http_routes() {
        out.push((r.source, r.target));
    }
    for r in table.get_https_routes() {
        out.push((r.source, r.target));
    }
    out
}

#[test]
fn echo_acknowledges_with_correct_credential() {
    let table = seeded_table();
    let (next, reply) = handle_command(&table, SECRET, &envelope(SECRET, Command::Echo));
    assert!(matches!(reply, ControlReply::Ack));
    assert_eq!(table_bytes(&next), table_bytes(&table));
}

#[test]
fn wrong_credential_leaves_table_unchanged() {
    let table = seeded_table();
    let env = envelope(
        "wrong",
        Command::AddRoute(record("http", "b.test", "127.0.0.1:9002")),
    );
    let before = table_bytes(&table);
    let (next, reply) = handle_command(&table, SECRET, &env);
    assert!(matches!(reply, ControlReply::Error(ErrorKind::AuthError)));
    assert_eq!(table_bytes(&next), before);
}

#[test]
fn list_routes_returns_the_table() {
    let table = seeded_table();
    let (_, reply) = handle_command(&table, SECRET, &envelope(SECRET, Command::ListRoutes));
    match reply {
        ControlReply::Routes { http, https } => {
            assert_eq!(http.len(), 1);
            assert_eq!(http[0].source, "a.test");
            assert_eq!(http[0].target, "127.0.0.1:9001");
            assert_eq!(https.len(), 0);
        },
        _ => panic!("list_routes must return the table"),
    }
}

#[test]
fn reload_installs_the_new_table() {
    let table = seeded_table();
    let env = envelope(
        SECRET,
        Command::Reload(vec![record("http", "c.test", "127.0.0.1:9003")]),
    );
    let (next, reply) = handle_command(&table, SECRET, &env);
    assert!(matches!(reply, ControlReply::Ack));
    let http = next.get_http_routes();
    assert_eq!(http.len(), 1);
    assert_eq!(http[0].source, "c.test");
}

#[test]
fn reload_with_invalid_record_keeps_old_table() {
    let table = seeded_table();
    let env = envelope(
        SECRET,
        Command::Reload(vec![record("ftp", "c.test", "127.0.0.1:9003")]),
    );
    let before = table_bytes(&table);
    let (next, reply) = handle_command(&table, SECRET, &env);
    assert!(matches!(reply, ControlReply::Error(ErrorKind::ConfigError)));
    assert_eq!(table_bytes(&next), before);
}

#[test]
fn add_route_commits_one_entry() {
    let table = seeded_table();
    let env = envelope(SECRET, Command::AddRoute(record("http", "b.test", "127.0.0.1:9002")));
    let (next, reply) = handle_command(&table, SECRET, &env);
    assert!(matches!(reply, ControlReply::Ack));
    assert_eq!(next.get_http_routes().len(), 2);
    assert_eq!(next.lookup_http("b.test").unwrap().target, "127.0.0.1:9002");
}

#[test]
fn add_route_rejects_duplicate_key() {
    let table = seeded_table();
    let env = envelope(SECRET, Command::AddRoute(record("http", "A.TEST", "127.0.0.1:9009")));
    let before = table_bytes(&table);
    let (next, reply) = handle_command(&table, SECRET, &env);
    assert!(matches!(reply, ControlReply::Error(ErrorKind::ConfigError)));
    assert_eq!(table_bytes(&next), before);
}

#[test]
fn add_route_rejects_unsupported_protocol() {
    let table = seeded_table();
    let env = envelope(SECRET, Command::AddRoute(record("ftp", "b.test", "127.0.0.1:9002")));
    let (next, reply) = handle_command(&table, SECRET, &env);
    assert!(matches!(reply, ControlReply::Error(ErrorKind::ConfigError)));
    assert_eq!(table_bytes(&next), table_bytes(&table));
}

#[test]
fn remove_route_deletes_the_entry() {
    let table = seeded_table();
    let env = envelope(
        SECRET,
        Command::RemoveRoute { protocol: "http".to_string(), source: "a.test".to_string() },
    );
    let (next, reply) = handle_command(&table, SECRET, &env);
    assert!(matches!(reply, ControlReply::Ack));
    assert_eq!(next.get_http_routes().len(), 0);
    assert!(next.lookup_http("a.test").is_none());
}

#[test]
fn remove_missing_route_reports_not_found() {
    let table = seeded_table();
    let env = envelope(
        SECRET,
        Command::RemoveRoute { protocol: "http".to_string(), source: "b.test".to_string() },
    );
    let before = table_bytes(&table);
    let (next, reply) = handle_command(&table, SECRET, &env);
    assert!(matches!(reply, ControlReply::Error(ErrorKind::RouteNotFound)));
    assert_eq!(table_bytes(&next), before);
}

#[test]
fn echo_status_reports_each_outcome() {
    assert_eq!(echo_status(ClientOutcome::Success), "Successfully connected to Reprox Engine");
    assert_eq!(
        echo_status(ClientOutcome::Unreachable),
        "Failed to establish connection to Reprox Engine"
    );
    assert_eq!(
        echo_status(ClientOutcome::NoEndpoint),
        "Please run 'Connect' for  connect Reprox Engine manually. "
    );
    assert_eq!(
        echo_status(ClientOutcome::TimedOut),
        "Request timed out; outcome unknown, confirm with list_routes"
    );
}

#[test]
fn exit_code_is_zero_exactly_on_success() {
    assert_eq!(exit_code(ClientOutcome::Success), 0);
    assert_ne!(exit_code(ClientOutcome::Unreachable), 0);
    assert_ne!(exit_code(ClientOutcome::TimedOut), 0);
    assert_ne!(exit_code(ClientOutcome::NoEndpoint), 0);
}

#[test]
fn control_timeout_is_bounded() {
    assert!(DEFAULT_CONTROL_TIMEOUT_MS > 0);
}
