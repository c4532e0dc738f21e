//! The control plane: authenticated administrative commands against the
//! live route table.
//!
//! Every command carries the shared-secret credential and is checked anew; a
//! failed check yields one undistinguishing `AuthError` and no mutation.
//! Mutations validate what `load` validates and build a complete replacement
//! table; the caller installs it with [`Router::replace`] under its write
//! exclusion, so readers see wholly the old table or wholly the new one.

use vstd::prelude::*;
use vstd::string::*;
use crate::text::eq_no_early_exit;
use crate::route::{
    protocol_of, parse_protocol, JsonRoute, JsonRouteV, HttpRoute, HttpRouteV, HttpsRoute,
    HttpsRouteV,
};
use crate::router::{
    Router, RouterV, config_ok, loaded_table, spec_add_route, spec_remove_route, table_wf,
    lemma_load_partitions, lemma_add_preserves_wf, lemma_remove_preserves_wf,
};

verus! {

/// The error kinds a control response can carry.
#[derive(Clone, Copy, PartialEq, Eq, Structural, Debug)]
pub enum ErrorKind {
    /// Invalid or missing credential. Carries no detail: the response does
    /// not reveal whether the secret was malformed or merely wrong.
    AuthError,
    /// A record failed the same validation `load` applies.
    ConfigError,
    /// No entry stands under the named host key.
    RouteNotFound,
    /// A malformed administrative command.
    ControlProtocolError,
    /// The backend could not be reached in time (dispatcher-side kind).
    UpstreamUnavailable,
}

/// One administrative command.
pub enum Command {
    /// Liveness probe; answered with the fixed acknowledgment.
    Echo,
    /// Query the table's contents.
    ListRoutes,
    /// Re-run the full load-and-replace path on fresh records.
    Reload(Vec<JsonRoute>),
    /// Add one record under the same validation as `load`.
    AddRoute(JsonRoute),
    /// Remove the entry under one host key from one protocol bucket.
    RemoveRoute { protocol: String, source: String },
}

/// The mathematical value of a [`Command`].
pub enum CommandV {
    Echo,
    ListRoutes,
    Reload(Seq<JsonRouteV>),
    AddRoute(JsonRouteV),
    RemoveRoute { protocol: Seq<char>, source: Seq<char> },
}

impl View for Command {
    type V = CommandV;

    open spec fn view(&self) -> CommandV {
        match self {
            Command::Echo => CommandV::Echo,
            Command::ListRoutes => CommandV::ListRoutes,
            Command::Reload(rs) => CommandV::Reload(rs@.map_values(|x: JsonRoute| x@)),
            Command::AddRoute(rec) => CommandV::AddRoute(rec@),
            Command::RemoveRoute { protocol, source } => CommandV::RemoveRoute {
                protocol: protocol@,
                source: source@,
            },
        }
    }
}

/// One administrative request: the command and the credential it presents.
pub struct CommandEnvelope {
    pub credential: String,
    pub command: Command,
}

/// The mathematical value of a [`CommandEnvelope`].
pub struct CommandEnvelopeV {
    pub credential: Seq<char>,
    pub command: CommandV,
}

impl View for CommandEnvelope {
    type V = CommandEnvelopeV;

    open spec fn view(&self) -> CommandEnvelopeV {
        CommandEnvelopeV { credential: self.credential@, command: self.command@ }
    }
}

/// One control response.
pub enum ControlReply {
    /// The fixed acknowledgment: the probe answered or the mutation committed.
    Ack,
    /// The table's contents, bucket by bucket.
    Routes { http: Vec<HttpRoute>, https: Vec<HttpsRoute> },
    /// The command was rejected; the table is unchanged.
    Error(ErrorKind),
}

/// The mathematical value of a [`ControlReply`].
pub enum ControlReplyV {
    Ack,
    Routes { http: Seq<HttpRouteV>, https: Seq<HttpsRouteV> },
    Error(ErrorKind),
}

impl View for ControlReply {
    type V = ControlReplyV;

    open spec fn view(&self) -> ControlReplyV {
        match self {
            ControlReply::Ack => ControlReplyV::Ack,
            ControlReply::Routes { http, https } => ControlReplyV::Routes {
                http: http@.map_values(|x: HttpRoute| x@),
                https: https@.map_values(|x: HttpsRoute| x@),
            },
            ControlReply::Error(k) => ControlReplyV::Error(*k),
        }
    }
}

/// The table after one command: unchanged unless the credential matches and
/// the command is a mutation whose validation passes, in which case it is
/// the complete result of that mutation.
pub open spec fn spec_next_table(t: RouterV, secret: Seq<char>, env: CommandEnvelopeV) -> RouterV {
    if env.credential != secret {
        t
    } else {
        match env.command {
            CommandV::Echo => t,
            CommandV::ListRoutes => t,
            CommandV::Reload(rs) => if config_ok(rs) {
                loaded_table(rs)
            } else {
                t
            },
            CommandV::AddRoute(rec) => match spec_add_route(t, rec) {
                Some(t2) => t2,
                None => t,
            },
            CommandV::RemoveRoute { protocol, source } => match protocol_of(protocol) {
                None => t,
                Some(p) => match spec_remove_route(t, p, source) {
                    Some(t2) => t2,
                    None => t,
                },
            },
        }
    }
}

/// The response to one command.
pub open spec fn spec_reply(t: RouterV, secret: Seq<char>, env: CommandEnvelopeV) -> ControlReplyV {
    if env.credential != secret {
        ControlReplyV::Error(ErrorKind::AuthError)
    } else {
        match env.command {
            CommandV::Echo => ControlReplyV::Ack,
            CommandV::ListRoutes => ControlReplyV::Routes { http: t.http, https: t.https },
            CommandV::Reload(rs) => if config_ok(rs) {
                ControlReplyV::Ack
            } else {
                ControlReplyV::Error(ErrorKind::ConfigError)
            },
            CommandV::AddRoute(rec) => if spec_add_route(t, rec) is Some {
                ControlReplyV::Ack
            } else {
                ControlReplyV::Error(ErrorKind::ConfigError)
            },
            CommandV::RemoveRoute { protocol, source } => match protocol_of(protocol) {
                None => ControlReplyV::Error(ErrorKind::ConfigError),
                Some(p) => if spec_remove_route(t, p, source) is Some {
                    ControlReplyV::Ack
                } else {
                    ControlReplyV::Error(ErrorKind::RouteNotFound)
                },
            },
        }
    }
}

/// Handles one authenticated command against one table value, returning the
/// next table and the response. The credential is compared without an early
/// exit on the first mismatching character. A command with a wrong
/// credential returns `AuthError` and the table exactly as it was, whatever
/// the command body holds.
pub fn handle_command(router: &Router, secret: &str, env: &CommandEnvelope) -> (r: (
    Router,
    ControlReply,
))
    ensures
        r.0@ == spec_next_table(router@, secret@, env@),
        r.1@ == spec_reply(router@, secret@, env@),
        env@.credential != secret@ ==> r.0@ == router@ && r.1@ == ControlReplyV::Error(
            ErrorKind::AuthError,
        ),
{
    if !eq_no_early_exit(env.credential.as_str(), secret) {
        return (router.clone(), ControlReply::Error(ErrorKind::AuthError));
    }
    match &env.command {
        Command::Echo => (router.clone(), ControlReply::Ack),
        Command::ListRoutes => (
            router.clone(),
            ControlReply::Routes {
                http: router.get_http_routes(),
                https: router.get_https_routes(),
            },
        ),
        Command::Reload(rs) => match Router::load(rs) {
            Ok(t2) => (t2, ControlReply::Ack),
            Err(_) => (router.clone(), ControlReply::Error(ErrorKind::ConfigError)),
        },
        Command::AddRoute(rec) => match router.add_route(rec) {
            Some(t2) => (t2, ControlReply::Ack),
            None => (router.clone(), ControlReply::Error(ErrorKind::ConfigError)),
        },
        Command::RemoveRoute { protocol, source } => match parse_protocol(protocol.as_str()) {
            None => (router.clone(), ControlReply::Error(ErrorKind::ConfigError)),
            Some(p) => match router.remove_route(p, source.as_str()) {
                Some(t2) => (t2, ControlReply::Ack),
                None => (router.clone(), ControlReply::Error(ErrorKind::RouteNotFound)),
            },
        },
    }
}

/// Law: administrative updates are atomic. After any command the table is
/// exactly the table before the command, or exactly the complete result of
/// the one mutation the command names — never a mixture. A reader that
/// snapshots before the commit therefore works against wholly the old
/// table, and one that snapshots after works against wholly the new one.
/// Law: the table invariant is preserved by the whole control plane — if
/// the bucket keys of a table are unique, they are unique in the table any
/// command leaves behind. With `load` establishing the invariant, it holds
/// in every reachable table state.
pub proof fn lemma_command_preserves_wf(t: RouterV, secret: Seq<char>, env: CommandEnvelopeV)
    requires
        table_wf(t),
    ensures
        table_wf(spec_next_table(t, secret, env)),
{
    if env.credential == secret {
        match env.command {
            CommandV::Reload(rs) => {
                if config_ok(rs) {
                    lemma_load_partitions(rs);
                }
            },
            CommandV::AddRoute(rec) => {
                lemma_add_preserves_wf(t, rec);
            },
            CommandV::RemoveRoute { protocol, source } => {
                match protocol_of(protocol) {
                    Some(p) => {
                        lemma_remove_preserves_wf(t, p, source);
                    },
                    None => {},
                }
            },
            _ => {},
        }
    }
}

pub proof fn lemma_update_atomic(t: RouterV, secret: Seq<char>, env: CommandEnvelopeV)
    ensures
        ({
            let t2 = spec_next_table(t, secret, env);
            ||| t2 == t
            ||| (env.command matches CommandV::Reload(rs) && config_ok(rs) && t2 == loaded_table(
                rs,
            ))
            ||| (env.command matches CommandV::AddRoute(rec) && spec_add_route(t, rec) == Some(t2))
            ||| (env.command matches CommandV::RemoveRoute { protocol, source }
                && protocol_of(protocol) matches Some(p) && spec_remove_route(t, p, source)
                == Some(t2))
        }),
{
}

} // verus!
