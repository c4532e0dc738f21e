//! The control client's reporting: one command, one response or a bounded
//! timeout, and a clear status back to the operator.
//!
//! The transport — opening the connection, sending the command, awaiting the
//! response under the timeout — is the caller's; it hands the outcome here.
//! A transport failure is reported and control returns to the caller; a
//! timed-out command is reported as of unknown effect, to be confirmed with
//! `list_routes`, never assumed applied or not applied.

use vstd::prelude::*;
use vstd::string::*;

verus! {

/// Bound on one control round trip, in milliseconds.
pub const DEFAULT_CONTROL_TIMEOUT_MS: u64 = 5000;

/// How one control round trip ended, as the client saw it.
#[derive(Clone, Copy, PartialEq, Eq, Structural, Debug)]
pub enum ClientOutcome {
    /// No server endpoint is configured; no connection was attempted.
    NoEndpoint,
    /// The command got its response within the timeout.
    Success,
    /// The server was unreachable or refused the connection.
    Unreachable,
    /// The bounded timeout elapsed first; the command's effect is unknown.
    TimedOut,
}

/// The status line the `echo` command reports for each outcome.
pub fn echo_status(outcome: ClientOutcome) -> (r: String)
    ensures
        outcome == ClientOutcome::Success ==> r@ == "Successfully connected to Reprox Engine"@,
        outcome == ClientOutcome::Unreachable ==> r@
            == "Failed to establish connection to Reprox Engine"@,
        outcome == ClientOutcome::NoEndpoint ==> r@
            == "Please run 'Connect' for  connect Reprox Engine manually. "@,
        outcome == ClientOutcome::TimedOut ==> r@
            == "Request timed out; outcome unknown, confirm with list_routes"@,
{
    match outcome {
        ClientOutcome::Success => "Successfully connected to Reprox Engine".to_owned(),
        ClientOutcome::Unreachable => "Failed to establish connection to Reprox Engine".to_owned(),
        ClientOutcome::NoEndpoint => "Please run 'Connect' for  connect Reprox Engine manually. ".to_owned(),
        ClientOutcome::TimedOut => "Request timed out; outcome unknown, confirm with list_routes".to_owned(),
    }
}

/// The process exit code for an outcome: zero exactly on success.
pub fn exit_code(outcome: ClientOutcome) -> (r: i32)
    ensures
        (r == 0 <==> outcome == ClientOutcome::Success),
        outcome == ClientOutcome::NoEndpoint ==> r == 2,
        outcome == ClientOutcome::Unreachable ==> r == 1,
        outcome == ClientOutcome::TimedOut ==> r == 1,
{
    match outcome {
        ClientOutcome::Success => 0,
        ClientOutcome::NoEndpoint => 2,
        ClientOutcome::Unreachable => 1,
        ClientOutcome::TimedOut => 1,
    }
}

} // verus!
