//! What an agent is started with: where it reads, where it sends, how it
//! waits, and what it does when the sink fails.

use crate::error::AgentError;
use vstd::prelude::*;

verus! {

/// The file that is followed where no path is given.
pub const DEFAULT_LOG_PATH: &'static str = "src/logs/app.log";

/// The service's name where the environment gives none.
pub const DEFAULT_SERVICE: &'static str = "omnisec-agent";

/// The host's name where the system's answer is no text.
pub const UNKNOWN_HOST: &'static str = "unknown-host";

/// The environment variable that names the service.
pub const SERVICE_VARIABLE: &'static str = "SERVICE_NAME";

/// The brokers that the sink is reached through.
pub const DEFAULT_BROKERS: &'static str = "localhost:29092";

/// The topic that events are sent to.
pub const DEFAULT_TOPIC: &'static str = "omnisec-logs";

/// How long the broker's client may hold a message, in milliseconds.
pub const MESSAGE_TIMEOUT_MILLIS: u64 = 5000;

/// The pause between two attempts to reach the sink, in milliseconds.
pub const CONNECT_RETRY_MILLIS: u64 = 1000;

/// The pause before the file is read again after its end was reached, in
/// milliseconds.
pub const POLL_MILLIS: u64 = 200;

/// How long an acknowledgement is waited for, in milliseconds.
pub const SEND_TIMEOUT_MILLIS: u64 = 1000;

/// What the agent does when the sink fails.
#[derive(Clone, Copy, Debug, PartialEq, Eq, Structural)]
pub enum DeliveryPolicy {
    /// Try to reach the sink again and again, with a fixed pause. A message
    /// that the sink does not take is lost, and the agent goes on: each line
    /// is handed over once or not at all.
    AtMostOnceBestEffort,
    /// Any failure of the sink ends the agent.
    FailFast,
}

impl Default for DeliveryPolicy {
    fn default() -> (policy: DeliveryPolicy)
        ensures
            policy == DeliveryPolicy::AtMostOnceBestEffort,
    {
        DeliveryPolicy::AtMostOnceBestEffort
    }
}

/// The agent's pauses, in milliseconds.
#[derive(Clone, Copy, Debug, PartialEq, Eq, Structural)]
pub struct Timing {
    /// Between two attempts to reach the sink.
    pub connect_retry_millis: u64,
    /// Before the file is read again after its end was reached.
    pub poll_millis: u64,
    /// How long an acknowledgement is waited for.
    pub send_timeout_millis: u64,
}

impl Timing {
    /// One second between attempts, a fifth of a second between reads, one
    /// second for an acknowledgement.
    pub fn standard() -> (timing: Timing)
        ensures
            timing == (Timing {
                connect_retry_millis: CONNECT_RETRY_MILLIS,
                poll_millis: POLL_MILLIS,
                send_timeout_millis: SEND_TIMEOUT_MILLIS,
            }),
    {
        Timing {
            connect_retry_millis: CONNECT_RETRY_MILLIS,
            poll_millis: POLL_MILLIS,
            send_timeout_millis: SEND_TIMEOUT_MILLIS,
        }
    }

    /// No pause at all.
    pub fn immediate() -> (timing: Timing)
        ensures
            timing == (Timing { connect_retry_millis: 0, poll_millis: 0, send_timeout_millis: 0 }),
    {
        Timing { connect_retry_millis: 0, poll_millis: 0, send_timeout_millis: 0 }
    }
}

/// The path of the file to follow: the first argument of the command line,
/// or [`DEFAULT_LOG_PATH`] where there is none.
pub fn resolve_path(argument: Option<String>) -> (path: String)
    ensures
        path@ == (match argument {
            Some(given) => given@,
            None => DEFAULT_LOG_PATH@,
        }),
{
    match argument {
        Some(given) => given,
        None => DEFAULT_LOG_PATH.to_owned(),
    }
}

/// The service's name: the value of [`SERVICE_VARIABLE`], or
/// [`DEFAULT_SERVICE`] where it is not set.
pub fn resolve_service(variable: Option<String>) -> (service: String)
    ensures
        service@ == (match variable {
            Some(given) => given@,
            None => DEFAULT_SERVICE@,
        }),
{
    match variable {
        Some(given) => given,
        None => DEFAULT_SERVICE.to_owned(),
    }
}

/// What the system answered when asked for the host's name.
pub enum HostLookup {
    /// A name.
    Named(String),
    /// A name that is no text.
    NotText,
    /// No answer.
    Failed,
}

/// The host's name: the system's answer where it is text, [`UNKNOWN_HOST`]
/// where it is not; no answer is an error.
pub fn resolve_host(found: HostLookup) -> (host: Result<String, AgentError>)
    ensures
        match found {
            HostLookup::Named(name) => host matches Ok(h) && h@ == name@,
            HostLookup::NotText => host matches Ok(h) && h@ == UNKNOWN_HOST@,
            HostLookup::Failed => host == Err::<String, AgentError>(AgentError::HostLookup),
        },
{
    match found {
        HostLookup::Named(name) => Ok(name),
        HostLookup::NotText => Ok(UNKNOWN_HOST.to_owned()),
        HostLookup::Failed => Err(AgentError::HostLookup),
    }
}

/// Calls `hostname::get` and turns the name it gives into a `String`.
///
/// Nothing is claimed of the answer: it is the machine's.
#[verifier::external_body]
fn lookup_host() -> HostLookup {
    match hostname::get() {
        Ok(name) => match name.into_string() {
            Ok(text) => HostLookup::Named(text),
            Err(_) => HostLookup::NotText,
        },
        Err(_) => HostLookup::Failed,
    }
}

/// The name of this host, asked of the system and resolved by [`resolve_host`].
pub fn local_host() -> (host: Result<String, AgentError>)
    ensures
        host matches Err(e) ==> e == AgentError::HostLookup,
{
    resolve_host(lookup_host())
}

} // verus!
