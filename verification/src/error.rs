//! Why an agent stops.

use vstd::prelude::*;

verus! {

/// A failure that ends the agent.
#[derive(Clone, Copy, Debug, PartialEq, Eq, Structural)]
pub enum AgentError {
    /// The followed file could not be read, or what was read is no text.
    SourceIo,
    /// The sink could not be reached, under a policy that does not retry.
    SinkConnect,
    /// The sink did not take a message, under a policy that does not go on.
    SinkSend,
    /// An event could not be written as JSON.
    Serialization,
    /// The clock gave an instant that has no calendar date.
    Timestamp,
    /// The name of this host could not be asked of the system.
    HostLookup,
    /// An input arrived that does not answer the action that was asked for.
    OutOfTurn,
}

impl AgentError {
    /// The status with which a process that ends on this failure exits: never zero.
    pub fn exit_code(&self) -> (code: i32)
        ensures
            code == 1,
    {
        1
    }

    /// A sentence for the log.
    pub fn describe(&self) -> (sentence: String)
        ensures
            sentence@ == self.description(),
    {
        match self {
            AgentError::SourceIo => {
                "the followed file could not be read as lines of text".to_owned()
            },
            AgentError::SinkConnect => "the sink could not be reached".to_owned(),
            AgentError::SinkSend => "the sink did not take the message".to_owned(),
            AgentError::Serialization => "the event could not be written as JSON".to_owned(),
            AgentError::Timestamp => "the clock reading has no calendar date".to_owned(),
            AgentError::HostLookup => "the host name could not be read".to_owned(),
            AgentError::OutOfTurn => "an input did not answer the action asked for".to_owned(),
        }
    }

    /// The text of [`AgentError::describe`].
    pub open spec fn description(&self) -> Seq<char> {
        match self {
            AgentError::SourceIo => "the followed file could not be read as lines of text"@,
            AgentError::SinkConnect => "the sink could not be reached"@,
            AgentError::SinkSend => "the sink did not take the message"@,
            AgentError::Serialization => "the event could not be written as JSON"@,
            AgentError::Timestamp => "the clock reading has no calendar date"@,
            AgentError::HostLookup => "the host name could not be read"@,
            AgentError::OutOfTurn => "an input did not answer the action asked for"@,
        }
    }
}

} // verus!
