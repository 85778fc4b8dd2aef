//! The agent as a state machine over mathematical values: what each input
//! does to the state, and which action answers it.
//!
//! The agent and whoever runs it take turns. The agent asks for one action at
//! a time; the runner performs it and hands back the input that tells how it
//! went. [`next`] is the whole rule; the executable agent refines it.

use crate::clock::{rfc3339_text, Instant};
use crate::config::{DeliveryPolicy, Timing};
use crate::error::AgentError;
use crate::event::{event_of, payload_text, EnrichmentView, EventView};
use crate::tail::TailView;
use vstd::prelude::*;
use vstd::utf8::{decode_utf8, valid_utf8};

verus! {

/// Where the agent stands between two turns.
#[derive(Clone, Copy, Debug, PartialEq, Eq, Structural)]
pub enum Phase {
    /// Nothing has been asked for yet.
    Disconnected,
    /// An attempt to reach the sink is under way.
    Connecting,
    /// The last attempt failed, and the pause before the next one is running.
    Backoff,
    /// The sink is reached, and a read of the file is under way.
    Reading,
    /// The sink is reached, the file's end was met, and the pause before the
    /// next read is running.
    Polling,
    /// The sink is reached, and a message is on its way to it.
    Sending,
    /// The agent has ended, for the reason given.
    Stopped(AgentError),
}

/// The state of the connection to the sink.
#[derive(Clone, Copy, Debug, PartialEq, Eq, Structural)]
pub enum SinkState {
    /// No connection, and none being made.
    Disconnected,
    /// Attempts are being made, with pauses between them.
    Connecting,
    /// The sink is reached.
    Connected,
}

impl Phase {
    /// The state of the connection in this phase. An agent that has stopped
    /// holds no connection.
    pub open spec fn sink(self) -> SinkState {
        match self {
            Phase::Disconnected => SinkState::Disconnected,
            Phase::Connecting => SinkState::Connecting,
            Phase::Backoff => SinkState::Connecting,
            Phase::Reading => SinkState::Connected,
            Phase::Polling => SinkState::Connected,
            Phase::Sending => SinkState::Connected,
            Phase::Stopped(_) => SinkState::Disconnected,
        }
    }

    /// The state of the connection in this phase.
    pub fn sink_state(&self) -> (state: SinkState)
        ensures
            state == self.sink(),
    {
        match self {
            Phase::Disconnected => SinkState::Disconnected,
            Phase::Connecting => SinkState::Connecting,
            Phase::Backoff => SinkState::Connecting,
            Phase::Reading => SinkState::Connected,
            Phase::Polling => SinkState::Connected,
            Phase::Sending => SinkState::Connected,
            Phase::Stopped(_) => SinkState::Disconnected,
        }
    }
}

/// What the runner reports.
pub enum InputView {
    /// The runner is ready: the file is open, and its length was given.
    Start,
    /// The sink was reached.
    Connected,
    /// The sink could not be reached.
    ConnectFailed,
    /// The bytes that stood in the file at the offset asked for; none at the
    /// file's end.
    Data(Seq<u8>),
    /// The file could not be read.
    ReadFailed,
    /// The sink acknowledged the message.
    Delivered,
    /// The sink refused the message, or did not answer in time.
    SendFailed,
    /// The pause is over.
    Woke,
}

/// What the agent asks for.
pub enum ActionView {
    /// Try to reach the sink.
    Connect,
    /// Pause for so many milliseconds.
    Wait { millis: u64 },
    /// Read what stands in the file from this offset on.
    Read { offset: nat },
    /// Hand this payload to the sink, under this key, and wait so many
    /// milliseconds for its acknowledgement.
    Send { key: Seq<char>, payload: Seq<char>, timeout_millis: u64 },
    /// End, with this failure.
    Stop { error: AgentError },
}

/// One line handed to the sink: the clock's reading at that moment, the
/// line's bytes, and the event made of them.
pub struct Emission {
    pub at: Instant,
    pub line: Seq<u8>,
    pub event: EventView,
}

/// What an agent stands for.
pub struct AgentView {
    pub policy: DeliveryPolicy,
    pub timing: Timing,
    pub place: EnrichmentView,
    pub phase: Phase,
    /// The read cursor.
    pub reader: TailView,
    /// The complete lines that were read and not yet handed to the sink.
    pub queue: Seq<Seq<u8>>,
    /// Every byte read since following began.
    pub seen: Seq<u8>,
    /// Every line handed to the sink, first to last.
    pub emitted: Seq<Emission>,
}

impl AgentView {
    /// The same agent in another phase.
    pub open spec fn in_phase(self, phase: Phase) -> AgentView {
        AgentView { phase, ..self }
    }

    /// The agent after `data` was read at its offset: the cursor has moved
    /// past `data`, and the lines that `data` completed wait in the queue.
    pub open spec fn took_in(self, data: Seq<u8>) -> AgentView {
        AgentView {
            reader: self.reader.fed(data),
            queue: self.queue + self.reader.completed_by(data),
            seen: self.seen + data,
            ..self
        }
    }
}

/// An agent that has not begun: it stands at the end of a file of `file_len`
/// bytes, and has read and sent nothing.
pub open spec fn fresh(
    policy: DeliveryPolicy,
    timing: Timing,
    place: EnrichmentView,
    file_len: u64,
) -> AgentView {
    AgentView {
        policy,
        timing,
        place,
        phase: Phase::Disconnected,
        reader: TailView { start: file_len as nat, offset: file_len as nat, pending: Seq::empty() },
        queue: Seq::empty(),
        seen: Seq::empty(),
        emitted: Seq::empty(),
    }
}

/// The agent ends.
pub open spec fn stopped(agent: AgentView, error: AgentError) -> (AgentView, ActionView) {
    (agent.in_phase(Phase::Stopped(error)), ActionView::Stop { error })
}

/// The first line of the queue is handed to the sink, as an event made at `now`.
///
/// A line that is no text ends the agent and stays where it is; so does a
/// reading of the clock that has no date, and an event that has no payload.
pub open spec fn forward(agent: AgentView, now: Instant) -> (AgentView, ActionView)
    recommends
        agent.queue.len() > 0,
{
    let line = agent.queue[0];
    if !valid_utf8(line) {
        stopped(agent, AgentError::SourceIo)
    } else {
        match rfc3339_text(now.secs, now.nanos) {
            None => stopped(agent, AgentError::Timestamp),
            Some(timestamp) => {
                let event = event_of(timestamp, decode_utf8(line), agent.place);
                match payload_text(event) {
                    None => stopped(agent, AgentError::Serialization),
                    Some(payload) => (
                        AgentView {
                            phase: Phase::Sending,
                            queue: agent.queue.skip(1),
                            emitted: agent.emitted.push(Emission { at: now, line, event }),
                            ..agent
                        },
                        ActionView::Send {
                            key: event.level,
                            payload,
                            timeout_millis: agent.timing.send_timeout_millis,
                        },
                    ),
                }
            },
        }
    }
}

/// The sink is reached and nothing is under way: the next line is forwarded
/// where one waits, and the file is read where none does.
pub open spec fn resume(agent: AgentView, now: Instant) -> (AgentView, ActionView) {
    if agent.queue.len() > 0 {
        forward(agent, now)
    } else {
        (agent.in_phase(Phase::Reading), ActionView::Read { offset: agent.reader.offset })
    }
}

/// What `input`, arriving at `now`, does to `agent`, and the action that
/// answers it.
///
/// - Before anything else, `Start` asks for a connection.
/// - A failed attempt is followed by a pause and another attempt, without end,
///   under [`DeliveryPolicy::AtMostOnceBestEffort`]; it ends the agent under
///   [`DeliveryPolicy::FailFast`].
/// - Once the sink is reached, lines are forwarded one at a time, in the order
///   in which they were read; the file is read again only when none waits.
/// - An empty read is the file's end: a pause follows, then another read.
/// - A message goes out under the key `INFO`, with the time that the sink is
///   given to acknowledge it. One that the sink did not take is not sent
///   again: the agent goes on under `AtMostOnceBestEffort` and ends under
///   `FailFast`.
/// - A failed read ends the agent, and so does a read that would take the
///   offset out of `u64`.
/// - An agent that has stopped stays as it is and answers `Stop`.
/// - Any other input does not answer what was asked for, and ends the agent.
pub open spec fn next(agent: AgentView, input: InputView, now: Instant) -> (AgentView, ActionView) {
    match agent.phase {
        Phase::Stopped(error) => (agent, ActionView::Stop { error }),
        Phase::Disconnected => match input {
            InputView::Start => (agent.in_phase(Phase::Connecting), ActionView::Connect),
            _ => stopped(agent, AgentError::OutOfTurn),
        },
        Phase::Connecting => match input {
            InputView::Connected => resume(agent, now),
            InputView::ConnectFailed => match agent.policy {
                DeliveryPolicy::AtMostOnceBestEffort => (
                    agent.in_phase(Phase::Backoff),
                    ActionView::Wait { millis: agent.timing.connect_retry_millis },
                ),
                DeliveryPolicy::FailFast => stopped(agent, AgentError::SinkConnect),
            },
            _ => stopped(agent, AgentError::OutOfTurn),
        },
        Phase::Backoff => match input {
            InputView::Woke => (agent.in_phase(Phase::Connecting), ActionView::Connect),
            _ => stopped(agent, AgentError::OutOfTurn),
        },
        Phase::Reading => match input {
            InputView::Data(data) => if data.len() == 0 {
                (
                    agent.in_phase(Phase::Polling),
                    ActionView::Wait { millis: agent.timing.poll_millis },
                )
            } else if agent.reader.offset + data.len() > u64::MAX {
                stopped(agent, AgentError::SourceIo)
            } else {
                resume(agent.took_in(data), now)
            },
            InputView::ReadFailed => stopped(agent, AgentError::SourceIo),
            _ => stopped(agent, AgentError::OutOfTurn),
        },
        Phase::Polling => match input {
            InputView::Woke => (
                agent.in_phase(Phase::Reading),
                ActionView::Read { offset: agent.reader.offset },
            ),
            _ => stopped(agent, AgentError::OutOfTurn),
        },
        Phase::Sending => match input {
            InputView::Delivered => resume(agent, now),
            InputView::SendFailed => match agent.policy {
                DeliveryPolicy::AtMostOnceBestEffort => resume(agent, now),
                DeliveryPolicy::FailFast => stopped(agent, AgentError::SinkSend),
            },
            _ => stopped(agent, AgentError::OutOfTurn),
        },
    }
}

/// The agent after a run of turns, each an input and the clock's reading when
/// it arrived.
pub open spec fn run(agent: AgentView, turns: Seq<(InputView, Instant)>) -> AgentView
    decreases turns.len(),
{
    if turns.len() == 0 {
        agent
    } else {
        next(run(agent, turns.drop_last()), turns.last().0, turns.last().1).0
    }
}

} // verus!
