//! The agent: the executable form of the state machine in [`crate::model`].

use crate::clock::{rfc3339_text, Instant};
use crate::config::{DeliveryPolicy, Timing};
use crate::error::AgentError;
use crate::event::{Enrichment, Event};
use crate::model::{
    forward, fresh, next, resume, stopped, ActionView, AgentView, Emission, InputView, Phase,
    SinkState,
};
use crate::safety::{consistent, lemma_fresh_is_consistent, lemma_next_keeps_consistent};
use crate::tail::{line_views, TailReader};
use crate::text::decode_line;
use std::collections::VecDeque;
use vstd::prelude::*;

verus! {

/// What the runner reports to the agent.
#[derive(Debug, PartialEq, Eq)]
pub enum Input {
    /// The runner is ready: the file is open, and its length was given.
    Start,
    /// The sink was reached.
    Connected,
    /// The sink could not be reached.
    ConnectFailed,
    /// The bytes that stood in the file at the offset asked for; none at the
    /// file's end.
    Data(Vec<u8>),
    /// The file could not be read.
    ReadFailed,
    /// The sink acknowledged the message.
    Delivered,
    /// The sink refused the message, or did not answer in time.
    SendFailed,
    /// The pause is over.
    Woke,
}

impl View for Input {
    type V = InputView;

    open spec fn view(&self) -> InputView {
        match self {
            Input::Start => InputView::Start,
            Input::Connected => InputView::Connected,
            Input::ConnectFailed => InputView::ConnectFailed,
            Input::Data(data) => InputView::Data(data@),
            Input::ReadFailed => InputView::ReadFailed,
            Input::Delivered => InputView::Delivered,
            Input::SendFailed => InputView::SendFailed,
            Input::Woke => InputView::Woke,
        }
    }
}

/// What the agent asks the runner to do.
#[derive(Debug, PartialEq, Eq)]
pub enum Action {
    /// Try to reach the sink.
    Connect,
    /// Pause for so many milliseconds, then report `Woke`.
    Wait { millis: u64 },
    /// Read what stands in the file from this offset on, and report it.
    Read { offset: u64 },
    /// Hand this payload to the sink, under this key, wait so many
    /// milliseconds for its acknowledgement, and report how it went.
    Send { key: String, payload: String, timeout_millis: u64 },
    /// End the process, with this failure.
    Stop { error: AgentError },
}

impl View for Action {
    type V = ActionView;

    open spec fn view(&self) -> ActionView {
        match self {
            Action::Connect => ActionView::Connect,
            Action::Wait { millis } => ActionView::Wait { millis: *millis },
            Action::Read { offset } => ActionView::Read { offset: *offset as nat },
            Action::Send { key, payload, timeout_millis } => ActionView::Send {
                key: key@,
                payload: payload@,
                timeout_millis: *timeout_millis,
            },
            Action::Stop { error } => ActionView::Stop { error: *error },
        }
    }
}

/// Appends `lines` to `queue`, in their order.
fn enqueue(queue: &mut VecDeque<Vec<u8>>, lines: Vec<Vec<u8>>)
    ensures
        line_views(final(queue)@) == line_views(old(queue)@) + line_views(lines@),
{
    let ghost waiting = queue@;
    for line in it: lines
        invariant
            queue@ == waiting + lines@.take(it.index()),
    {
        queue.push_back(line);
    }
}

/// A log-forwarding agent between two turns.
pub struct Agent {
    policy: DeliveryPolicy,
    timing: Timing,
    place: Enrichment,
    phase: Phase,
    reader: TailReader,
    queue: VecDeque<Vec<u8>>,
    seen: Ghost<Seq<u8>>,
    emitted: Ghost<Seq<Emission>>,
}

impl View for Agent {
    type V = AgentView;

    closed spec fn view(&self) -> AgentView {
        AgentView {
            policy: self.policy,
            timing: self.timing,
            place: self.place@,
            phase: self.phase,
            reader: self.reader@,
            queue: line_views(self.queue@),
            seen: self.seen@,
            emitted: self.emitted@,
        }
    }
}

impl Agent {
    /// An agent that follows a file from its end, `file_len` bytes in, and has
    /// not begun.
    pub fn new(policy: DeliveryPolicy, timing: Timing, place: Enrichment, file_len: u64) -> (agent:
        Agent)
        ensures
            agent@ == fresh(policy, timing, place@, file_len),
            consistent(agent@),
    {
        proof {
            lemma_fresh_is_consistent(policy, timing, place@, file_len);
        }
        let agent = Agent {
            policy,
            timing,
            place,
            phase: Phase::Disconnected,
            reader: TailReader::at_end(file_len),
            queue: VecDeque::new(),
            seen: Ghost(Seq::empty()),
            emitted: Ghost(Seq::empty()),
        };
        agent
    }

    /// Where the agent stands.
    pub fn phase(&self) -> (phase: Phase)
        ensures
            phase == self@.phase,
    {
        self.phase
    }

    /// The state of the connection to the sink.
    pub fn sink_state(&self) -> (state: SinkState)
        ensures
            state == self@.phase.sink(),
    {
        self.phase.sink_state()
    }

    /// The failure that ended the agent, if it has ended.
    pub fn failure(&self) -> (failure: Option<AgentError>)
        ensures
            failure == (match self@.phase {
                Phase::Stopped(error) => Some(error),
                _ => None,
            }),
    {
        match self.phase {
            Phase::Stopped(error) => Some(error),
            _ => None,
        }
    }

    /// The policy that the agent was made with.
    pub fn policy(&self) -> (policy: DeliveryPolicy)
        ensures
            policy == self@.policy,
    {
        self.policy
    }

    /// The pauses that the agent was made with.
    pub fn timing(&self) -> (timing: Timing)
        ensures
            timing == self@.timing,
    {
        self.timing
    }

    /// The offset at which following began.
    pub fn start_offset(&self) -> (offset: u64)
        ensures
            offset == self@.reader.start,
    {
        self.reader.start()
    }

    /// The offset of the next byte to read.
    pub fn read_offset(&self) -> (offset: u64)
        ensures
            offset == self@.reader.offset,
    {
        self.reader.offset()
    }

    /// How many complete lines wait to be handed to the sink.
    pub fn waiting(&self) -> (lines: usize)
        ensures
            lines == self@.queue.len(),
    {
        self.queue.len()
    }

    /// Ends the agent.
    fn stop(&mut self, error: AgentError) -> (action: Action)
        ensures
            (final(self)@, action@) == stopped(old(self)@, error),
    {
        self.phase = Phase::Stopped(error);
        Action::Stop { error }
    }

    /// Takes in what was read at the offset.
    fn take_in(&mut self, data: &[u8])
        requires
            old(self)@.reader.offset + data@.len() <= u64::MAX,
        ensures
            final(self)@ == old(self)@.took_in(data@),
    {
        let lines = self.reader.feed(data);
        enqueue(&mut self.queue, lines);
        proof {
            self.seen@ = self.seen@ + data@;
        }
    }

    /// Forwards the first line of the queue.
    fn forward(&mut self, now: Instant) -> (action: Action)
        requires
            old(self)@.queue.len() > 0,
        ensures
            (final(self)@, action@) == forward(old(self)@, now),
    {
        let message = match decode_line(self.queue[0].as_slice()) {
            Some(text) => text,
            None => { return self.stop(AgentError::SourceIo); },
        };
        let timestamp = match now.to_rfc3339() {
            Some(text) => text,
            None => { return self.stop(AgentError::Timestamp); },
        };
        let event = Event::new(timestamp, message, &self.place);
        let payload = match event.to_json() {
            Ok(text) => text,
            Err(_) => { return self.stop(AgentError::Serialization); },
        };
        let ghost line = self.queue@[0]@;
        let ghost waiting = self.queue@;
        let sent = self.queue.pop_front();
        proof {
            self.emitted@ = self.emitted@.push(Emission { at: now, line, event: event@ });
            assert(line_views(self.queue@) =~= line_views(waiting).skip(1));
        }
        self.phase = Phase::Sending;
        Action::Send {
            key: event.level().to_owned(),
            payload,
            timeout_millis: self.timing.send_timeout_millis,
        }
    }

    /// Goes on once the sink is reached and nothing is under way.
    fn resume(&mut self, now: Instant) -> (action: Action)
        ensures
            (final(self)@, action@) == resume(old(self)@, now),
    {
        if self.queue.len() > 0 {
            self.forward(now)
        } else {
            self.phase = Phase::Reading;
            Action::Read { offset: self.reader.offset() }
        }
    }

    /// One turn: takes the runner's report, at the clock's reading `now`, and
    /// answers with what to do next. See [`next`].
    pub fn step(&mut self, input: Input, now: Instant) -> (action: Action)
        ensures
            (final(self)@, action@) == next(old(self)@, input@, now),
            consistent(old(self)@) ==> consistent(final(self)@),
    {
        proof {
            if consistent(self@) {
                lemma_next_keeps_consistent(self@, input@, now);
            }
        }
        match self.phase {
            Phase::Stopped(error) => Action::Stop { error },
            Phase::Disconnected => match input {
                Input::Start => {
                    self.phase = Phase::Connecting;
                    Action::Connect
                },
                _ => self.stop(AgentError::OutOfTurn),
            },
            Phase::Connecting => match input {
                Input::Connected => self.resume(now),
                Input::ConnectFailed => match self.policy {
                    DeliveryPolicy::AtMostOnceBestEffort => {
                        self.phase = Phase::Backoff;
                        Action::Wait { millis: self.timing.connect_retry_millis }
                    },
                    DeliveryPolicy::FailFast => self.stop(AgentError::SinkConnect),
                },
                _ => self.stop(AgentError::OutOfTurn),
            },
            Phase::Backoff => match input {
                Input::Woke => {
                    self.phase = Phase::Connecting;
                    Action::Connect
                },
                _ => self.stop(AgentError::OutOfTurn),
            },
            Phase::Reading => match input {
                Input::Data(data) => {
                    if data.len() == 0 {
                        self.phase = Phase::Polling;
                        Action::Wait { millis: self.timing.poll_millis }
                    } else if !self.reader.has_room_for(data.len()) {
                        self.stop(AgentError::SourceIo)
                    } else {
                        self.take_in(data.as_slice());
                        self.resume(now)
                    }
                },
                Input::ReadFailed => self.stop(AgentError::SourceIo),
                _ => self.stop(AgentError::OutOfTurn),
            },
            Phase::Polling => match input {
                Input::Woke => {
                    self.phase = Phase::Reading;
                    Action::Read { offset: self.reader.offset() }
                },
                _ => self.stop(AgentError::OutOfTurn),
            },
            Phase::Sending => match input {
                Input::Delivered => self.resume(now),
                Input::SendFailed => match self.policy {
                    DeliveryPolicy::AtMostOnceBestEffort => self.resume(now),
                    DeliveryPolicy::FailFast => self.stop(AgentError::SinkSend),
                },
                _ => self.stop(AgentError::OutOfTurn),
            },
        }
    }

    /// One turn at the instant that the system's clock shows: an instant that
    /// has a calendar date, so that no line is held up for want of a timestamp.
    pub fn step_now(&mut self, input: Input) -> (action: Action)
        ensures
            exists|now: Instant|
                rfc3339_text(now.secs, now.nanos) is Some && (final(self)@, action@) == next(
                    old(self)@,
                    input@,
                    now,
                ),
            consistent(old(self)@) ==> consistent(final(self)@),
    {
        let now = Instant::now();
        self.step(input, now)
    }
}

} // verus!
