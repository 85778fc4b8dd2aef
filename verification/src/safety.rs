//! What holds of every run of the agent.
//!
//! The statements are about [`next`] and [`run`], which the executable agent
//! refines turn by turn.

use crate::clock::{rfc3339_text, Instant};
use crate::config::{DeliveryPolicy, Timing};
use crate::error::AgentError;
use crate::event::{event_of, payload_text, EnrichmentView, LEVEL_INFO};
use crate::model::{
    forward, fresh, next, run, stopped, ActionView, AgentView, Emission, InputView, Phase,
    SinkState,
};
use crate::tail::{
    complete_lines, lemma_lines_of_concat, lemma_no_line_feed, lemma_unfinished_has_no_line_feed,
    unfinished,
};
use vstd::prelude::*;
use vstd::utf8::{decode_utf8, decode_utf8_encode_utf8, encode_utf8, valid_utf8};

verus! {

/// The lines that were handed to the sink, first to last.
pub open spec fn emitted_lines(emitted: Seq<Emission>) -> Seq<Seq<u8>> {
    emitted.map_values(|emission: Emission| emission.line)
}

/// An emission says what happened: its event carries the line as it was read
/// (the message's UTF-8 bytes are the line's bytes), the level `INFO`, the
/// text of the clock's reading, the place given at start, and has a payload.
pub open spec fn faithful(emission: Emission, place: EnrichmentView) -> bool {
    &&& valid_utf8(emission.line)
    &&& encode_utf8(emission.event.message) == emission.line
    &&& emission.event.level == LEVEL_INFO@
    &&& rfc3339_text(emission.at.secs, emission.at.nanos) == Some(emission.event.timestamp)
    &&& emission.event.host == place.host
    &&& emission.event.service == place.service
    &&& payload_text(emission.event) is Some
}

/// The agent's books agree:
/// - the cursor stands as far past the start as bytes were read;
/// - the pending bytes are what the bytes read leave unfinished;
/// - the lines handed to the sink, followed by the lines that wait, are the
///   complete lines of the bytes read: none is missing, none stands twice,
///   none is out of its place;
/// - every emission is faithful.
pub open spec fn consistent(agent: AgentView) -> bool {
    &&& agent.reader.wf()
    &&& agent.reader.offset == agent.reader.start + agent.seen.len()
    &&& agent.reader.pending == unfinished(agent.seen)
    &&& emitted_lines(agent.emitted) + agent.queue == complete_lines(agent.seen)
    &&& forall|i: int|
        0 <= i < agent.emitted.len() ==> faithful(#[trigger] agent.emitted[i], agent.place)
}

/// An agent that has not begun is consistent.
pub proof fn lemma_fresh_is_consistent(
    policy: DeliveryPolicy,
    timing: Timing,
    place: EnrichmentView,
    file_len: u64,
)
    ensures
        consistent(fresh(policy, timing, place, file_len)),
{
    let agent = fresh(policy, timing, place, file_len);
    lemma_no_line_feed(agent.seen);
}

proof fn lemma_took_in_keeps_consistent(agent: AgentView, data: Seq<u8>)
    requires
        consistent(agent),
        agent.reader.offset + data.len() <= u64::MAX,
    ensures
        consistent(agent.took_in(data)),
{
    let after = agent.took_in(data);
    lemma_lines_of_concat(agent.seen, data);
    lemma_unfinished_has_no_line_feed(agent.reader.pending + data);
    assert(emitted_lines(after.emitted) + after.queue =~= complete_lines(after.seen));
}

proof fn lemma_forward_keeps_consistent(agent: AgentView, now: Instant)
    requires
        consistent(agent),
        agent.queue.len() > 0,
    ensures
        consistent(forward(agent, now).0),
{
    let after = forward(agent, now).0;
    if after.emitted.len() > agent.emitted.len() {
        let line = agent.queue[0];
        decode_utf8_encode_utf8(line);
        assert(emitted_lines(after.emitted) + after.queue =~= emitted_lines(agent.emitted)
            + agent.queue);
    }
}

/// No turn breaks the agent's books.
pub proof fn lemma_next_keeps_consistent(agent: AgentView, input: InputView, now: Instant)
    requires
        consistent(agent),
    ensures
        consistent(next(agent, input, now).0),
{
    match agent.phase {
        Phase::Reading => match input {
            InputView::Data(data) => {
                if data.len() > 0 && agent.reader.offset + data.len() <= u64::MAX {
                    lemma_took_in_keeps_consistent(agent, data);
                    if agent.took_in(data).queue.len() > 0 {
                        lemma_forward_keeps_consistent(agent.took_in(data), now);
                    }
                }
            },
            _ => {},
        },
        _ => {
            if agent.queue.len() > 0 {
                lemma_forward_keeps_consistent(agent, now);
            }
        },
    }
}

/// No run breaks the agent's books.
pub proof fn lemma_run_keeps_consistent(agent: AgentView, turns: Seq<(InputView, Instant)>)
    requires
        consistent(agent),
    ensures
        consistent(run(agent, turns)),
    decreases turns.len(),
{
    if turns.len() > 0 {
        lemma_run_keeps_consistent(agent, turns.drop_last());
        lemma_next_keeps_consistent(run(agent, turns.drop_last()), turns.last().0, turns.last().1);
    }
}

/// Every line is forwarded once, in the order in which it was appended, and
/// as it stands: after any run from the beginning, the lines handed to the
/// sink followed by the lines that wait are the complete lines of the bytes
/// read, and each event's message has exactly the bytes of its line.
pub proof fn lemma_lines_are_forwarded_once_in_order(
    policy: DeliveryPolicy,
    timing: Timing,
    place: EnrichmentView,
    file_len: u64,
    turns: Seq<(InputView, Instant)>,
)
    ensures
        ({
            let agent = run(fresh(policy, timing, place, file_len), turns);
            &&& emitted_lines(agent.emitted) + agent.queue == complete_lines(agent.seen)
            &&& forall|i: int|
                0 <= i < agent.emitted.len() ==> encode_utf8(
                    (#[trigger] agent.emitted[i]).event.message,
                ) == emitted_lines(agent.emitted)[i]
        }),
{
    lemma_fresh_is_consistent(policy, timing, place, file_len);
    lemma_run_keeps_consistent(fresh(policy, timing, place, file_len), turns);
}

/// Handing a line to the sink and asking for `Send` are one thing: a turn
/// that answers `Send` records exactly one emission, made at `now` of the
/// first waiting line, whose payload is the one sent, under the key `INFO`
/// and with the time that the sink is given; any other turn records none.
pub proof fn lemma_send_is_the_emission(agent: AgentView, input: InputView, now: Instant)
    requires
        consistent(agent),
    ensures
        ({
            let (after, action) = next(agent, input, now);
            match action {
                ActionView::Send { key, payload, timeout_millis } => {
                    &&& after.emitted.len() == agent.emitted.len() + 1
                    &&& after.emitted.drop_last() == agent.emitted
                    &&& after.emitted.last().at == now
                    &&& payload_text(after.emitted.last().event) == Some(payload)
                    &&& key == LEVEL_INFO@
                    &&& timeout_millis == agent.timing.send_timeout_millis
                    &&& after.phase == Phase::Sending
                },
                _ => after.emitted == agent.emitted,
            }
        }),
{
}

/// The file `file` is what the agent has been reading: the bytes it has seen
/// are those between the offset at which following began and its cursor.
pub open spec fn follows(agent: AgentView, file: Seq<u8>) -> bool {
    &&& agent.reader.start <= agent.reader.offset <= file.len()
    &&& agent.seen == file.subrange(agent.reader.start as int, agent.reader.offset as int)
}

/// The input is a true report of `file`: where it is data, the data stands
/// in `file` at the agent's cursor.
pub open spec fn reports(input: InputView, agent: AgentView, file: Seq<u8>) -> bool {
    input matches InputView::Data(data) ==> {
        &&& agent.reader.offset + data.len() <= file.len()
        &&& data == file.subrange(
            agent.reader.offset as int,
            agent.reader.offset + data.len() as int,
        )
    }
}

/// A file that grows at its end is still the file that the agent follows.
pub proof fn lemma_follows_a_growing_file(agent: AgentView, file: Seq<u8>, appended: Seq<u8>)
    requires
        follows(agent, file),
    ensures
        follows(agent, file + appended),
{
    assert((file + appended).subrange(agent.reader.start as int, agent.reader.offset as int)
        =~= file.subrange(agent.reader.start as int, agent.reader.offset as int));
}

/// Only what was appended is forwarded: as long as the reports are true, the
/// agent asks for no byte before the offset at which following began, and the
/// lines it has handed to the sink or holds in its queue are the complete
/// lines of the file between that offset and its cursor.
pub proof fn lemma_only_appended_lines_are_forwarded(
    agent: AgentView,
    file: Seq<u8>,
    input: InputView,
    now: Instant,
)
    requires
        consistent(agent),
        follows(agent, file),
        reports(input, agent, file),
    ensures
        ({
            let (after, action) = next(agent, input, now);
            &&& follows(after, file)
            &&& after.reader.start == agent.reader.start
            &&& action matches ActionView::Read { offset } ==> offset == after.reader.offset
                && after.reader.start <= offset
            &&& emitted_lines(after.emitted) + after.queue == complete_lines(
                file.subrange(after.reader.start as int, after.reader.offset as int),
            )
        }),
{
    lemma_next_keeps_consistent(agent, input, now);
    match input {
        InputView::Data(data) => {
            assert(agent.seen + data =~= file.subrange(
                agent.reader.start as int,
                agent.reader.offset + data.len() as int,
            ));
        },
        _ => {},
    }
}

/// Whether every read of `turns` is a true report of `file`, the agent
/// beginning as `agent`.
pub open spec fn truthful(agent: AgentView, file: Seq<u8>, turns: Seq<(InputView, Instant)>) -> bool
    decreases turns.len(),
{
    turns.len() == 0 || (truthful(agent, file, turns.drop_last()) && reports(
        turns.last().0,
        run(agent, turns.drop_last()),
        file,
    ))
}

proof fn lemma_run_follows(agent: AgentView, file: Seq<u8>, turns: Seq<(InputView, Instant)>)
    requires
        consistent(agent),
        follows(agent, file),
        truthful(agent, file, turns),
    ensures
        consistent(run(agent, turns)),
        follows(run(agent, turns), file),
        run(agent, turns).reader.start == agent.reader.start,
    decreases turns.len(),
{
    lemma_run_keeps_consistent(agent, turns);
    if turns.len() > 0 {
        lemma_run_follows(agent, file, turns.drop_last());
        lemma_only_appended_lines_are_forwarded(
            run(agent, turns.drop_last()),
            file,
            turns.last().0,
            turns.last().1,
        );
    }
}

/// The lines that are appended to a file after following began are forwarded
/// once each, in the order in which they were appended, and nothing else is.
///
/// The file held `before` when the agent was made and has grown by `appended`
/// since. Whatever the turns, as long as every read is a true report of the
/// file: the agent has read a beginning of `appended` and nothing of
/// `before`, and the lines it has handed to the sink, followed by the lines
/// that wait in its queue, are the complete lines of that beginning.
pub proof fn lemma_appended_lines_and_no_others(
    policy: DeliveryPolicy,
    timing: Timing,
    place: EnrichmentView,
    before: Seq<u8>,
    appended: Seq<u8>,
    turns: Seq<(InputView, Instant)>,
)
    requires
        before.len() <= u64::MAX,
        truthful(fresh(policy, timing, place, before.len() as u64), before + appended, turns),
    ensures
        ({
            let agent = run(fresh(policy, timing, place, before.len() as u64), turns);
            let read = agent.reader.offset - before.len();
            &&& 0 <= read <= appended.len()
            &&& agent.seen == appended.take(read)
            &&& emitted_lines(agent.emitted) + agent.queue == complete_lines(appended.take(read))
        }),
{
    let begin = fresh(policy, timing, place, before.len() as u64);
    let file = before + appended;
    lemma_fresh_is_consistent(policy, timing, place, before.len() as u64);
    assert(begin.seen =~= file.subrange(begin.reader.start as int, begin.reader.offset as int));
    lemma_run_follows(begin, file, turns);
}

/// The cursor never moves back, and what was read stays read: a turn leaves
/// the offset at which following began where it is, moves the cursor forward
/// or not at all, and adds to the bytes seen or leaves them.
pub proof fn lemma_cursor_never_moves_back(agent: AgentView, input: InputView, now: Instant)
    ensures
        ({
            let after = next(agent, input, now).0;
            &&& after.reader.start == agent.reader.start
            &&& after.reader.offset >= agent.reader.offset
            &&& agent.seen.is_prefix_of(after.seen)
            &&& agent.emitted.is_prefix_of(after.emitted)
        }),
{
}

/// Whether `line` can be forwarded at `now`: it is text, the clock's reading
/// has a date, and the event has a payload.
pub open spec fn sendable(line: Seq<u8>, now: Instant, place: EnrichmentView) -> bool {
    &&& valid_utf8(line)
    &&& rfc3339_text(now.secs, now.nanos) matches Some(timestamp) && payload_text(
        event_of(timestamp, decode_utf8(line), place),
    ) is Some
}

/// Whether `input` tells how a message went in a way that lets an agent with
/// `policy` go on.
pub open spec fn lets_go_on(input: InputView, policy: DeliveryPolicy) -> bool {
    input is Delivered || (input is SendFailed && policy == DeliveryPolicy::AtMostOnceBestEffort)
}

/// No line waits for ever: while a message is under way, each answer that
/// lets the agent go on sends the next waiting line, in the queue's order,
/// as long as the lines can be forwarded. After as many answers as lines
/// taken, those lines have been handed to the sink and the others wait.
pub proof fn lemma_waiting_lines_go_out(agent: AgentView, answers: Seq<(InputView, Instant)>)
    requires
        agent.phase == Phase::Sending,
        answers.len() <= agent.queue.len(),
        forall|i: int|
            0 <= i < answers.len() ==> lets_go_on((#[trigger] answers[i]).0, agent.policy)
                && sendable(agent.queue[i], answers[i].1, agent.place),
    ensures
        ({
            let after = run(agent, answers);
            &&& after.phase == Phase::Sending
            &&& emitted_lines(after.emitted) == emitted_lines(agent.emitted) + agent.queue.take(
                answers.len() as int,
            )
            &&& after.queue == agent.queue.skip(answers.len() as int)
            &&& after.seen == agent.seen
            &&& after.reader == agent.reader
            &&& after.policy == agent.policy
            &&& after.timing == agent.timing
            &&& after.place == agent.place
        }),
    decreases answers.len(),
{
    if answers.len() == 0 {
    } else {
        let earlier = answers.drop_last();
        lemma_waiting_lines_go_out(agent, earlier);
        let before = run(agent, earlier);
        let after = run(agent, answers);
        assert(emitted_lines(after.emitted) =~= emitted_lines(before.emitted).push(
            before.queue[0],
        ));
    }
}

/// Whether no clock reading of `turns` is earlier than one before it.
pub open spec fn clock_never_runs_back(turns: Seq<(InputView, Instant)>) -> bool {
    forall|i: int, j: int|
        0 <= i <= j < turns.len() ==> (#[trigger] turns[i]).1.le((#[trigger] turns[j]).1)
}

/// Whether no emission was made at an earlier instant than one before it.
pub open spec fn stamps_in_order(emitted: Seq<Emission>) -> bool {
    forall|i: int, j: int|
        0 <= i <= j < emitted.len() ==> (#[trigger] emitted[i]).at.le((#[trigger] emitted[j]).at)
}

proof fn lemma_stamps_below(agent: AgentView, turns: Seq<(InputView, Instant)>, bound: Instant)
    requires
        consistent(agent),
        agent.emitted.len() == 0,
        clock_never_runs_back(turns),
        forall|i: int| 0 <= i < turns.len() ==> (#[trigger] turns[i]).1.le(bound),
    ensures
        stamps_in_order(run(agent, turns).emitted),
        forall|k: int|
            0 <= k < run(agent, turns).emitted.len() ==> (#[trigger] run(
                agent,
                turns,
            ).emitted[k]).at.le(bound),
    decreases turns.len(),
{
    if turns.len() > 0 {
        let earlier = turns.drop_last();
        let now = turns.last().1;
        lemma_stamps_below(agent, earlier, now);
        lemma_run_keeps_consistent(agent, earlier);
        let before = run(agent, earlier);
        lemma_send_is_the_emission(before, turns.last().0, now);
    }
}

/// Timestamps follow the clock: where no reading of the clock is earlier than
/// one before it, no event handed to the sink carries an earlier instant than
/// an event handed over before it.
pub proof fn lemma_timestamps_follow_the_clock(agent: AgentView, turns: Seq<(InputView, Instant)>)
    requires
        consistent(agent),
        agent.emitted.len() == 0,
        clock_never_runs_back(turns),
    ensures
        stamps_in_order(run(agent, turns).emitted),
        forall|k: int|
            0 <= k < run(agent, turns).emitted.len() ==> rfc3339_text(
                (#[trigger] run(agent, turns).emitted[k]).at.secs,
                run(agent, turns).emitted[k].at.nanos,
            ) == Some(run(agent, turns).emitted[k].event.timestamp),
{
    lemma_run_keeps_consistent(agent, turns);
    if turns.len() > 0 {
        lemma_stamps_below(agent, turns, turns.last().1);
    }
}

/// An agent that has stopped does nothing more: every input leaves it as it
/// is and is answered with `Stop`.
pub proof fn lemma_stopped_is_final(agent: AgentView, input: InputView, now: Instant)
    requires
        agent.phase is Stopped,
    ensures
        next(agent, input, now) == (agent, ActionView::Stop { error: agent.phase->0 }),
{
}

/// After the agent has stopped, no run changes it: no further line is read
/// or handed to the sink.
pub proof fn lemma_nothing_follows_a_stop(agent: AgentView, turns: Seq<(InputView, Instant)>)
    requires
        agent.phase is Stopped,
    ensures
        run(agent, turns) == agent,
    decreases turns.len(),
{
    if turns.len() > 0 {
        lemma_nothing_follows_a_stop(agent, turns.drop_last());
    }
}

/// Under `AtMostOnceBestEffort` no failure of the sink ends the agent. A
/// failed attempt is answered with the pause before the next one; a message
/// that the sink did not take is dropped, and the agent goes on exactly as
/// after an acknowledgement.
pub proof fn lemma_best_effort_outlives_the_sink(agent: AgentView, input: InputView, now: Instant)
    requires
        agent.policy == DeliveryPolicy::AtMostOnceBestEffort,
    ensures
        agent.phase == Phase::Connecting && input is ConnectFailed ==> next(agent, input, now) == (
            agent.in_phase(Phase::Backoff),
            ActionView::Wait { millis: agent.timing.connect_retry_millis },
        ),
        agent.phase == Phase::Sending && input is SendFailed ==> next(agent, input, now) == next(
            agent,
            InputView::Delivered,
            now,
        ),
        !(agent.phase is Stopped) ==> next(agent, input, now).0.phase != Phase::Stopped(
            AgentError::SinkConnect,
        ) && next(agent, input, now).0.phase != Phase::Stopped(AgentError::SinkSend),
{
}

/// Under `FailFast` the first failure of the sink ends the agent.
pub proof fn lemma_fail_fast_ends_on_a_sink_failure(
    agent: AgentView,
    input: InputView,
    now: Instant,
)
    requires
        agent.policy == DeliveryPolicy::FailFast,
    ensures
        agent.phase == Phase::Connecting && input is ConnectFailed ==> next(agent, input, now)
            == stopped(agent, AgentError::SinkConnect),
        agent.phase == Phase::Sending && input is SendFailed ==> next(agent, input, now) == stopped(
            agent,
            AgentError::SinkSend,
        ),
{
}

/// A connection, once made, is kept until the agent stops: from a phase in
/// which the sink is reached, a turn leads to another such phase or to a stop.
pub proof fn lemma_connection_is_kept(agent: AgentView, input: InputView, now: Instant)
    requires
        agent.phase.sink() == SinkState::Connected,
    ensures
        next(agent, input, now).0.phase.sink() == SinkState::Connected || next(
            agent,
            input,
            now,
        ).0.phase is Stopped,
{
}

/// `rounds` failed attempts, each followed by its pause.
pub open spec fn failed_attempts(rounds: nat, now: Instant) -> Seq<(InputView, Instant)>
    decreases rounds,
{
    if rounds == 0 {
        Seq::empty()
    } else {
        failed_attempts((rounds - 1) as nat, now).push((InputView::ConnectFailed, now)).push(
            (InputView::Woke, now),
        )
    }
}

/// Under `AtMostOnceBestEffort` the agent tries without end: after any number
/// of failed attempts it is attempting again, and nothing else has changed.
pub proof fn lemma_attempts_never_end(agent: AgentView, rounds: nat, now: Instant)
    requires
        agent.policy == DeliveryPolicy::AtMostOnceBestEffort,
        agent.phase == Phase::Connecting,
    ensures
        run(agent, failed_attempts(rounds, now)) == agent,
    decreases rounds,
{
    if rounds > 0 {
        let earlier = failed_attempts((rounds - 1) as nat, now);
        let failed = earlier.push((InputView::ConnectFailed, now));
        let all = failed.push((InputView::Woke, now));
        lemma_attempts_never_end(agent, (rounds - 1) as nat, now);
        assert(all.drop_last() =~= failed);
        assert(failed.drop_last() =~= earlier);
        assert(run(agent, failed) == agent.in_phase(Phase::Backoff));
    }
}

} // verus!
