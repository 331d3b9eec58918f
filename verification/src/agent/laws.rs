//! What holds of every run of an agent.
use vstd::prelude::*;
use crate::agent::{
    after_rounds, asked, begun, ends_after, log_after_many, may_end, may_go, may_go_on, may_run,
    paired, request_of, results, verdict, went_on, AgentOutcome, Plan, Round, State, Verdict,
};
use crate::chat::{
    plain_message, text_or_empty, ChatClient, ChatMessage, ChatRequestView, ChatResponse, Outgoing,
    Reply, Role, ToolCall, ToolCallView,
};
use crate::executor::{all_executed, answers_echo_the_id, executed};
use crate::hooks::{event_name, noted, Handler, HookEvent, HookLogEntryView, HookPayload, Reaction};
use crate::json::Json;
use crate::tools::{Execution, ToolRegistry};
use crate::trace::{
    is_time, timed, transcript_text, transcripts_only_grow, IterationTraceView,
};
use crate::wire::{
    accepts, answers, body_or_written, keeps_body, may_exchange, outgoing_spec, request_json, Exchange,
};

verus! {

// ---------------------------------------------------------------------------
// The history
// ---------------------------------------------------------------------------

/// Rounds only add to the history and to the traces, at most one trace each.
pub proof fn rounds_only_add<F, H>(plan: Plan<F, H>, start: State, rounds: Seq<Round>)
    ensures
        start.messages.is_prefix_of(after_rounds(plan, start, rounds).messages),
        start.traces.is_prefix_of(after_rounds(plan, start, rounds).traces),
        after_rounds(plan, start, rounds).traces.len() <= start.traces.len() + rounds.len(),
    decreases rounds.len(),
{
    if rounds.len() > 0 {
        rounds_only_add(plan, start, rounds.drop_last());
    }
}

/// Each round in which calls were run leaves one trace, and the traces are numbered from
/// one on.
pub proof fn rounds_are_traced<F, H>(plan: Plan<F, H>, start: State, rounds: Seq<Round>)
    requires
        forall|i: int|
            0 <= i < rounds.len() ==> verdict((#[trigger] rounds[i]).exchange.response@) is Go,
    ensures
        after_rounds(plan, start, rounds).traces.len() == start.traces.len() + rounds.len(),
        forall|i: int|
            0 <= i < rounds.len() ==> (#[trigger] after_rounds(
                plan,
                start,
                rounds,
            ).traces[start.traces.len() + i]).iteration == i + 1,
    decreases rounds.len(),
{
    if rounds.len() > 0 {
        let fewer = rounds.drop_last();
        assert forall|i: int| 0 <= i < fewer.len() implies verdict(
            (#[trigger] fewer[i]).exchange.response@,
        ) is Go by {
            assert(fewer[i] == rounds[i]);
        }
        rounds_are_traced(plan, start, fewer);
        let before = after_rounds(plan, start, fewer).traces;
        let after = after_rounds(plan, start, rounds).traces;
        assert(verdict(rounds[rounds.len() - 1].exchange.response@) is Go);
        assert forall|i: int| 0 <= i < rounds.len() implies (#[trigger] after[start.traces.len()
            + i]).iteration == i + 1 by {
            if i < fewer.len() {
                assert(after[start.traces.len() + i] == before[start.traces.len() + i]);
            }
        }
    }
}

/// A run that ends after these rounds has added to what it began with.
proof fn lemma_endings_only_add<
    F,
    H: Fn(&HookPayload),
    T: Fn(&Outgoing) -> Result<Reply, String>,
    D: Fn(&str) -> Result<ChatResponse, String>,
>(
    plan: Plan<F, H>,
    transport: T,
    decode: D,
    start: State,
    rounds: Seq<Round>,
    after: State,
    r: Result<AgentOutcome, String>,
)
    requires
        ends_after(plan, transport, decode, start, rounds, after, r),
    ensures
        start.messages.is_prefix_of(after.messages),
        start.traces.is_prefix_of(after.traces),
        after.traces.len() <= start.traces.len() + plan.max_iterations,
{
    rounds_only_add(plan, start, rounds);
    let state = after_rounds(plan, start, rounds);
    assert(state.messages.is_prefix_of(after.messages));
    assert(state.traces.is_prefix_of(after.traces));
}

/// The history only grows: a run keeps what was there, and puts the prompt behind it. An
/// empty history is opened by the system prompt, and no other is.
pub proof fn a_run_keeps_the_history<
    F: Fn(&Json) -> Execution,
    H: Fn(&HookPayload),
    T: Fn(&Outgoing) -> Result<Reply, String>,
    D: Fn(&str) -> Result<ChatResponse, String>,
    P: Fn(&ToolRegistry<F>, &[ToolCall]) -> Vec<Option<ChatMessage>>,
>(
    plan: Plan<F, H>,
    transport: T,
    decode: D,
    pool: P,
    prompt: Seq<char>,
    before: State,
    after: State,
    r: Result<AgentOutcome, String>,
)
    requires
        may_run(plan, transport, decode, pool, prompt, before, after, r),
    ensures
        before.messages.is_prefix_of(after.messages),
        before.messages.len() > 0 ==> after.messages[before.messages.len() as int]
            == plain_message(Role::User, prompt),
        before.messages.len() == 0 ==> after.messages[0] == plain_message(
            Role::System,
            plan.system_prompt,
        ) && after.messages[1] == plain_message(Role::User, prompt),
{
    let start = begun(plan, before, prompt);
    let rounds = choose|rounds: Seq<Round>| #[trigger]
        may_go_on(plan, transport, decode, pool, start, rounds) && ends_after(
            plan,
            transport,
            decode,
            start,
            rounds,
            after,
            r,
        );
    lemma_endings_only_add(plan, transport, decode, start, rounds, after, r);
    assert(before.messages.is_prefix_of(start.messages));
    if before.messages.len() == 0 {
        assert(after.messages[0] == start.messages[0]);
        assert(after.messages[1] == start.messages[1]);
    } else {
        let n = before.messages.len() as int;
        assert(after.messages[n] == start.messages[n]);
    }
}

/// A run keeps the traces of earlier ones and adds at most one per request that it may
/// send.
pub proof fn a_run_is_bounded<
    F: Fn(&Json) -> Execution,
    H: Fn(&HookPayload),
    T: Fn(&Outgoing) -> Result<Reply, String>,
    D: Fn(&str) -> Result<ChatResponse, String>,
    P: Fn(&ToolRegistry<F>, &[ToolCall]) -> Vec<Option<ChatMessage>>,
>(
    plan: Plan<F, H>,
    transport: T,
    decode: D,
    pool: P,
    prompt: Seq<char>,
    before: State,
    after: State,
    r: Result<AgentOutcome, String>,
)
    requires
        may_run(plan, transport, decode, pool, prompt, before, after, r),
    ensures
        before.traces.is_prefix_of(after.traces),
        after.traces.len() <= before.traces.len() + plan.max_iterations,
{
    let start = begun(plan, before, prompt);
    let rounds = choose|rounds: Seq<Round>| #[trigger]
        may_go_on(plan, transport, decode, pool, start, rounds) && ends_after(
            plan,
            transport,
            decode,
            start,
            rounds,
            after,
            r,
        );
    lemma_endings_only_add(plan, transport, decode, start, rounds, after, r);
}

/// The outcome of a run is the end of the history: the last message is the one that
/// carries the final text, and the last trace is of a round in which nothing was run.
pub proof fn the_outcome_ends_the_history<
    F: Fn(&Json) -> Execution,
    H: Fn(&HookPayload),
    T: Fn(&Outgoing) -> Result<Reply, String>,
    D: Fn(&str) -> Result<ChatResponse, String>,
    P: Fn(&ToolRegistry<F>, &[ToolCall]) -> Vec<Option<ChatMessage>>,
>(
    plan: Plan<F, H>,
    transport: T,
    decode: D,
    pool: P,
    prompt: Seq<char>,
    before: State,
    after: State,
    r: Result<AgentOutcome, String>,
)
    requires
        may_run(plan, transport, decode, pool, prompt, before, after, r),
        r is Ok,
    ensures
        (r->Ok_0)@.messages == after.messages,
        (r->Ok_0)@.traces == after.traces,
        after.messages.len() > 0,
        (r->Ok_0)@.final_text == text_or_empty(after.messages.last().content),
        after.traces.len() > before.traces.len(),
        after.traces.last().executed.len() == 0,
{
    let start = begun(plan, before, prompt);
    let rounds = choose|rounds: Seq<Round>| #[trigger]
        may_go_on(plan, transport, decode, pool, start, rounds) && ends_after(
            plan,
            transport,
            decode,
            start,
            rounds,
            after,
            r,
        );
    rounds_only_add(plan, start, rounds);
}

/// In a round the message of the assistant joins the history, and behind it one answer to
/// each of its calls, in the order of the calls and under their ids. Of calls that are run
/// side by side this holds if every worker brought the answer to its own call.
pub proof fn calls_are_answered_in_order<
    F: Fn(&Json) -> Execution,
    H: Fn(&HookPayload),
    T: Fn(&Outgoing) -> Result<Reply, String>,
    D: Fn(&str) -> Result<ChatResponse, String>,
    P: Fn(&ToolRegistry<F>, &[ToolCall]) -> Vec<Option<ChatMessage>>,
>(
    plan: Plan<F, H>,
    transport: T,
    decode: D,
    pool: P,
    state: State,
    iteration: nat,
    round: Round,
    calls: Seq<ToolCallView>,
)
    requires
        may_go(plan, transport, decode, pool, state, round),
        verdict(round.exchange.response@) is Go,
        calls == verdict(round.exchange.response@)->calls,
        plan.parallel ==> all_executed(plan.registry@, calls, round.answers),
    ensures
        went_on(plan, state, iteration, round).messages == state.messages.push(
            verdict(round.exchange.response@)->Go_message,
        ) + round.answers,
        round.answers.len() == calls.len(),
        forall|i: int|
            0 <= i < calls.len() ==> (#[trigger] round.answers[i]).tool_call_id == Some(
                calls[i].id,
            ) && round.answers[i].role == Role::Tool,
{
    assert(all_executed(plan.registry@, calls, round.answers));
    assert(results(paired(calls, round.answers)) =~= round.answers);
    assert forall|i: int| 0 <= i < calls.len() implies (
    #[trigger] round.answers[i]).tool_call_id == Some(calls[i].id) && round.answers[i].role
        == Role::Tool by {
        assert(executed(plan.registry@, calls[i], round.answers[i]));
        answers_echo_the_id(plan.registry@, calls[i], round.answers[i]);
    }
}

// ---------------------------------------------------------------------------
// The traces
// ---------------------------------------------------------------------------

/// Whether a trace holds what was exchanged: what the client sent with the request in it may
/// have been answered with a reply of success, and the response in it is the body of that
/// reply, with all that it holds.
pub open spec fn holds_the_exchange<
    T: Fn(&Outgoing) -> Result<Reply, String>,
    D: Fn(&str) -> Result<ChatResponse, String>,
>(client: ChatClient, transport: T, decode: D, trace: IterationTraceView) -> bool {
    exists|request: ChatRequestView, reply: Reply, response: ChatResponse|
        #![trigger answers(transport, outgoing_spec(client, request), Ok(reply)),
            accepts(decode, reply, Ok(response))]
        {
            &&& answers(transport, outgoing_spec(client, request), Ok(reply))
            &&& accepts(decode, reply, Ok(response))
            &&& reply.success
            &&& trace.request == request_json(request)
            &&& trace.response == body_or_written(reply.body@, response@)
        }
}

/// What came of an exchange is the raw body of the reply.
proof fn lemma_exchanges_are_held<
    T: Fn(&Outgoing) -> Result<Reply, String>,
    D: Fn(&str) -> Result<ChatResponse, String>,
>(
    client: ChatClient,
    transport: T,
    decode: D,
    request: ChatRequestView,
    exchange: Exchange,
    trace: IterationTraceView,
)
    requires
        may_exchange(client, transport, decode, request, Ok(exchange)),
        trace.request == request_json(request),
        trace.response == exchange.raw@,
    ensures
        holds_the_exchange(client, transport, decode, trace),
{
    let reply = choose|reply: Result<Reply, String>| #[trigger]
        answers(transport, outgoing_spec(client, request), reply) && match reply {
            Ok(reply) => exists|read: Result<ChatResponse, String>| #[trigger]
                accepts(decode, reply, read) && keeps_body(reply.body@, read, Ok(exchange)),
            Err(e) => Ok::<Exchange, String>(exchange) == Err::<Exchange, String>(e),
        };
    let came = reply->Ok_0;
    assert(answers(transport, outgoing_spec(client, request), Ok(came)));
    assert(accepts(decode, came, Ok(exchange.response)));
}

/// Rounds leave traces that hold what was exchanged.
proof fn lemma_rounds_hold_the_exchanges<
    F: Fn(&Json) -> Execution,
    H: Fn(&HookPayload),
    T: Fn(&Outgoing) -> Result<Reply, String>,
    D: Fn(&str) -> Result<ChatResponse, String>,
    P: Fn(&ToolRegistry<F>, &[ToolCall]) -> Vec<Option<ChatMessage>>,
>(
    plan: Plan<F, H>,
    transport: T,
    decode: D,
    pool: P,
    start: State,
    rounds: Seq<Round>,
    n: nat,
)
    requires
        may_go_on(plan, transport, decode, pool, start, rounds),
        n <= rounds.len(),
    ensures
        start.traces.len() <= after_rounds(plan, start, rounds.take(n as int)).traces.len(),
        forall|i: int|
            start.traces.len() <= i < after_rounds(
                plan,
                start,
                rounds.take(n as int),
            ).traces.len() ==> holds_the_exchange(
                plan.client,
                transport,
                decode,
                #[trigger] after_rounds(plan, start, rounds.take(n as int)).traces[i],
            ),
    decreases n,
{
    if n > 0 {
        let fewer = rounds.take(n - 1);
        let some = rounds.take(n as int);
        lemma_rounds_hold_the_exchanges(plan, transport, decode, pool, start, rounds, (n - 1) as nat);
        assert(some.drop_last() =~= fewer);
        assert(some.last() == rounds[n - 1]);
        let state = after_rounds(plan, start, fewer);
        let round = rounds[n - 1];
        assert(may_go(plan, transport, decode, pool, state, round));
        let traces = after_rounds(plan, start, some).traces;
        assert(traces == state.traces.push(traces.last()));
        lemma_exchanges_are_held(
            plan.client,
            transport,
            decode,
            request_of(plan, state.messages),
            round.exchange,
            traces.last(),
        );
        assert forall|i: int| start.traces.len() <= i < traces.len() implies holds_the_exchange(
            plan.client,
            transport,
            decode,
            #[trigger] traces[i],
        ) by {
            if i < state.traces.len() {
                assert(traces[i] == state.traces[i]);
            }
        }
    }
}

/// Each trace of a run holds the request that was sent and the raw body of the response to
/// it, with what is no part of a response too.
pub proof fn traces_hold_the_exchanges<
    F: Fn(&Json) -> Execution,
    H: Fn(&HookPayload),
    T: Fn(&Outgoing) -> Result<Reply, String>,
    D: Fn(&str) -> Result<ChatResponse, String>,
    P: Fn(&ToolRegistry<F>, &[ToolCall]) -> Vec<Option<ChatMessage>>,
>(
    plan: Plan<F, H>,
    transport: T,
    decode: D,
    pool: P,
    prompt: Seq<char>,
    before: State,
    after: State,
    r: Result<AgentOutcome, String>,
)
    requires
        may_run(plan, transport, decode, pool, prompt, before, after, r),
    ensures
        forall|i: int|
            before.traces.len() <= i < after.traces.len() ==> holds_the_exchange(
                plan.client,
                transport,
                decode,
                #[trigger] after.traces[i],
            ),
{
    let start = begun(plan, before, prompt);
    let rounds = choose|rounds: Seq<Round>| #[trigger]
        may_go_on(plan, transport, decode, pool, start, rounds) && ends_after(
            plan,
            transport,
            decode,
            start,
            rounds,
            after,
            r,
        );
    lemma_rounds_hold_the_exchanges(plan, transport, decode, pool, start, rounds, rounds.len());
    assert(rounds.take(rounds.len() as int) =~= rounds);
    let state = after_rounds(plan, start, rounds);
    if r is Ok {
        let came = choose|came: Result<Exchange, String>| #[trigger]
            may_exchange(
                plan.client,
                transport,
                decode,
                request_of(plan, state.messages),
                came,
            ) && may_end(plan, state, rounds.len(), came, after, r);
        lemma_exchanges_are_held(
            plan.client,
            transport,
            decode,
            request_of(plan, state.messages),
            came->Ok_0,
            after.traces.last(),
        );
        assert forall|i: int| before.traces.len() <= i < after.traces.len() implies holds_the_exchange(
            plan.client,
            transport,
            decode,
            #[trigger] after.traces[i],
        ) by {
            if i < state.traces.len() {
                assert(after.traces[i] == state.traces[i]);
            }
        }
    }
}

/// Where times are printed by a function, the transcript before a run is the start of the
/// transcript after it.
pub proof fn a_run_goes_on_with_the_transcript<
    F: Fn(&Json) -> Execution,
    H: Fn(&HookPayload),
    T: Fn(&Outgoing) -> Result<Reply, String>,
    D: Fn(&str) -> Result<ChatResponse, String>,
    P: Fn(&ToolRegistry<F>, &[ToolCall]) -> Vec<Option<ChatMessage>>,
    M: Fn(u128) -> String,
>(
    plan: Plan<F, H>,
    transport: T,
    decode: D,
    pool: P,
    prompt: Seq<char>,
    before: State,
    after: State,
    r: Result<AgentOutcome, String>,
    show_ms: M,
    s: Seq<Seq<char>>,
    t: Seq<Seq<char>>,
)
    requires
        may_run(plan, transport, decode, pool, prompt, before, after, r),
        forall|ns: u128, a: String, b: String| #[trigger]
            call_ensures(show_ms, (ns,), a) && #[trigger] call_ensures(show_ms, (ns,), b) ==> a@
                == b@,
        timed(show_ms, before.traces, s),
        timed(show_ms, after.traces, t),
    ensures
        transcript_text(before.traces, s).is_prefix_of(transcript_text(after.traces, t)),
{
    a_run_is_bounded(plan, transport, decode, pool, prompt, before, after, r);
    assert forall|i: int| 0 <= i < s.len() implies s[i] == t[i] by {
        assert(before.traces[i] == after.traces[i]);
        assert(is_time(show_ms, before.traces[i].stats, s[i]));
        assert(is_time(show_ms, after.traces[i].stats, t[i]));
    }
    transcripts_only_grow(before.traces, after.traces, s, t);
}

// ---------------------------------------------------------------------------
// The log
// ---------------------------------------------------------------------------

/// The line that an event leaves in the log.
pub open spec fn event_line(event: HookEvent) -> HookLogEntryView {
    HookLogEntryView { event, message: event_name(event) }
}

/// Whether no hook writes notes into the log.
pub open spec fn without_notes<H>(handlers: Seq<Handler<H>>) -> bool {
    forall|i: int|
        #![trigger handlers[i]]
        0 <= i < handlers.len() ==> match handlers[i].reaction {
            Reaction::Note { attached, .. } => !attached,
            _ => true,
        }
}

/// Hooks that write no notes leave none.
proof fn lemma_nothing_noted<H>(handlers: Seq<Handler<H>>, event: HookEvent)
    requires
        without_notes(handlers),
    ensures
        noted(handlers, event) == Seq::<HookLogEntryView>::empty(),
    decreases handlers.len(),
{
    if handlers.len() > 0 {
        let fewer = handlers.drop_last();
        assert forall|i: int|
            #![trigger fewer[i]]
            0 <= i < fewer.len() implies match fewer[i].reaction {
            Reaction::Note { attached, .. } => !attached,
            _ => true,
        } by {
            assert(fewer[i] == handlers[i]);
        }
        lemma_nothing_noted(fewer, event);
        assert(handlers.last() == handlers[handlers.len() - 1]);
    }
}

/// An event that fires `n` times leaves `n` lines, where no hook writes notes.
pub proof fn events_are_logged<H>(
    handlers: Seq<Handler<H>>,
    log: Seq<HookLogEntryView>,
    event: HookEvent,
    n: nat,
)
    requires
        without_notes(handlers),
    ensures
        log_after_many(handlers, Some(log), event, n) == Some(
            log + Seq::new(n, |i: int| event_line(event)),
        ),
    decreases n,
{
    if n == 0 {
        assert(log + Seq::new(n, |i: int| event_line(event)) =~= log);
    } else {
        events_are_logged(handlers, log, event, (n - 1) as nat);
        lemma_nothing_noted(handlers, event);
        let before = log + Seq::new((n - 1) as nat, |i: int| event_line(event));
        assert((before + Seq::<HookLogEntryView>::empty()).push(event_line(event)) =~= log
            + Seq::new(n, |i: int| event_line(event)));
    }
}

/// The lines that a round leaves in the log: first those of the calls that are about to be
/// run, then those of the calls that were run, one line for each.
pub open spec fn round_lines(round: Round) -> Seq<HookLogEntryView> {
    match verdict(round.exchange.response@) {
        Verdict::Go { message, reason, calls } => Seq::new(
            calls.len(),
            |i: int| event_line(HookEvent::PreToolUse),
        ) + Seq::new(
            paired(calls, round.answers).len(),
            |i: int| event_line(HookEvent::PostToolUse),
        ),
        _ => Seq::empty(),
    }
}

/// The lines that rounds leave in the log, in the order of the rounds.
pub open spec fn rounds_lines(rounds: Seq<Round>) -> Seq<HookLogEntryView>
    decreases rounds.len(),
{
    if rounds.len() == 0 {
        Seq::empty()
    } else {
        rounds_lines(rounds.drop_last()) + round_lines(rounds.last())
    }
}

/// Rounds are logged in order, where no hook writes notes.
pub proof fn rounds_are_logged<F, H>(
    plan: Plan<F, H>,
    start: State,
    rounds: Seq<Round>,
    log: Seq<HookLogEntryView>,
)
    requires
        without_notes(plan.handlers),
        start.log == Some(log),
    ensures
        after_rounds(plan, start, rounds).log == Some(log + rounds_lines(rounds)),
    decreases rounds.len(),
{
    if rounds.len() == 0 {
        assert(log + rounds_lines(rounds) =~= log);
    } else {
        rounds_are_logged(plan, start, rounds.drop_last(), log);
        let so_far = log + rounds_lines(rounds.drop_last());
        let round = rounds.last();
        match verdict(round.exchange.response@) {
            Verdict::Go { message, reason, calls } => {
                let steps = paired(calls, round.answers);
                let asked_for = Seq::new(calls.len(), |i: int| event_line(HookEvent::PreToolUse));
                events_are_logged(plan.handlers, so_far, HookEvent::PreToolUse, calls.len());
                events_are_logged(
                    plan.handlers,
                    so_far + asked_for,
                    HookEvent::PostToolUse,
                    steps.len(),
                );
            },
            _ => {},
        }
        assert(log + rounds_lines(rounds) =~= so_far + round_lines(round));
    }
}

/// Events that fire only add to the log.
proof fn lemma_log_grows<H>(
    handlers: Seq<Handler<H>>,
    log: Option<Seq<HookLogEntryView>>,
    event: HookEvent,
    n: nat,
)
    ensures
        match log {
            Some(log) => log_after_many(handlers, Some(log), event, n) matches Some(after)
                && log.is_prefix_of(after),
            None => log_after_many(handlers, log, event, n) is None,
        },
    decreases n,
{
    if n > 0 {
        lemma_log_grows(handlers, log, event, (n - 1) as nat);
    }
}

/// Rounds only add to the log.
proof fn lemma_rounds_add_to_the_log<F, H>(plan: Plan<F, H>, start: State, rounds: Seq<Round>)
    ensures
        match start.log {
            Some(log) => after_rounds(plan, start, rounds).log matches Some(after)
                && log.is_prefix_of(after),
            None => after_rounds(plan, start, rounds).log is None,
        },
    decreases rounds.len(),
{
    if rounds.len() > 0 {
        lemma_rounds_add_to_the_log(plan, start, rounds.drop_last());
        let state = after_rounds(plan, start, rounds.drop_last());
        match verdict(rounds.last().exchange.response@) {
            Verdict::Go { message, reason, calls } => {
                lemma_log_grows(plan.handlers, state.log, HookEvent::PreToolUse, calls.len());
                lemma_log_grows(
                    plan.handlers,
                    asked(plan, state, message, calls).log,
                    HookEvent::PostToolUse,
                    paired(calls, rounds.last().answers).len(),
                );
            },
            _ => {},
        }
    }
}

/// The log only grows, and the last line of a run that has an outcome is that of its end.
/// Where no hook writes notes, a run leaves the line of the prompt, the lines of its rounds
/// in order, and the line of its end if it has an outcome.
pub proof fn a_run_is_logged<
    F: Fn(&Json) -> Execution,
    H: Fn(&HookPayload),
    T: Fn(&Outgoing) -> Result<Reply, String>,
    D: Fn(&str) -> Result<ChatResponse, String>,
    P: Fn(&ToolRegistry<F>, &[ToolCall]) -> Vec<Option<ChatMessage>>,
>(
    plan: Plan<F, H>,
    transport: T,
    decode: D,
    pool: P,
    prompt: Seq<char>,
    before: State,
    after: State,
    r: Result<AgentOutcome, String>,
    log: Seq<HookLogEntryView>,
)
    requires
        may_run(plan, transport, decode, pool, prompt, before, after, r),
        before.log == Some(log),
    ensures
        after.log matches Some(lines) && {
            &&& log.is_prefix_of(lines)
            &&& r is Ok ==> lines.last() == event_line(HookEvent::Stop)
            &&& without_notes(plan.handlers) ==> exists|rounds: Seq<Round>| #[trigger]
                may_go_on(plan, transport, decode, pool, begun(plan, before, prompt), rounds)
                    && lines == log.push(event_line(HookEvent::UserPromptSubmit)) + rounds_lines(
                    rounds,
                ) + (if r is Ok {
                    seq![event_line(HookEvent::Stop)]
                } else {
                    Seq::empty()
                })
        },
{
    let start = begun(plan, before, prompt);
    let rounds = choose|rounds: Seq<Round>| #[trigger]
        may_go_on(plan, transport, decode, pool, start, rounds) && ends_after(
            plan,
            transport,
            decode,
            start,
            rounds,
            after,
            r,
        );
    lemma_rounds_add_to_the_log(plan, start, rounds);
    let state = after_rounds(plan, start, rounds);
    assert(log.is_prefix_of(start.log->0));
    assert((state.log->0).is_prefix_of(after.log->0));
    if without_notes(plan.handlers) {
        lemma_nothing_noted(plan.handlers, HookEvent::UserPromptSubmit);
        lemma_nothing_noted(plan.handlers, HookEvent::Stop);
        let opened = log.push(event_line(HookEvent::UserPromptSubmit));
        assert(start.log->0 =~= opened);
        rounds_are_logged(plan, start, rounds, opened);
        let lines = opened + rounds_lines(rounds);
        if r is Ok {
            assert(after.log->0 =~= lines + seq![event_line(HookEvent::Stop)]);
        } else {
            assert(after.log->0 =~= lines + Seq::<HookLogEntryView>::empty());
        }
    }
}

} // verus!
