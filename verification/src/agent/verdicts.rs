//! When a run goes on and when it is over, and what it leaves behind.
use vstd::prelude::*;
use crate::agent::{
    after_rounds, answer_subagent, begun, decide, described, ends_after, may_end, may_go,
    may_go_on, may_run, observed, paired, post_payload, pre_payload, request_of, results,
    subagent_messages, subagent_text, tools_section, verdict, went_on, Agent, AgentConfig,
    AgentOutcome, Decision, Plan, Round, State, Verdict,
};
use crate::chat::{
    calls_view, messages_view, ChatMessage, ChatMessageView, ChatRequest, ChatRequestView,
    ChatResponse, ChatResponseView, Outgoing, Reply, Role, ToolCall, ToolCallView,
};
use crate::hooks::{called, Handler, HookEvent, HookPayload, HookPayloadView};
use crate::json::{item_views, parsed, Json, JsonView, NumberView};
use crate::json::laws::{keys_differ, laid_out, lemma_laid_out};
use crate::text::decimal;
use crate::tools::{Execution, ToolRegistry};
use crate::trace::{ExecutionStepView, IterationTraceView};
use crate::wire::fields::{requests_are_told, tells_request};
use crate::wire::{may_exchange, request_json, Exchange};

verus! {

// ---------------------------------------------------------------------------
// What a response means
// ---------------------------------------------------------------------------

/// The calls of the first answer decide. Where there are any, and the assistant does not say
/// that it has stopped, they are run: just these, in order, whatever text comes with them.
/// Where there are none, or the assistant says that it has stopped, the turn is over. Only a
/// response without any answer is of no use.
pub proof fn the_calls_decide(response: ChatResponse, r: Result<Decision, String>)
    requires
        call_ensures(decide, (&response,), r),
    ensures
        r is Err <==> response.choices@.len() == 0,
        r matches Err(e) ==> e@ == "empty choices in response"@,
        response.choices@.len() > 0 ==> {
            let first = response.choices@[0];
            let stops = first.finish_reason matches Some(reason) && reason@ == "stop"@;
            let asks = first.message.tool_calls matches Some(calls) && calls@.len() > 0;
            match r->Ok_0 {
                Decision::Go { message, reason, calls } => {
                    &&& asks && !stops
                    &&& message@ == first.message@
                    &&& calls_view(calls@) == calls_view((first.message.tool_calls->0)@)
                    &&& match first.finish_reason {
                        Some(said) => reason@ == said@,
                        None => reason@.len() == 0,
                    }
                },
                Decision::Stop { message, reason } => {
                    &&& !asks || stops
                    &&& message@ == first.message@
                    &&& match first.finish_reason {
                        Some(said) => reason@ == said@,
                        None => reason@.len() == 0,
                    }
                },
            }
        },
{
    verdicts_go_by_the_calls(response@);
    if response.choices@.len() > 0 {
        assert(response@.choices[0] == response.choices@[0]@);
    }
}

/// What a response says decides in the same way.
pub proof fn verdicts_go_by_the_calls(response: ChatResponseView)
    ensures
        verdict(response) is Fail <==> response.choices.len() == 0,
        verdict(response) matches Verdict::Fail(e) ==> e == "empty choices in response"@,
        response.choices.len() > 0 ==> {
            let first = response.choices[0];
            let stops = first.finish_reason == Some("stop"@);
            let asks = first.message.tool_calls matches Some(calls) && calls.len() > 0;
            match verdict(response) {
                Verdict::Fail(_) => false,
                Verdict::Go { message, reason, calls } => {
                    &&& asks && !stops
                    &&& message == first.message
                    &&& first.message.tool_calls == Some(calls)
                    &&& match first.finish_reason {
                        Some(said) => reason == said,
                        None => reason.len() == 0,
                    }
                },
                Verdict::Stop { message, reason } => {
                    &&& !asks || stops
                    &&& message == first.message
                    &&& match first.finish_reason {
                        Some(said) => reason == said,
                        None => reason.len() == 0,
                    }
                },
            }
        },
{
    reveal_strlit("stop");
    assert("stop"@.len() == 4);
    assert(Seq::<char>::empty().len() == 0);
    if response.choices.len() > 0 {
        let first = response.choices[0];
        match first.finish_reason {
            Some(said) => {
                assert(first.finish_reason == Some("stop"@) <==> said == "stop"@);
            },
            None => {},
        }
        match first.message.tool_calls {
            Some(calls) => {
                if calls.len() == 0 || first.finish_reason == Some("stop"@) {
                    assert(verdict(response) is Stop);
                } else {
                    assert(verdict(response) is Go);
                }
            },
            None => {},
        }
    }
}

/// The text that comes with the calls changes nothing: two responses whose first answers
/// have the same calls and end for the same reason both go on, or are both over.
pub proof fn texts_do_not_decide(a: ChatResponseView, b: ChatResponseView)
    requires
        a.choices.len() > 0,
        b.choices.len() > 0,
        a.choices[0].message.tool_calls == b.choices[0].message.tool_calls,
        a.choices[0].finish_reason == b.choices[0].finish_reason,
    ensures
        verdict(a) is Go <==> verdict(b) is Go,
        verdict(a) is Stop <==> verdict(b) is Stop,
        verdict(a) is Go ==> verdict(a)->calls == verdict(b)->calls,
{
    verdicts_go_by_the_calls(a);
    verdicts_go_by_the_calls(b);
}

// ---------------------------------------------------------------------------
// Requests
// ---------------------------------------------------------------------------

/// A request asks the configured model to go on with the conversation as it is, offers every
/// tool of the registry in order, and leaves the choice to the model.
pub proof fn requests_offer_every_tool<F, H>(
    config: AgentConfig<F, H>,
    messages: Vec<ChatMessage>,
    request: ChatRequest,
)
    requires
        call_ensures(AgentConfig::<F, H>::request, (&config, messages), request),
    ensures
        request@.model == config.model@,
        request@.messages == messages_view(messages@),
        request@.tools matches Some(tools) && tools.len() == config.registry@.len() && forall|
            i: int,
        |
            0 <= i < tools.len() ==> {
                &&& (#[trigger] tools[i]).tool_type == "function"@
                &&& tools[i].name == config.registry@[i].name@
                &&& tools[i].description == config.registry@[i].description@
                &&& tools[i].parameters == config.registry@[i].parameters@
            },
        request@.tool_choice == Some(JsonView::Text("auto"@)),
        request@.temperature == Some(NumberView::Float("0.2"@)),
{
}

/// The next request of an agent goes on with its whole history.
pub proof fn requests_hold_the_history<F, H: Fn(&HookPayload)>(
    agent: Agent<F, H>,
    request: ChatRequest,
)
    requires
        call_ensures(Agent::<F, H>::next_request, (&agent,), request),
    ensures
        request@.messages == agent.state().messages,
        request@.model == agent.config.model@,
        request@.tools matches Some(tools) && tools.len() == agent.config.registry@.len(),
        request@.tool_choice == Some(JsonView::Text("auto"@)),
        request@.temperature == Some(NumberView::Float("0.2"@)),
{
}

// ---------------------------------------------------------------------------
// What hooks are told
// ---------------------------------------------------------------------------

/// What hooks are told reaches every callback for its event, as it is.
pub proof fn hooks_are_told_what_is_said<H: Fn(&HookPayload)>(
    handlers: Seq<Handler<H>>,
    payload: HookPayloadView,
    event: HookEvent,
)
    requires
        observed(handlers, payload),
        event == (match payload {
            HookPayloadView::PreToolUse { .. } => HookEvent::PreToolUse,
            HookPayloadView::PostToolUse { .. } => HookEvent::PostToolUse,
            HookPayloadView::UserPromptSubmit { .. } => HookEvent::UserPromptSubmit,
            HookPayloadView::Stop { .. } => HookEvent::Stop,
            HookPayloadView::SubAgentStart { .. } => HookEvent::SubAgentStart,
            HookPayloadView::SubAgentStop { .. } => HookEvent::SubAgentStop,
        }),
    ensures
        exists|told: HookPayload|
            told@ == payload && #[trigger] called(handlers, event, told),
{
}

/// Before a call is run, every hook for that event is told the name of the tool and the
/// arguments, or null where these are no JSON.
pub proof fn hooks_are_told_of_calls<H: Fn(&HookPayload)>(
    handlers: Seq<Handler<H>>,
    call: ToolCallView,
)
    requires
        observed(handlers, pre_payload(call)),
    ensures
        exists|told: HookPayload| #[trigger]
            called(handlers, HookEvent::PreToolUse, told) && (match told {
                HookPayload::PreToolUse { tool, args } => tool@ == call.name && (match parsed(
                    call.arguments,
                ) {
                    Ok(j) => args@ == j,
                    Err(_) => args@ is Null,
                }),
                _ => false,
            }),
{
    let told = choose|told: HookPayload| #[trigger]
        called(handlers, pre_payload(call).event(), told) && told@ == pre_payload(call);
    assert(called(handlers, HookEvent::PreToolUse, told));
}

/// After a call was run, every hook for that event is told the name of the tool and the text
/// of the answer, and that it is no error.
pub proof fn hooks_are_told_of_answers<H: Fn(&HookPayload)>(
    handlers: Seq<Handler<H>>,
    step: ExecutionStepView,
)
    requires
        observed(handlers, post_payload(step)),
    ensures
        exists|told: HookPayload| #[trigger]
            called(handlers, HookEvent::PostToolUse, told) && (match told {
                HookPayload::PostToolUse { tool, output, is_error } => tool@ == step.call.name
                    && !is_error && (match step.result.content {
                    Some(text) => output@ == text,
                    None => output@.len() == 0,
                }),
                _ => false,
            }),
{
    let told = choose|told: HookPayload| #[trigger]
        called(handlers, post_payload(step).event(), told) && told@ == post_payload(step);
    assert(called(handlers, HookEvent::PostToolUse, told));
}

// ---------------------------------------------------------------------------
// The rounds of a run
// ---------------------------------------------------------------------------

/// A round in which calls are run comes of a response whose first answer asks for calls and
/// does not say that the assistant has stopped. The batch is told of as it was.
pub proof fn rounds_are_asked_for<
    F: Fn(&Json) -> Execution,
    H: Fn(&HookPayload),
    T: Fn(&Outgoing) -> Result<Reply, String>,
    D: Fn(&str) -> Result<ChatResponse, String>,
    P: Fn(&ToolRegistry<F>, &[ToolCall]) -> Vec<Option<ChatMessage>>,
>(plan: Plan<F, H>, transport: T, decode: D, pool: P, state: State, round: Round)
    requires
        may_go(plan, transport, decode, pool, state, round),
    ensures
        round.exchange.response@.choices.len() > 0,
        ({
            let first = round.exchange.response@.choices[0];
            &&& first.finish_reason != Some("stop"@)
            &&& first.message.tool_calls matches Some(calls) && {
                &&& calls.len() > 0
                &&& round.stats.n_calls == calls.len()
                &&& !plan.parallel ==> round.answers.len() == calls.len()
                &&& forall|i: int|
                    0 <= i < calls.len() ==> observed(
                        plan.handlers,
                        pre_payload(#[trigger] calls[i]),
                    )
                &&& forall|i: int|
                    0 <= i < calls.len() && i < round.answers.len() ==> observed(
                        plan.handlers,
                        post_payload(
                            (ExecutionStepView { call: calls[i], result: #[trigger] round.answers[i] }),
                        ),
                    )
            }
        }),
        round.stats.parallel == plan.parallel,
{
    verdicts_go_by_the_calls(round.exchange.response@);
    let calls = round.exchange.response@.choices[0].message.tool_calls->0;
    let steps = paired(calls, round.answers);
    assert forall|i: int| 0 <= i < calls.len() && i < round.answers.len() implies observed(
        plan.handlers,
        post_payload((ExecutionStepView { call: calls[i], result: #[trigger] round.answers[i] })),
    ) by {
        assert(steps[i] == (ExecutionStepView { call: calls[i], result: round.answers[i] }));
    }
}

/// What a round adds to the history: the first answer of the response, and behind it the
/// answers to its calls.
pub open spec fn told_in_round(round: Round) -> Seq<ChatMessageView> {
    let first = round.exchange.response@.choices[0].message;
    let n = (first.tool_calls->0).len();
    seq![first] + (if n <= round.answers.len() {
        round.answers.take(n as int)
    } else {
        round.answers
    })
}

/// What rounds add to the history, in order.
pub open spec fn told_in_rounds(rounds: Seq<Round>) -> Seq<ChatMessageView>
    decreases rounds.len(),
{
    if rounds.len() == 0 {
        Seq::empty()
    } else {
        told_in_rounds(rounds.drop_last()) + told_in_round(rounds.last())
    }
}

/// Whether a trace tells of a round in which calls were run: it has the number of the round,
/// the request, the raw response and why it ended, each call with its answer, and how the
/// calls were run.
pub open spec fn traces_round(
    trace: IterationTraceView,
    n: nat,
    request: JsonView,
    round: Round,
) -> bool {
    let first = round.exchange.response@.choices[0];
    let calls = first.message.tool_calls->0;
    &&& trace.iteration == n
    &&& trace.request == request
    &&& trace.response == round.exchange.raw@
    &&& match first.finish_reason {
        Some(reason) => trace.finish_reason == reason,
        None => trace.finish_reason.len() == 0,
    }
    &&& trace.executed.len() <= calls.len()
    &&& trace.executed.len() <= round.answers.len()
    &&& trace.executed.len() == calls.len() || trace.executed.len() == round.answers.len()
    &&& forall|i: int|
        0 <= i < trace.executed.len() ==> (#[trigger] trace.executed[i]).call == calls[i]
            && trace.executed[i].result == round.answers[i]
    &&& trace.stats == Some(round.stats)
}

/// Whether a value is the request that goes on with a conversation.
pub open spec fn goes_on_with<F, H>(
    request: JsonView,
    plan: Plan<F, H>,
    messages: Seq<ChatMessageView>,
) -> bool {
    exists|sent: ChatRequestView| #[trigger]
        tells_request(request, sent) && sent.model == plan.model && sent.messages == messages
            && sent.tool_choice == Some(JsonView::Text("auto"@)) && (sent.tools matches Some(tools)
            && tools.len() == plan.registry@.len() && forall|i: int|
            0 <= i < tools.len() ==> (#[trigger] tools[i]).name == plan.registry@[i].name@)
}

/// A request for a conversation goes on with it.
proof fn lemma_goes_on<F, H>(plan: Plan<F, H>, messages: Seq<ChatMessageView>)
    ensures
        goes_on_with(request_json(request_of(plan, messages)), plan, messages),
{
    requests_are_told(request_of(plan, messages));
    assert(tells_request(
        request_json(request_of(plan, messages)),
        request_of(plan, messages),
    ));
}

/// What one round leaves behind.
proof fn lemma_round<
    F: Fn(&Json) -> Execution,
    H: Fn(&HookPayload),
    T: Fn(&Outgoing) -> Result<Reply, String>,
    D: Fn(&str) -> Result<ChatResponse, String>,
    P: Fn(&ToolRegistry<F>, &[ToolCall]) -> Vec<Option<ChatMessage>>,
>(plan: Plan<F, H>, transport: T, decode: D, pool: P, state: State, n: nat, round: Round)
    requires
        may_go(plan, transport, decode, pool, state, round),
    ensures
        went_on(plan, state, n, round).messages == state.messages + told_in_round(round),
        went_on(plan, state, n, round).traces.len() == state.traces.len() + 1,
        went_on(plan, state, n, round).traces.drop_last() == state.traces,
        traces_round(
            went_on(plan, state, n, round).traces.last(),
            n,
            went_on(plan, state, n, round).traces.last().request,
            round,
        ),
        goes_on_with(went_on(plan, state, n, round).traces.last().request, plan, state.messages),
{
    rounds_are_asked_for(plan, transport, decode, pool, state, round);
    verdicts_go_by_the_calls(round.exchange.response@);
    lemma_goes_on(plan, state.messages);
    let first = round.exchange.response@.choices[0].message;
    let calls = first.tool_calls->0;
    let after = went_on(plan, state, n, round);
    assert(state.messages.push(first) + results(paired(calls, round.answers)) =~= state.messages
        + told_in_round(round));
    assert(after.traces.drop_last() =~= state.traces);
}

/// What rounds leave behind.
#[verifier::rlimit(40)]
proof fn lemma_rounds<
    F: Fn(&Json) -> Execution,
    H: Fn(&HookPayload),
    T: Fn(&Outgoing) -> Result<Reply, String>,
    D: Fn(&str) -> Result<ChatResponse, String>,
    P: Fn(&ToolRegistry<F>, &[ToolCall]) -> Vec<Option<ChatMessage>>,
>(plan: Plan<F, H>, transport: T, decode: D, pool: P, start: State, rounds: Seq<Round>, n: nat)
    requires
        may_go_on(plan, transport, decode, pool, start, rounds),
        n <= rounds.len(),
    ensures
        after_rounds(plan, start, rounds.take(n as int)).messages == start.messages
            + told_in_rounds(rounds.take(n as int)),
        after_rounds(plan, start, rounds.take(n as int)).traces.len() == start.traces.len() + n,
        forall|i: int|
            0 <= i < start.traces.len() ==> (#[trigger] after_rounds(
                plan,
                start,
                rounds.take(n as int),
            ).traces[i]) == start.traces[i],
        forall|i: int|
            0 <= i < n ==> {
                let trace = #[trigger] after_rounds(
                    plan,
                    start,
                    rounds.take(n as int),
                ).traces[start.traces.len() + i];
                &&& traces_round(trace, (i + 1) as nat, trace.request, rounds[i])
                &&& goes_on_with(
                    trace.request,
                    plan,
                    start.messages + told_in_rounds(rounds.take(i)),
                )
            },
    decreases n,
{
    let some = rounds.take(n as int);
    if n == 0 {
        assert(start.messages + told_in_rounds(some) =~= start.messages);
    } else {
        let fewer = rounds.take(n - 1);
        lemma_rounds(plan, transport, decode, pool, start, rounds, (n - 1) as nat);
        assert(some.drop_last() =~= fewer);
        assert(some.last() == rounds[n - 1]);
        let state = after_rounds(plan, start, fewer);
        let round = rounds[n - 1];
        assert(may_go(plan, transport, decode, pool, state, round));
        lemma_round(plan, transport, decode, pool, state, n, round);
        let after = after_rounds(plan, start, some);
        assert(after == went_on(plan, state, n, round));
        assert(after.messages =~= start.messages + told_in_rounds(some));
        assert forall|i: int| 0 <= i < state.traces.len() implies after.traces[i]
            == state.traces[i] by {
            assert(after.traces.drop_last()[i] == after.traces[i]);
        }
        assert forall|i: int| 0 <= i < n implies {
            let trace = #[trigger] after.traces[start.traces.len() + i];
            &&& traces_round(trace, (i + 1) as nat, trace.request, rounds[i])
            &&& goes_on_with(trace.request, plan, start.messages + told_in_rounds(rounds.take(i)))
        } by {
            if i < n - 1 {
                assert(after.traces[start.traces.len() + i] == state.traces[start.traces.len()
                    + i]);
            } else {
                assert(after.traces[start.traces.len() + i] == after.traces.last());
            }
        }
        assert forall|i: int| 0 <= i < start.traces.len() implies (#[trigger] after.traces[i])
            == start.traces[i] by {
            assert(after.traces[i] == state.traces[i]);
        }
    }
}

/// The history that a run starts from: what was there, opened by the system prompt where it
/// was empty, and the prompt of the user.
pub open spec fn opening<F, H>(
    plan: Plan<F, H>,
    messages: Seq<ChatMessageView>,
    prompt: Seq<char>,
) -> Seq<ChatMessageView> {
    (if messages.len() == 0 {
        seq![
            (ChatMessageView {
                role: Role::System,
                content: Some(plan.system_prompt),
                tool_calls: None,
                tool_call_id: None,
            }),
        ]
    } else {
        messages
    }).push(
        (ChatMessageView {
            role: Role::User,
            content: Some(prompt),
            tool_calls: None,
            tool_call_id: None,
        }),
    )
}

/// A prompt joins the history and nothing else, and is told to hooks.
pub proof fn prompts_join_the_history<F, H>(plan: Plan<F, H>, state: State, prompt: Seq<char>)
    ensures
        begun(plan, state, prompt).messages == opening(plan, state.messages, prompt),
        begun(plan, state, prompt).traces == state.traces,
        begun(plan, state, prompt).log is Some <==> state.log is Some,
{
}

/// How a run may end: with an outcome only after a response whose first answer asks for
/// nothing or says that the assistant has stopped, else in an error that says why.
pub open spec fn ends_rightly<
    F: Fn(&Json) -> Execution,
    H: Fn(&HookPayload),
    T: Fn(&Outgoing) -> Result<Reply, String>,
    D: Fn(&str) -> Result<ChatResponse, String>,
>(
    plan: Plan<F, H>,
    transport: T,
    decode: D,
    history: Seq<ChatMessageView>,
    n_rounds: nat,
    came: Result<Exchange, String>,
    after: State,
    r: Result<AgentOutcome, String>,
) -> bool {
    &&& may_exchange(plan.client, transport, decode, request_of(plan, history), came)
    &&& match came {
        Err(e) => r == Err::<AgentOutcome, String>(e) && after.messages == history,
        Ok(exchange) => if exchange.response@.choices.len() == 0 {
            (r matches Err(text) && text@ == "empty choices in response"@) && after.messages
                == history
        } else {
            let first = exchange.response@.choices[0];
            &&& first.message.tool_calls is None || (first.message.tool_calls->0).len() == 0
                || first.finish_reason == Some("stop"@)
            &&& r matches Ok(outcome)
            &&& outcome@.final_text == (match first.message.content {
                Some(text) => text,
                None => Seq::empty(),
            })
            &&& outcome@.messages == after.messages
            &&& outcome@.traces == after.traces
            &&& after.messages == history.push(first.message)
            &&& after.traces.len() > 0
            &&& after.traces.last().iteration == n_rounds + 1
            &&& after.traces.last().executed.len() == 0
            &&& after.traces.last().stats is None
            &&& after.traces.last().response == exchange.raw@
            &&& goes_on_with(after.traces.last().request, plan, history)
            &&& match first.finish_reason {
                Some(reason) => after.traces.last().finish_reason == reason,
                None => after.traces.last().finish_reason.len() == 0,
            }
            &&& observed(
                plan.handlers,
                HookPayloadView::Stop { reason: after.traces.last().finish_reason },
            )
        },
    }
}

/// A run is its opening, its rounds in order, and its end. Each round goes on with all that
/// was said so far and comes of a response that asks for calls. The run has an outcome only
/// after a response whose first answer asks for nothing or says that the assistant has
/// stopped. A run that may send no more requests ends in an error that gives the number.
#[verifier::rlimit(40)]
pub proof fn a_run_is_its_rounds<
    F: Fn(&Json) -> Execution,
    H: Fn(&HookPayload),
    T: Fn(&Outgoing) -> Result<Reply, String>,
    D: Fn(&str) -> Result<ChatResponse, String>,
    P: Fn(&ToolRegistry<F>, &[ToolCall]) -> Vec<Option<ChatMessage>>,
>(
    plan: Plan<F, H>,
    transport: T,
    decode: D,
    pool: P,
    prompt: Seq<char>,
    before: State,
    after: State,
    r: Result<AgentOutcome, String>,
)
    requires
        may_run(plan, transport, decode, pool, prompt, before, after, r),
    ensures
        observed(plan.handlers, HookPayloadView::UserPromptSubmit { prompt }),
        exists|rounds: Seq<Round>| #[trigger]
            may_go_on(plan, transport, decode, pool, begun(plan, before, prompt), rounds) && {
                let opened = opening(plan, before.messages, prompt);
                let history = opened + told_in_rounds(rounds);
                &&& rounds.len() <= plan.max_iterations
                &&& after.traces.len() == before.traces.len() + rounds.len() + (if r is Ok {
                    1int
                } else {
                    0int
                })
                &&& forall|i: int|
                    0 <= i < before.traces.len() ==> (#[trigger] after.traces[i])
                        == before.traces[i]
                &&& forall|i: int|
                    0 <= i < rounds.len() ==> {
                        let trace = #[trigger] after.traces[before.traces.len() + i];
                        &&& traces_round(trace, (i + 1) as nat, trace.request, rounds[i])
                        &&& goes_on_with(
                            trace.request,
                            plan,
                            opened + told_in_rounds(rounds.take(i)),
                        )
                    }
                &&& if rounds.len() == plan.max_iterations {
                    &&& r matches Err(text)
                    &&& text@ == "agent exceeded max_iterations ("@ + decimal(plan.max_iterations)
                        + ") before finishing"@
                    &&& after.messages == history
                } else {
                    exists|came: Result<Exchange, String>| #[trigger]
                        ends_rightly(
                            plan,
                            transport,
                            decode,
                            history,
                            rounds.len(),
                            came,
                            after,
                            r,
                        )
                }
            },
{
    let start = begun(plan, before, prompt);
    let rounds = choose|rounds: Seq<Round>| #[trigger]
        may_go_on(plan, transport, decode, pool, start, rounds) && ends_after(
            plan,
            transport,
            decode,
            start,
            rounds,
            after,
            r,
        );
    lemma_rounds(plan, transport, decode, pool, start, rounds, rounds.len());
    assert(rounds.take(rounds.len() as int) =~= rounds);
    let opened = opening(plan, before.messages, prompt);
    let history = opened + told_in_rounds(rounds);
    let state = after_rounds(plan, start, rounds);
    assert(start.messages =~= opened);
    assert(state.messages == history);
    lemma_goes_on(plan, history);
    if rounds.len() < plan.max_iterations {
        let came = choose|came: Result<Exchange, String>| #[trigger]
            may_exchange(
                plan.client,
                transport,
                decode,
                request_of(plan, state.messages),
                came,
            ) && may_end(plan, state, rounds.len(), came, after, r);
        if let Ok(exchange) = came {
            verdicts_go_by_the_calls(exchange.response@);
        }
        assert(ends_rightly(plan, transport, decode, history, rounds.len(), came, after, r));
    }
    assert forall|i: int| 0 <= i < rounds.len() implies {
        let trace = #[trigger] after.traces[before.traces.len() + i];
        &&& traces_round(trace, (i + 1) as nat, trace.request, rounds[i])
        &&& goes_on_with(trace.request, plan, opened + told_in_rounds(rounds.take(i)))
    } by {
        assert(after.traces[before.traces.len() + i] == state.traces[before.traces.len() + i]);
    }
    assert forall|i: int| 0 <= i < before.traces.len() implies (#[trigger] after.traces[i])
        == before.traces[i] by {
        assert(after.traces[i] == state.traces[i]);
    }
}

// ---------------------------------------------------------------------------
// Sub-agents and the tools on show
// ---------------------------------------------------------------------------

/// A sub-agent answers with the text of the first answer, with nothing where there is none,
/// or with a remark that quotes the error.
pub proof fn subagents_answer_with_the_text(came: Result<ChatResponse, String>, text: String)
    requires
        call_ensures(answer_subagent, (came,), text),
    ensures
        match came {
            Ok(response) => if response.choices@.len() == 0 {
                text@.len() == 0
            } else {
                match response.choices@[0].message.content {
                    Some(said) => text@ == said@,
                    None => text@.len() == 0,
                }
            },
            Err(e) => text@ == "[sub-agent failed: "@ + e@ + "]"@,
        },
        text@ == subagent_text(came),
{
    if let Ok(response) = came {
        if response.choices@.len() > 0 {
            assert(response@.choices[0] == response.choices@[0]@);
        }
    }
}

/// A sub-agent starts from the system prompt and its own prompt, and from nothing else.
pub proof fn subagents_start_afresh<F, H>(plan: Plan<F, H>, prompt: Seq<char>)
    ensures
        subagent_messages(plan, prompt) == opening(plan, Seq::empty(), prompt),
        subagent_messages(plan, prompt).len() == 2,
{
    assert(subagent_messages(plan, prompt) =~= opening(plan, Seq::empty(), prompt));
}

/// The section on tools has one entry for each tool of the registry, in order, with its name,
/// its description and its parameters.
pub proof fn every_tool_is_on_show<F>(registry: ToolRegistry<F>, section: Vec<Json>)
    requires
        call_ensures(tools_section::<F>, (&registry,), section),
    ensures
        section@.len() == registry@.len(),
        forall|i: int|
            0 <= i < section@.len() ==> {
                let j = (#[trigger] section@[i])@;
                &&& j.field("name"@) == Some(JsonView::Text(registry@[i].name@))
                &&& j.field("description"@) == Some(JsonView::Text(registry@[i].description@))
                &&& j.field("parameters"@) == Some(registry@[i].parameters@)
            },
{
    assert(item_views(section@).len() == section@.len());
    assert forall|i: int| 0 <= i < section@.len() implies {
        let j = (#[trigger] section@[i])@;
        &&& j.field("name"@) == Some(JsonView::Text(registry@[i].name@))
        &&& j.field("description"@) == Some(JsonView::Text(registry@[i].description@))
        &&& j.field("parameters"@) == Some(registry@[i].parameters@)
    } by {
        assert(item_views(section@)[i] == described(registry@[i]@));
        let tool = registry@[i]@;
        let entries = described(tool)->Object_0;
        reveal_strlit("description");
        reveal_strlit("name");
        reveal_strlit("parameters");
        assert("description"@.len() != "name"@.len() && "name"@.len() != "parameters"@.len()
            && "description"@.len() != "parameters"@.len());
        let parts: Seq<(Seq<char>, Option<JsonView>)> = seq![
            ("description"@, Some(JsonView::Text(tool.description))),
            ("name"@, Some(JsonView::Text(tool.name))),
            ("parameters"@, Some(tool.parameters)),
        ];
        assert(keys_differ(parts));
        reveal_with_fuel(laid_out, 4);
        assert(laid_out(parts) =~= entries);
        lemma_laid_out(parts, parts[0].0);
        lemma_laid_out(parts, parts[1].0);
        lemma_laid_out(parts, parts[2].0);
    }
}

} // verus!
