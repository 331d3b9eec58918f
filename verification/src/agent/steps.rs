//! What each step of a run does to the agent.
use vstd::prelude::*;
use crate::agent::verdicts::{opening, subagents_start_afresh, verdicts_go_by_the_calls};
use crate::agent::{
    log_after_many, may_run, observed, paired, post_payload, pre_payload, request_of, results,
    run_subagent, subagent_messages, subagent_text, Agent, AgentConfig, AgentOutcome, Next,
    Pending,
};
use crate::chat::{
    calls_view, messages_view, ChatClient, ChatMessage, ChatResponse, Outgoing, Reply, ToolCall,
};
use crate::executor::ExecutionStats;
use crate::hooks::{log_after, HookEvent, HookPayload, HookPayloadView, Hooks};
use crate::json::Json;
use crate::tools::{Execution, ToolRegistry};

use crate::trace::{is_time, timed, trace_lines, transcript_text, IterationTraceView};
use crate::wire::may_complete;

verus! {

/// A configuration holds what is handed in, runs calls one after the other, and lets a run
/// send ten requests.
pub proof fn configurations_hold_what_is_handed_in<F, H>(
    model: &str,
    system_prompt: &str,
    registry: ToolRegistry<F>,
    hooks: Hooks<H>,
    client: ChatClient,
    config: AgentConfig<F, H>,
)
    requires
        call_ensures(
            AgentConfig::<F, H>::new,
            (model, system_prompt, registry, hooks, client),
            config,
        ),
    ensures
        config.model@ == model@,
        config.system_prompt@ == system_prompt@,
        config.registry@ == registry@,
        config.hooks.handlers() == hooks.handlers(),
        config.hooks.log() == hooks.log(),
        config.client.base_url@ == client.base_url@,
        config.client.api_key == client.api_key,
        !config.parallel_tools,
        config.max_iterations == 10,
{
}

/// A new agent remembers nothing.
pub proof fn new_agents_remember_nothing<F, H>(config: AgentConfig<F, H>, agent: Agent<F, H>)
    requires
        call_ensures(Agent::<F, H>::new, (config,), agent),
    ensures
        agent.config == config,
        agent.memory.history().len() == 0,
        agent.memory.records().len() == 0,
{
    assert(agent.state().messages == agent.memory.history());
    assert(agent.state().traces == agent.memory.records());
}

/// A plan says what the configuration holds.
pub proof fn plans_say_what_configurations_hold<F, H>(config: AgentConfig<F, H>)
    ensures
        config.plan().model == config.model@,
        config.plan().system_prompt == config.system_prompt@,
        config.plan().registry == config.registry,
        config.plan().handlers == config.hooks.handlers(),
        config.plan().client == config.client,
        config.plan().parallel == config.parallel_tools,
        config.plan().max_iterations == config.max_iterations,
{
}

/// The request of a round is given by the place of the round, and none where there is no
/// such round.
pub proof fn raw_requests_are_found_by_place<F, H>(
    agent: Agent<F, H>,
    i: usize,
    request: Option<&Json>,
)
    requires
        call_ensures(Agent::<F, H>::raw_request, (&agent, i), request),
    ensures
        request is Some <==> i < agent.memory.records().len(),
        request matches Some(j) ==> j@ == agent.memory.records()[i as int].request,
{
    assert(agent.state().traces == agent.memory.records());
}

/// A prompt joins the history behind what was there, and opens no rounds.
pub proof fn prompts_are_taken_in<F, H: Fn(&HookPayload)>(prompt: &str)
    ensures
        forall|agent: &mut Agent<F, H>| #[trigger]
            call_ensures(Agent::<F, H>::begin, (agent, prompt), ()) ==> {
                &&& (*final(agent)).plan() == (*agent).plan()
                &&& (*final(agent)).state().messages == opening(
                    (*agent).plan(),
                    (*agent).state().messages,
                    prompt@,
                )
                &&& (*final(agent)).state().traces == (*agent).state().traces
                &&& (*final(agent)).state().log == log_after(
                    (*agent).plan().handlers,
                    (*agent).state().log,
                    HookEvent::UserPromptSubmit,
                )
                &&& observed(
                    (*agent).plan().handlers,
                    HookPayloadView::UserPromptSubmit { prompt: prompt@ },
                )
            },
{
}

/// A response without answers changes nothing and is an error. One whose first answer asks
/// for calls, and does not say that the assistant has stopped, adds that answer to the
/// history, and the calls are to be run. After any other the run is finished: the answer
/// joins the history, its text is the outcome, and a trace in which nothing was run is left.
pub proof fn responses_are_received<F, H: Fn(&HookPayload)>(
    iteration: usize,
    request: Json,
    raw: Json,
    response: ChatResponse,
    r: Result<Next, String>,
)
    ensures
        forall|agent: &mut Agent<F, H>| #[trigger]
            call_ensures(
                Agent::<F, H>::receive,
                (agent, iteration, request, raw, &response),
                r,
            ) ==> {
                let before = (*agent).state();
                let after = (*final(agent)).state();
                let handlers = (*agent).plan().handlers;
                &&& (*final(agent)).plan() == (*agent).plan()
                &&& if response@.choices.len() == 0 {
                    &&& r is Err && (r->Err_0)@ == "empty choices in response"@
                    &&& after == before
                } else {
                    let first = response@.choices[0];
                    &&& after.messages == before.messages.push(first.message)
                    &&& if first.message.tool_calls is Some && (first.message.tool_calls->0).len()
                        > 0 && first.finish_reason != Some("stop"@) {
                        let calls = first.message.tool_calls->0;
                        &&& r matches Ok(Next::UseTools(pending)) && {
                            &&& calls_view(pending.calls@) == calls
                            &&& pending.iteration == iteration
                            &&& pending.request@ == request@
                            &&& pending.response@ == raw@
                            &&& match first.finish_reason {
                                Some(reason) => pending.reason@ == reason,
                                None => pending.reason@.len() == 0,
                            }
                        }
                        &&& after.traces == before.traces
                        &&& after.log == log_after_many(
                            handlers,
                            before.log,
                            HookEvent::PreToolUse,
                            calls.len(),
                        )
                        &&& forall|i: int|
                            0 <= i < calls.len() ==> observed(
                                handlers,
                                pre_payload(#[trigger] calls[i]),
                            )
                    } else {
                        &&& r matches Ok(Next::Finished(outcome)) && {
                            &&& outcome@.final_text == (match first.message.content {
                                Some(text) => text,
                                None => Seq::empty(),
                            })
                            &&& outcome@.messages == after.messages
                            &&& outcome@.traces == after.traces
                        }
                        &&& after.traces.len() == before.traces.len() + 1
                        &&& after.traces.drop_last() == before.traces
                        &&& after.traces.last().iteration == iteration
                        &&& after.traces.last().request == request@
                        &&& after.traces.last().response == raw@
                        &&& match first.finish_reason {
                            Some(reason) => after.traces.last().finish_reason == reason,
                            None => after.traces.last().finish_reason.len() == 0,
                        }
                        &&& after.traces.last().executed.len() == 0
                        &&& after.traces.last().stats is None
                        &&& after.log == log_after(handlers, before.log, HookEvent::Stop)
                        &&& observed(
                            handlers,
                            HookPayloadView::Stop { reason: after.traces.last().finish_reason },
                        )
                    }
                }
            },
{
    verdicts_go_by_the_calls(response@);
    assert forall|agent: &mut Agent<F, H>| #[trigger]
        call_ensures(
            Agent::<F, H>::receive,
            (agent, iteration, request, raw, &response),
            r,
        ) && r is Ok && r->Ok_0 is Finished implies (*final(agent)).state().traces.drop_last()
        == (*agent).state().traces by {
        assert((*final(agent)).state().traces.drop_last() =~= (*agent).state().traces);
    }
}

/// The answers to calls join the history in order, one for each call, as far as there are
/// both; a trace is left that pairs each call with its answer.
pub proof fn answers_are_settled<F, H: Fn(&HookPayload)>(
    pending: Pending,
    answers: Vec<ChatMessage>,
    stats: ExecutionStats,
)
    ensures
        forall|agent: &mut Agent<F, H>| #[trigger]
            call_ensures(Agent::<F, H>::settle, (agent, pending, answers, stats), ()) ==> {
                let before = (*agent).state();
                let after = (*final(agent)).state();
                let n = if pending.calls@.len() <= answers@.len() {
                    pending.calls@.len()
                } else {
                    answers@.len()
                };
                let trace = after.traces.last();
                &&& (*final(agent)).plan() == (*agent).plan()
                &&& after.messages == before.messages + messages_view(answers@).take(n as int)
                &&& after.traces.len() == before.traces.len() + 1
                &&& after.traces.drop_last() == before.traces
                &&& trace.iteration == pending.iteration
                &&& trace.request == pending.request@
                &&& trace.response == pending.response@
                &&& trace.finish_reason == pending.reason@
                &&& trace.stats == Some(stats)
                &&& trace.executed.len() == n
                &&& forall|i: int|
                    0 <= i < n ==> (#[trigger] trace.executed[i]).call == pending.calls@[i]@
                        && trace.executed[i].result == answers@[i]@ && observed(
                        (*agent).plan().handlers,
                        post_payload(trace.executed[i]),
                    )
                &&& after.log == log_after_many(
                    (*agent).plan().handlers,
                    before.log,
                    HookEvent::PostToolUse,
                    n,
                )
            },
{
    assert forall|agent: &mut Agent<F, H>| #[trigger]
        call_ensures(Agent::<F, H>::settle, (agent, pending, answers, stats), ()) implies {
        let before = (*agent).state();
        let after = (*final(agent)).state();
        let n = if pending.calls@.len() <= answers@.len() {
            pending.calls@.len()
        } else {
            answers@.len()
        };
        let trace = after.traces.last();
        &&& (*final(agent)).plan() == (*agent).plan()
        &&& after.messages == before.messages + messages_view(answers@).take(n as int)
        &&& after.traces.len() == before.traces.len() + 1
        &&& after.traces.drop_last() == before.traces
        &&& trace.iteration == pending.iteration
        &&& trace.request == pending.request@
        &&& trace.response == pending.response@
        &&& trace.finish_reason == pending.reason@
        &&& trace.stats == Some(stats)
        &&& trace.executed.len() == n
        &&& forall|i: int|
            0 <= i < n ==> (#[trigger] trace.executed[i]).call == pending.calls@[i]@
                && trace.executed[i].result == answers@[i]@ && observed(
                (*agent).plan().handlers,
                post_payload(trace.executed[i]),
            )
        &&& after.log == log_after_many(
            (*agent).plan().handlers,
            before.log,
            HookEvent::PostToolUse,
            n,
        )
    } by {
        let n = if pending.calls@.len() <= answers@.len() {
            pending.calls@.len()
        } else {
            answers@.len()
        };
        let steps = paired(calls_view(pending.calls@), messages_view(answers@));
        assert(results(steps) =~= messages_view(answers@).take(n as int));
        assert((*final(agent)).state().traces.drop_last() =~= (*agent).state().traces);
    }
}

/// A run keeps to the relation of runs, and leaves the configuration as it is.
pub proof fn runs_keep_to_the_rules<
    F: Fn(&Json) -> Execution,
    H: Fn(&HookPayload),
    T: Fn(&Outgoing) -> Result<Reply, String>,
    D: Fn(&str) -> Result<ChatResponse, String>,
    P: Fn(&ToolRegistry<F>, &[ToolCall]) -> Vec<Option<ChatMessage>>,
>(prompt: &str, transport: T, decode: D, pool: P, r: Result<AgentOutcome, String>)
    ensures
        forall|agent: &mut Agent<F, H>| #[trigger]
            call_ensures(
                Agent::<F, H>::run::<T, D, P>,
                (agent, prompt, &transport, &decode, &pool),
                r,
            ) ==> {
                &&& (*final(agent)).plan() == (*agent).plan()
                &&& may_run(
                    (*agent).plan(),
                    transport,
                    decode,
                    pool,
                    prompt@,
                    (*agent).state(),
                    (*final(agent)).state(),
                    r,
                )
            },
{
}

/// A sub-agent sends one request, which starts from the system prompt and its own prompt and
/// offers every tool, and answers with what came back: the text of the first answer, nothing
/// where there is none, or a remark that quotes the error. Hooks are told of its start with
/// the prompt, and of its end with the answer.
pub proof fn subagents_answer_once<
    F,
    H: Fn(&HookPayload),
    T: Fn(&Outgoing) -> Result<Reply, String>,
    D: Fn(&str) -> Result<ChatResponse, String>,
>(name: &str, prompt: &str, transport: T, decode: D, r: Result<String, String>)
    ensures
        forall|config: &mut AgentConfig<F, H>| #[trigger]
            call_ensures(
                run_subagent::<F, H, T, D>,
                (config, name, prompt, &transport, &decode),
                r,
            ) ==> {
                let plan = (*config).plan();
                &&& (*final(config)).plan() == plan
                &&& r is Ok
                &&& exists|came: Result<ChatResponse, String>| #[trigger]
                    may_complete(
                        plan.client,
                        transport,
                        decode,
                        request_of(plan, opening(plan, Seq::empty(), prompt@)),
                        came,
                    ) && (match came {
                        Ok(response) => if response@.choices.len() == 0 {
                            (r->Ok_0)@.len() == 0
                        } else {
                            match response@.choices[0].message.content {
                                Some(text) => (r->Ok_0)@ == text,
                                None => (r->Ok_0)@.len() == 0,
                            }
                        },
                        Err(e) => (r->Ok_0)@ == "[sub-agent failed: "@ + e@ + "]"@,
                    })
                &&& observed(
                    plan.handlers,
                    HookPayloadView::SubAgentStart { name: name@, prompt: prompt@ },
                )
                &&& observed(
                    plan.handlers,
                    HookPayloadView::SubAgentStop { name: name@, result: (r->Ok_0)@ },
                )
                &&& (*final(config)).hooks.log() == log_after(
                    plan.handlers,
                    log_after(plan.handlers, (*config).hooks.log(), HookEvent::SubAgentStart),
                    HookEvent::SubAgentStop,
                )
            },
{
    assert forall|config: &mut AgentConfig<F, H>| #[trigger]
        call_ensures(
            run_subagent::<F, H, T, D>,
            (config, name, prompt, &transport, &decode),
            r,
        ) implies exists|came: Result<ChatResponse, String>| #[trigger]
        may_complete(
            (*config).plan().client,
            transport,
            decode,
            request_of(
                (*config).plan(),
                opening((*config).plan(), Seq::empty(), prompt@),
            ),
            came,
        ) && (match came {
            Ok(response) => if response@.choices.len() == 0 {
                (r->Ok_0)@.len() == 0
            } else {
                match response@.choices[0].message.content {
                    Some(text) => (r->Ok_0)@ == text,
                    None => (r->Ok_0)@.len() == 0,
                }
            },
            Err(e) => (r->Ok_0)@ == "[sub-agent failed: "@ + e@ + "]"@,
        }) by {
        let plan = (*config).plan();
        subagents_start_afresh(plan, prompt@);
        let came = choose|came: Result<ChatResponse, String>| #[trigger]
            may_complete(
                (*config).client,
                transport,
                decode,
                request_of(plan, subagent_messages(plan, prompt@)),
                came,
            ) && (r->Ok_0)@ == subagent_text(came);
        assert(may_complete(
            plan.client,
            transport,
            decode,
            request_of(plan, opening(plan, Seq::empty(), prompt@)),
            came,
        ));
    }
}

/// A copy of a configuration is set up in the same way.
pub proof fn copies_of_configurations_agree<F: Clone, H: Clone>(
    config: AgentConfig<F, H>,
    copy: AgentConfig<F, H>,
)
    requires
        call_ensures(AgentConfig::<F, H>::clone, (&config,), copy),
    ensures
        copy.model@ == config.model@,
        copy.system_prompt@ == config.system_prompt@,
        copy.client.base_url@ == config.client.base_url@,
        copy.client.api_key == config.client.api_key,
        copy.parallel_tools == config.parallel_tools,
        copy.max_iterations == config.max_iterations,
        copy.registry@.len() == config.registry@.len(),
        copy.hooks.handlers().len() == config.hooks.handlers().len(),
        copy.hooks.log() == config.hooks.log(),
{
}

/// The transcript of an agent is that of its rounds: nothing where there are none, and the
/// lines of the round where there is one.
pub proof fn agents_tell_their_rounds<F, H, M: Fn(u128) -> String>(
    agent: Agent<F, H>,
    show_ms: M,
    text: String,
)
    requires
        call_ensures(Agent::<F, H>::transcript::<M>, (&agent, &show_ms), text),
    ensures
        exists|times: Seq<Seq<char>>| #[trigger]
            timed(show_ms, agent.memory.records(), times) && text@ == transcript_text(
                agent.memory.records(),
                times,
            ),
        agent.memory.records().len() == 0 ==> text@.len() == 0,
        agent.memory.records().len() == 1 ==> exists|time: Seq<char>| #[trigger]
            is_time(show_ms, agent.memory.records()[0].stats, time) && text@ == trace_lines(
                agent.memory.records()[0],
                time,
            ),
{
    let traces = agent.memory.records();
    assert(agent.state().traces == traces);
    let times = choose|times: Seq<Seq<char>>| #[trigger]
        timed(show_ms, traces, times) && text@ == transcript_text(traces, times);
    assert(timed(show_ms, traces, times));
    if traces.len() == 1 {
        assert(traces.drop_last() =~= Seq::<IterationTraceView>::empty());
        assert(transcript_text(traces.drop_last(), times.drop_last()) =~= Seq::<char>::empty());
        assert(text@ =~= trace_lines(traces[0], times[0]));
        assert(is_time(show_ms, traces[0].stats, times[0]));
    }
}

/// An outcome says what it holds.
pub proof fn outcomes_say_what_they_hold(outcome: AgentOutcome)
    ensures
        outcome@.final_text == outcome.final_text@,
        outcome@.messages.len() == outcome.messages@.len(),
        forall|i: int|
            0 <= i < outcome.messages@.len() ==> (#[trigger] outcome@.messages[i])
                == outcome.messages@[i]@,
        outcome@.traces.len() == outcome.traces@.len(),
        forall|i: int|
            0 <= i < outcome.traces@.len() ==> (#[trigger] outcome@.traces[i])
                == outcome.traces@[i]@,
{
}

} // verus!
