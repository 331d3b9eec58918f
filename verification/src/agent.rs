//! The agent loop.
//!
//! The prompt of the user enters the history. Then, round by round: a request with the
//! history and the tools is sent; the reply of the assistant joins the history; if it asks
//! for tools, they are run and their answers join the history too, and the next round
//! begins; if it does not, the run is over. Hooks observe the boundaries along the way.
use vstd::prelude::*;
use crate::chat::{
    calls_view, copy_calls, copy_messages, copy_text_or_empty, messages_view, plain_message,
    text_or_empty, usual_temperature, usual_temperature_spec, ChatClient, ChatMessage,
    ChatMessageView, ChatRequest, ChatRequestView, ChatResponse, ChatResponseView, Outgoing, Reply,
    Role, ToolCall, ToolCallView,
};
use crate::agent::laws::rounds_only_add;
use crate::executor::{all_accept, batch, execute_many, ExecutionStats};
use crate::hooks::{
    accept, called, handlers_copied, log_after, Handler, HookEvent, HookLogEntryView, HookPayload,
    HookPayloadView, Hooks,
};
use crate::json::{entry_views, item_views, parse_json, parsed, push_entry, Json, JsonView};
use crate::text::{decimal, render_unsigned, same_text, texts};
use crate::tools::{all_advertised, tools_copied, Execution, ToolRegistry, ToolView};
use crate::trace::{
    can_show, copy_traces, print_times, render_traces, steps_view, timed, traces_view, transcript_text,
    ExecutionStepView, IterationTraceView,
};
use crate::wire::{can_exchange, may_complete, may_exchange, request_json, Exchange};

pub mod laws;
pub mod steps;
pub mod verdicts;

pub use crate::trace::{ExecutionStep, IterationTrace};

verus! {

// ---------------------------------------------------------------------------
// Configuration and state
// ---------------------------------------------------------------------------

/// What an agent is set up with.
pub struct AgentConfig<F, H> {
    pub model: String,
    pub system_prompt: String,
    pub registry: ToolRegistry<F>,
    pub hooks: Hooks<H>,
    pub client: ChatClient,
    /// Whether the calls of a round are run side by side.
    pub parallel_tools: bool,
    /// How many requests a run may send.
    pub max_iterations: usize,
}

/// The part of an [`AgentConfig`] that a run does not change: all but the log of its hooks.
pub struct Plan<F, H> {
    pub model: Seq<char>,
    pub system_prompt: Seq<char>,
    pub registry: ToolRegistry<F>,
    pub handlers: Seq<Handler<H>>,
    pub client: ChatClient,
    pub parallel: bool,
    pub max_iterations: nat,
}

impl<F, H> AgentConfig<F, H> {
    /// The part that a run does not change.
    pub open spec fn plan(&self) -> Plan<F, H> {
        Plan {
            model: self.model@,
            system_prompt: self.system_prompt@,
            registry: self.registry,
            handlers: self.hooks.handlers(),
            client: self.client,
            parallel: self.parallel_tools,
            max_iterations: self.max_iterations as nat,
        }
    }

    /// A configuration that runs calls one after the other and sends at most ten requests.
    pub fn new(
        model: &str,
        system_prompt: &str,
        registry: ToolRegistry<F>,
        hooks: Hooks<H>,
        client: ChatClient,
    ) -> (config: AgentConfig<F, H>)
        ensures
            config.model@ == model@,
            config.system_prompt@ == system_prompt@,
            config.registry == registry,
            config.hooks == hooks,
            config.client == client,
            config.parallel_tools == false,
            config.max_iterations == 10,
    {
        AgentConfig {
            model: model.to_owned(),
            system_prompt: system_prompt.to_owned(),
            registry,
            hooks,
            client,
            parallel_tools: false,
            max_iterations: 10,
        }
    }
}

impl<F: Clone, H: Clone> Clone for AgentConfig<F, H> {
    /// The same configuration, with a log of its own from then on.
    fn clone(&self) -> (copy: Self)
        ensures
            copy.model == self.model,
            copy.system_prompt == self.system_prompt,
            self.registry.wf() ==> copy.registry.wf(),
            tools_copied(self.registry@, copy.registry@),
            handlers_copied(self.hooks.handlers(), copy.hooks.handlers()),
            copy.hooks.log() == self.hooks.log(),
            copy.client == self.client,
            copy.parallel_tools == self.parallel_tools,
            copy.max_iterations == self.max_iterations,
    {
        AgentConfig {
            model: self.model.clone(),
            system_prompt: self.system_prompt.clone(),
            registry: self.registry.clone(),
            hooks: self.hooks.clone(),
            client: self.client.clone(),
            parallel_tools: self.parallel_tools,
            max_iterations: self.max_iterations,
        }
    }
}

/// What a run of an agent gives.
#[derive(Debug, PartialEq, Eq)]
pub struct AgentOutcome {
    /// The text of the last message of the assistant.
    pub final_text: String,
    /// The history.
    pub messages: Vec<ChatMessage>,
    /// A record of each round.
    pub traces: Vec<IterationTrace>,
}

/// What an [`AgentOutcome`] says.
pub struct AgentOutcomeView {
    pub final_text: Seq<char>,
    pub messages: Seq<ChatMessageView>,
    pub traces: Seq<IterationTraceView>,
}

impl View for AgentOutcome {
    type V = AgentOutcomeView;

    open spec fn view(&self) -> AgentOutcomeView {
        AgentOutcomeView {
            final_text: self.final_text@,
            messages: messages_view(self.messages@),
            traces: traces_view(self.traces@),
        }
    }
}

impl Clone for AgentOutcome {
    fn clone(&self) -> (copy: Self)
        ensures
            copy@ == self@,
    {
        AgentOutcome {
            final_text: self.final_text.clone(),
            messages: copy_messages(&self.messages),
            traces: copy_traces(&self.traces),
        }
    }
}

/// What an agent remembers of its runs.
pub struct Memory {
    messages: Vec<ChatMessage>,
    traces: Vec<IterationTrace>,
}

impl Memory {
    /// The history.
    pub closed spec fn history(&self) -> Seq<ChatMessageView> {
        messages_view(self.messages@)
    }

    /// The records of the rounds so far.
    pub closed spec fn records(&self) -> Seq<IterationTraceView> {
        traces_view(self.traces@)
    }
}

/// The live agent: it owns the history and drives the loop.
pub struct Agent<F, H> {
    pub config: AgentConfig<F, H>,
    pub memory: Memory,
}

/// What a run changes of an agent: the history, the traces, and the log of the hooks.
pub struct State {
    pub messages: Seq<ChatMessageView>,
    pub traces: Seq<IterationTraceView>,
    pub log: Option<Seq<HookLogEntryView>>,
}

impl<F, H> Agent<F, H> {
    /// What a run does not change.
    pub open spec fn plan(&self) -> Plan<F, H> {
        self.config.plan()
    }

    /// What a run changes.
    pub open spec fn state(&self) -> State {
        State {
            messages: self.memory.history(),
            traces: self.memory.records(),
            log: self.config.hooks.log(),
        }
    }

    /// An agent without a history.
    pub fn new(config: AgentConfig<F, H>) -> (agent: Agent<F, H>)
        ensures
            agent.config == config,
            agent.state() == (State {
                messages: Seq::empty(),
                traces: Seq::empty(),
                log: config.hooks.log(),
            }),
    {
        let memory = Memory { messages: Vec::new(), traces: Vec::new() };
        let agent = Agent { config, memory };
        assert(agent.state().messages =~= Seq::<ChatMessageView>::empty());
        assert(agent.state().traces =~= Seq::<IterationTraceView>::empty());
        agent
    }

    /// A compact transcript of all rounds so far, in order. `show_ms` prints a time, which
    /// it is given in nanoseconds, in milliseconds.
    pub fn transcript<M: Fn(u128) -> String>(&self, show_ms: &M) -> (text: String)
        requires
            can_show(*show_ms, self.state().traces),
        ensures
            exists|times: Seq<Seq<char>>| #[trigger]
                timed(*show_ms, self.state().traces, times) && text@ == transcript_text(
                    self.state().traces,
                    times,
                ),
    {
        let times = print_times(&self.memory.traces, show_ms);
        assert(timed(*show_ms, self.state().traces, texts(times@)));
        render_traces(&self.memory.traces, &times)
    }

    /// The request of the round at position `i`, if there is one.
    pub fn raw_request(&self, i: usize) -> (request: Option<&Json>)
        ensures
            match request {
                Some(request) => i < self.state().traces.len() && request@
                    == self.state().traces[i as int].request,
                None => i >= self.state().traces.len(),
            },
    {
        if i < self.memory.traces.len() {
            Some(&self.memory.traces[i].request)
        } else {
            None
        }
    }
}

// ---------------------------------------------------------------------------
// Requests and decisions
// ---------------------------------------------------------------------------

/// The request for a completion of a conversation, with all tools on offer.
pub open spec fn request_of<F, H>(plan: Plan<F, H>, messages: Seq<ChatMessageView>) -> ChatRequestView {
    ChatRequestView {
        model: plan.model,
        messages,
        tools: Some(all_advertised(plan.registry@)),
        tool_choice: Some(JsonView::Text("auto"@)),
        temperature: Some(usual_temperature_spec()),
    }
}

impl<F, H> AgentConfig<F, H> {
    /// The request for a completion of a conversation, with all tools on offer.
    pub fn request(&self, messages: Vec<ChatMessage>) -> (request: ChatRequest)
        ensures
            request@ == request_of(self.plan(), messages_view(messages@)),
    {
        ChatRequest {
            model: self.model.clone(),
            messages,
            tools: Some(self.registry.as_chat_tools()),
            tool_choice: Some(Json::text("auto")),
            temperature: Some(usual_temperature()),
        }
    }
}

/// What a response means for the loop.
pub enum Verdict {
    /// It is of no use, for this reason.
    Fail(Seq<char>),
    /// The turn is over.
    Stop { message: ChatMessageView, reason: Seq<char> },
    /// The assistant wants these calls to be run.
    Go { message: ChatMessageView, reason: Seq<char>, calls: Seq<ToolCallView> },
}

/// What a response means for the loop. The calls decide: without any the turn is over,
/// and it is over too where the assistant says that it has stopped.
pub open spec fn verdict(response: ChatResponseView) -> Verdict {
    if response.choices.len() == 0 {
        Verdict::Fail("empty choices in response"@)
    } else {
        let message = response.choices[0].message;
        let reason = text_or_empty(response.choices[0].finish_reason);
        match message.tool_calls {
            Some(calls) => if calls.len() == 0 || reason == "stop"@ {
                Verdict::Stop { message, reason }
            } else {
                Verdict::Go { message, reason, calls }
            },
            None => Verdict::Stop { message, reason },
        }
    }
}

/// What to do about a response.
#[derive(Debug, PartialEq, Eq)]
pub enum Decision {
    /// End the turn.
    Stop { message: ChatMessage, reason: String },
    /// Run calls.
    Go { message: ChatMessage, reason: String, calls: Vec<ToolCall> },
}

/// What a decision says.
pub open spec fn decision_view(r: Result<Decision, String>) -> Verdict {
    match r {
        Ok(Decision::Stop { message, reason }) => Verdict::Stop {
            message: message@,
            reason: reason@,
        },
        Ok(Decision::Go { message, reason, calls }) => Verdict::Go {
            message: message@,
            reason: reason@,
            calls: calls_view(calls@),
        },
        Err(e) => Verdict::Fail(e@),
    }
}

/// Decides what to do about a response.
pub fn decide(response: &ChatResponse) -> (r: Result<Decision, String>)
    ensures
        decision_view(r) == verdict(response@),
{
    if response.choices.len() == 0 {
        return Err("empty choices in response".to_owned());
    }
    let choice = &response.choices[0];
    assert(response@.choices[0] == choice@);
    let reason = copy_text_or_empty(&choice.finish_reason);
    let message = choice.message.clone();
    match &choice.message.tool_calls {
        Some(calls) => if calls.len() == 0 || same_text(reason.as_str(), "stop") {
            Ok(Decision::Stop { message, reason })
        } else {
            let calls = copy_calls(calls);
            Ok(Decision::Go { message, reason, calls })
        },
        None => Ok(Decision::Stop { message, reason }),
    }
}

// ---------------------------------------------------------------------------
// Hooks along the way
// ---------------------------------------------------------------------------

/// Whether every callback for the event of `payload` accepts it.
pub open spec fn can_tell<H: Fn(&HookPayload)>(
    handlers: Seq<Handler<H>>,
    payload: HookPayloadView,
) -> bool {
    forall|told: HookPayload|
        told@ == payload ==> #[trigger] accept(handlers, payload.event(), told)
}

/// Whether every callback for the event of `payload` has been called with it.
pub open spec fn observed<H: Fn(&HookPayload)>(
    handlers: Seq<Handler<H>>,
    payload: HookPayloadView,
) -> bool {
    exists|told: HookPayload| #[trigger]
        called(handlers, payload.event(), told) && told@ == payload
}

/// The log after an event has fired `n` times.
pub open spec fn log_after_many<H>(
    handlers: Seq<Handler<H>>,
    log: Option<Seq<HookLogEntryView>>,
    event: HookEvent,
    n: nat,
) -> Option<Seq<HookLogEntryView>>
    decreases n,
{
    if n == 0 {
        log
    } else {
        log_after(handlers, log_after_many(handlers, log, event, (n - 1) as nat), event)
    }
}

/// The arguments of a call as JSON, or null where they are none.
pub open spec fn args_or_null(arguments: Seq<char>) -> JsonView {
    match parsed(arguments) {
        Ok(args) => args,
        Err(_) => JsonView::Null,
    }
}

/// What hooks are told before a call is run.
pub open spec fn pre_payload(call: ToolCallView) -> HookPayloadView {
    HookPayloadView::PreToolUse { tool: call.name, args: args_or_null(call.arguments) }
}

/// What hooks are told after a call was run.
pub open spec fn post_payload(step: ExecutionStepView) -> HookPayloadView {
    HookPayloadView::PostToolUse {
        tool: step.call.name,
        output: text_or_empty(step.result.content),
        is_error: false,
    }
}

/// Tells hooks of each call that is about to be run.
fn announce<H: Fn(&HookPayload)>(hooks: &mut Hooks<H>, calls: &Vec<ToolCall>)
    requires
        forall|i: int|
            0 <= i < calls@.len() ==> can_tell(
                old(hooks).handlers(),
                pre_payload((#[trigger] calls@[i])@),
            ),
    ensures
        final(hooks).handlers() == old(hooks).handlers(),
        final(hooks).log() == log_after_many(
            old(hooks).handlers(),
            old(hooks).log(),
            HookEvent::PreToolUse,
            calls@.len(),
        ),
        forall|i: int|
            0 <= i < calls@.len() ==> observed(
                old(hooks).handlers(),
                pre_payload((#[trigger] calls@[i])@),
            ),
{
    let ghost handlers = hooks.handlers();
    let ghost log = hooks.log();
    let mut i: usize = 0;
    while i < calls.len()
        invariant
            i <= calls@.len(),
            forall|k: int|
                0 <= k < calls@.len() ==> can_tell(handlers, pre_payload((#[trigger] calls@[k])@)),
            hooks.handlers() == handlers,
            hooks.log() == log_after_many(handlers, log, HookEvent::PreToolUse, i as nat),
            forall|k: int|
                0 <= k < i ==> observed(handlers, pre_payload((#[trigger] calls@[k])@)),
        decreases calls@.len() - i,
    {
        let call = &calls[i];
        let args = match parse_json(call.arguments.as_str()) {
            Ok(args) => args,
            Err(_) => Json::Null,
        };
        let payload = HookPayload::PreToolUse { tool: call.name.clone(), args };
        assert(payload@ == pre_payload(call@));
        hooks.fire(HookEvent::PreToolUse, &payload);
        assert(observed(handlers, pre_payload(call@)));
        i += 1;
    }
}

// ---------------------------------------------------------------------------
// The steps of a run
// ---------------------------------------------------------------------------

/// The state once a prompt has entered the loop: the system prompt opens the history, and
/// the prompt of the user is at its end.
pub open spec fn begun<F, H>(plan: Plan<F, H>, state: State, prompt: Seq<char>) -> State {
    let history = if state.messages.len() == 0 {
        seq![plain_message(Role::System, plan.system_prompt)]
    } else {
        state.messages
    };
    State {
        messages: history.push(plain_message(Role::User, prompt)),
        traces: state.traces,
        log: log_after(plan.handlers, state.log, HookEvent::UserPromptSubmit),
    }
}

/// The state once the assistant has asked for calls and hooks have been told of them.
pub open spec fn asked<F, H>(
    plan: Plan<F, H>,
    state: State,
    message: ChatMessageView,
    calls: Seq<ToolCallView>,
) -> State {
    State {
        messages: state.messages.push(message),
        traces: state.traces,
        log: log_after_many(plan.handlers, state.log, HookEvent::PreToolUse, calls.len()),
    }
}

/// Calls with their answers, as far as there are both.
pub open spec fn paired(calls: Seq<ToolCallView>, answers: Seq<ChatMessageView>) -> Seq<
    ExecutionStepView,
> {
    Seq::new(
        if calls.len() <= answers.len() {
            calls.len()
        } else {
            answers.len()
        },
        |i: int| ExecutionStepView { call: calls[i], result: answers[i] },
    )
}

/// The answers of steps.
pub open spec fn results(steps: Seq<ExecutionStepView>) -> Seq<ChatMessageView> {
    Seq::new(steps.len(), |i: int| steps[i].result)
}

/// The state once the answers to calls have joined the history and hooks have been told
/// of them.
pub open spec fn recorded<F, H>(plan: Plan<F, H>, state: State, trace: IterationTraceView) -> State {
    State {
        messages: state.messages + results(trace.executed),
        traces: state.traces.push(trace),
        log: log_after_many(
            plan.handlers,
            state.log,
            HookEvent::PostToolUse,
            trace.executed.len(),
        ),
    }
}

/// The state once the assistant has ended the turn and hooks have been told of it.
pub open spec fn stopped<F, H>(
    plan: Plan<F, H>,
    state: State,
    message: ChatMessageView,
    trace: IterationTraceView,
) -> State {
    State {
        messages: state.messages.push(message),
        traces: state.traces.push(trace),
        log: log_after(plan.handlers, state.log, HookEvent::Stop),
    }
}

/// The record of the round that ended the turn.
pub open spec fn last_trace(
    iteration: nat,
    request: JsonView,
    response: JsonView,
    reason: Seq<char>,
) -> IterationTraceView {
    IterationTraceView {
        iteration,
        request,
        response,
        finish_reason: reason,
        executed: Seq::empty(),
        stats: None,
    }
}

/// Whether hooks accept what they are told of a response: that the turn has ended, or each
/// call that is about to be run. Of a response that is of no use they are told nothing.
pub open spec fn can_receive<F, H: Fn(&HookPayload)>(
    plan: Plan<F, H>,
    response: ChatResponseView,
) -> bool {
    match verdict(response) {
        Verdict::Fail(_) => true,
        Verdict::Stop { reason, .. } => can_tell(plan.handlers, HookPayloadView::Stop { reason }),
        Verdict::Go { calls, .. } => forall|i: int|
            0 <= i < calls.len() ==> can_tell(plan.handlers, pre_payload(#[trigger] calls[i])),
    }
}

/// A round whose calls have not been answered yet.
#[derive(Debug, PartialEq, Eq)]
pub struct Pending {
    pub iteration: usize,
    pub request: Json,
    pub response: Json,
    pub reason: String,
    pub calls: Vec<ToolCall>,
}

impl Pending {
    /// The record of the round, once the calls have been answered.
    pub open spec fn trace(
        &self,
        answers: Seq<ChatMessageView>,
        stats: ExecutionStats,
    ) -> IterationTraceView {
        IterationTraceView {
            iteration: self.iteration as nat,
            request: self.request@,
            response: self.response@,
            finish_reason: self.reason@,
            executed: paired(calls_view(self.calls@), answers),
            stats: Some(stats),
        }
    }
}

/// Where a run is once a response has been received.
#[derive(Debug, PartialEq, Eq)]
pub enum Next {
    /// It is over.
    Finished(AgentOutcome),
    /// Calls are to be run.
    UseTools(Pending),
}

impl<F, H: Fn(&HookPayload)> Agent<F, H> {
    /// Takes in a prompt of the user.
    pub fn begin(&mut self, prompt: &str)
        requires
            can_tell(
                old(self).plan().handlers,
                (HookPayloadView::UserPromptSubmit { prompt: prompt@ }),
            ),
        ensures
            final(self).plan() == old(self).plan(),
            final(self).state() == begun(old(self).plan(), old(self).state(), prompt@),
            observed(
                old(self).plan().handlers,
                (HookPayloadView::UserPromptSubmit { prompt: prompt@ }),
            ),
    {
        let ghost before = self.state();
        let ghost plan = self.plan();
        let payload = HookPayload::UserPromptSubmit { prompt: prompt.to_owned() };
        assert(payload@ == (HookPayloadView::UserPromptSubmit { prompt: prompt@ }));
        self.config.hooks.fire(HookEvent::UserPromptSubmit, &payload);
        assert(called(plan.handlers, payload@.event(), payload));
        if self.memory.messages.len() == 0 {
            self.memory.messages.push(ChatMessage::system(self.config.system_prompt.as_str()));
        }
        self.memory.messages.push(ChatMessage::user(prompt));
        assert(self.state().messages =~= begun(plan, before, prompt@).messages);
    }

    /// The request for the next round.
    pub fn next_request(&self) -> (request: ChatRequest)
        ensures
            request@ == request_of(self.plan(), self.state().messages),
    {
        self.config.request(copy_messages(&self.memory.messages))
    }

    /// Takes in the response to the request of a round; `raw` is the body that it was read
    /// from.
    pub fn receive(
        &mut self,
        iteration: usize,
        request: Json,
        raw: Json,
        response: &ChatResponse,
    ) -> (r: Result<Next, String>)
        requires
            can_receive(old(self).plan(), response@),
        ensures
            final(self).plan() == old(self).plan(),
            match verdict(response@) {
                Verdict::Fail(e) => {
                    &&& r matches Err(text)
                    &&& text@ == e
                    &&& final(self).state() == old(self).state()
                },
                Verdict::Stop { message, reason } => {
                    &&& r matches Ok(Next::Finished(outcome))
                    &&& final(self).state() == stopped(
                        old(self).plan(),
                        old(self).state(),
                        message,
                        last_trace(iteration as nat, request@, raw@, reason),
                    )
                    &&& outcome@ == (AgentOutcomeView {
                        final_text: text_or_empty(message.content),
                        messages: final(self).state().messages,
                        traces: final(self).state().traces,
                    })
                    &&& observed(old(self).plan().handlers, HookPayloadView::Stop { reason })
                },
                Verdict::Go { message, reason, calls } => {
                    &&& r matches Ok(Next::UseTools(pending))
                    &&& final(self).state() == asked(
                        old(self).plan(),
                        old(self).state(),
                        message,
                        calls,
                    )
                    &&& pending.iteration == iteration
                    &&& pending.request@ == request@
                    &&& pending.response@ == raw@
                    &&& pending.reason@ == reason
                    &&& calls_view(pending.calls@) == calls
                    &&& forall|i: int|
                        0 <= i < calls.len() ==> observed(
                            old(self).plan().handlers,
                            pre_payload(#[trigger] calls[i]),
                        )
                },
            },
    {
        let ghost before = self.state();
        let ghost plan = self.plan();
        match decide(response) {
            Err(e) => Err(e),
            Ok(Decision::Stop { message, reason }) => {
                let ghost said = message@;
                let final_text = copy_text_or_empty(&message.content);
                self.memory.messages.push(message);
                let trace = IterationTrace {
                    iteration,
                    request,
                    response: raw,
                    finish_reason: reason.clone(),
                    executed: Vec::new(),
                    stats: None,
                };
                let ghost trace_said = trace@;
                self.memory.traces.push(trace);
                let payload = HookPayload::Stop { reason };
                assert(payload@ == (HookPayloadView::Stop { reason: reason@ }));
                self.config.hooks.fire(HookEvent::Stop, &payload);
                proof {
                    assert(called(plan.handlers, payload@.event(), payload));
                    assert(trace_said.executed =~= Seq::empty());
                    assert(self.state().messages =~= before.messages.push(said));
                    assert(self.state().traces =~= before.traces.push(trace_said));
                }
                Ok(
                    Next::Finished(
                        AgentOutcome {
                            final_text,
                            messages: copy_messages(&self.memory.messages),
                            traces: copy_traces(&self.memory.traces),
                        },
                    ),
                )
            },
            Ok(Decision::Go { message, reason, calls }) => {
                let ghost said = message@;
                self.memory.messages.push(message);
                assert forall|i: int| 0 <= i < calls@.len() implies can_tell(
                    plan.handlers,
                    pre_payload((#[trigger] calls@[i])@),
                ) by {
                    assert(calls_view(calls@)[i] == calls@[i]@);
                }
                announce(&mut self.config.hooks, &calls);
                proof {
                    assert(self.state().messages =~= before.messages.push(said));
                    let views = calls_view(calls@);
                    assert forall|i: int| 0 <= i < views.len() implies observed(
                        plan.handlers,
                        pre_payload(#[trigger] views[i]),
                    ) by {
                        assert(views[i] == calls@[i]@);
                    }
                }
                Ok(
                    Next::UseTools(
                        Pending { iteration, request, response: raw, reason, calls },
                    ),
                )
            },
        }
    }

    /// Takes in the answers to the calls of a round.
    pub fn settle(&mut self, pending: Pending, answers: Vec<ChatMessage>, stats: ExecutionStats)
        requires
            forall|i: int|
                0 <= i < paired(calls_view(pending.calls@), messages_view(answers@)).len()
                    ==> can_tell(
                    old(self).plan().handlers,
                    post_payload(
                        #[trigger] paired(calls_view(pending.calls@), messages_view(answers@))[i],
                    ),
                ),
        ensures
            final(self).plan() == old(self).plan(),
            final(self).state() == recorded(
                old(self).plan(),
                old(self).state(),
                pending.trace(messages_view(answers@), stats),
            ),
            forall|i: int|
                0 <= i < paired(calls_view(pending.calls@), messages_view(answers@)).len()
                    ==> observed(
                    old(self).plan().handlers,
                    post_payload(
                        #[trigger] paired(calls_view(pending.calls@), messages_view(answers@))[i],
                    ),
                ),
    {
        let ghost before = self.state();
        let ghost plan = self.plan();
        let ghost trace = pending.trace(messages_view(answers@), stats);
        let ghost steps_of = trace.executed;
        let mut executed: Vec<ExecutionStep> = Vec::new();
        let mut i: usize = 0;
        assert(self.state().messages =~= before.messages + results(steps_of.take(0)));
        while i < pending.calls.len() && i < answers.len()
            invariant
                i <= pending.calls@.len(),
                i <= answers@.len(),
                steps_of == paired(calls_view(pending.calls@), messages_view(answers@)),
                forall|k: int|
                    0 <= k < steps_of.len() ==> can_tell(
                        plan.handlers,
                        post_payload(#[trigger] steps_of[k]),
                    ),
                self.plan() == plan,
                self.state().messages == before.messages + results(steps_of.take(i as int)),
                self.state().traces == before.traces,
                self.state().log == log_after_many(
                    plan.handlers,
                    before.log,
                    HookEvent::PostToolUse,
                    i as nat,
                ),
                executed@.len() == i,
                forall|k: int| 0 <= k < i ==> (#[trigger] executed@[k])@ == steps_of[k],
                forall|k: int|
                    0 <= k < i ==> observed(plan.handlers, post_payload(#[trigger] steps_of[k])),
            decreases pending.calls@.len() - i,
        {
            let call = &pending.calls[i];
            let result = &answers[i];
            let step = ExecutionStep { call: call.clone(), result: result.clone() };
            assert(step@ == steps_of[i as int]);
            executed.push(step);
            let payload = HookPayload::PostToolUse {
                tool: call.name.clone(),
                output: copy_text_or_empty(&result.content),
                is_error: false,
            };
            assert(payload@ == post_payload(steps_of[i as int]));
            self.config.hooks.fire(HookEvent::PostToolUse, &payload);
            assert(called(plan.handlers, payload@.event(), payload));
            let ghost so_far = self.state().messages;
            self.memory.messages.push(result.clone());
            proof {
                assert(self.state().messages =~= so_far.push(result@));
                assert(results(steps_of.take(i + 1)) =~= results(steps_of.take(i as int)).push(
                    result@,
                ));
                assert(self.state().messages =~= before.messages + results(
                    steps_of.take(i + 1),
                ));
            }
            i += 1;
        }
        assert(steps_of.take(i as int) =~= steps_of);
        assert(steps_view(executed@) =~= steps_of);
        let trace_made = IterationTrace {
            iteration: pending.iteration,
            request: pending.request,
            response: pending.response,
            finish_reason: pending.reason,
            executed,
            stats: Some(stats),
        };
        assert(trace_made@ == trace);
        self.memory.traces.push(trace_made);
        assert(self.state().traces =~= before.traces.push(trace));
    }
}

// ---------------------------------------------------------------------------
// A run
// ---------------------------------------------------------------------------

/// A round in which calls were run: the response that asked for them, with its raw body, and
/// the answers.
pub struct Round {
    pub exchange: Exchange,
    pub answers: Seq<ChatMessageView>,
    pub stats: ExecutionStats,
}

/// The state after a round in which calls were run.
pub open spec fn went_on<F, H>(plan: Plan<F, H>, state: State, iteration: nat, round: Round) -> State {
    match verdict(round.exchange.response@) {
        Verdict::Go { message, reason, calls } => recorded(
            plan,
            asked(plan, state, message, calls),
            IterationTraceView {
                iteration,
                request: request_json(request_of(plan, state.messages)),
                response: round.exchange.raw@,
                finish_reason: reason,
                executed: paired(calls, round.answers),
                stats: Some(round.stats),
            },
        ),
        _ => state,
    }
}

/// The state after rounds in which calls were run, from the state `start` on.
pub open spec fn after_rounds<F, H>(plan: Plan<F, H>, start: State, rounds: Seq<Round>) -> State
    decreases rounds.len(),
{
    if rounds.len() == 0 {
        start
    } else {
        went_on(
            plan,
            after_rounds(plan, start, rounds.drop_last()),
            rounds.len(),
            rounds.last(),
        )
    }
}

/// Whether a round may come about in this state: the response may have come back for the
/// request, it asks for calls, the answers may be those to the calls, and the hooks have
/// observed both.
pub open spec fn may_go<
    F: Fn(&Json) -> Execution,
    H: Fn(&HookPayload),
    T: Fn(&Outgoing) -> Result<Reply, String>,
    D: Fn(&str) -> Result<ChatResponse, String>,
    P: Fn(&ToolRegistry<F>, &[ToolCall]) -> Vec<Option<ChatMessage>>,
>(plan: Plan<F, H>, transport: T, decode: D, pool: P, state: State, round: Round) -> bool {
    &&& may_exchange(
        plan.client,
        transport,
        decode,
        request_of(plan, state.messages),
        Ok(round.exchange),
    )
    &&& verdict(round.exchange.response@) matches Verdict::Go { message, reason, calls } && {
        let steps = paired(calls, round.answers);
        &&& batch(pool, plan.registry@, calls, plan.parallel, round.answers)
        &&& round.stats.n_calls == calls.len()
        &&& round.stats.parallel == plan.parallel
        &&& forall|i: int|
            0 <= i < calls.len() ==> observed(plan.handlers, pre_payload(#[trigger] calls[i]))
        &&& forall|i: int|
            0 <= i < steps.len() ==> observed(plan.handlers, post_payload(#[trigger] steps[i]))
    }
}

/// Whether these rounds may come about one after the other, from the state `start` on.
pub open spec fn may_go_on<
    F: Fn(&Json) -> Execution,
    H: Fn(&HookPayload),
    T: Fn(&Outgoing) -> Result<Reply, String>,
    D: Fn(&str) -> Result<ChatResponse, String>,
    P: Fn(&ToolRegistry<F>, &[ToolCall]) -> Vec<Option<ChatMessage>>,
>(plan: Plan<F, H>, transport: T, decode: D, pool: P, start: State, rounds: Seq<Round>) -> bool {
    forall|i: int|
        0 <= i < rounds.len() ==> may_go(
            plan,
            transport,
            decode,
            pool,
            after_rounds(plan, start, rounds.take(i)),
            #[trigger] rounds[i],
        )
}

/// Whether a run may end like this, where `came` is what came back for its last request:
/// with an outcome, or in an error where the exchange failed or the response is of no use.
pub open spec fn may_end<F, H: Fn(&HookPayload)>(
    plan: Plan<F, H>,
    state: State,
    n_rounds: nat,
    came: Result<Exchange, String>,
    after: State,
    r: Result<AgentOutcome, String>,
) -> bool {
    match came {
        Err(e) => r == Err::<AgentOutcome, String>(e) && after == state,
        Ok(exchange) => match verdict(exchange.response@) {
            Verdict::Fail(e) => {
                &&& r matches Err(text)
                &&& text@ == e
                &&& after == state
            },
            Verdict::Stop { message, reason } => {
                &&& r matches Ok(outcome)
                &&& after == stopped(
                    plan,
                    state,
                    message,
                    last_trace(
                        n_rounds + 1,
                        request_json(request_of(plan, state.messages)),
                        exchange.raw@,
                        reason,
                    ),
                )
                &&& outcome@ == (AgentOutcomeView {
                    final_text: text_or_empty(message.content),
                    messages: after.messages,
                    traces: after.traces,
                })
                &&& observed(plan.handlers, HookPayloadView::Stop { reason })
            },
            Verdict::Go { .. } => false,
        },
    }
}

/// The error for a run that has sent as many requests as it may.
pub open spec fn exceeded(max: nat) -> Seq<char> {
    "agent exceeded max_iterations ("@ + decimal(max) + ") before finishing"@
}

/// Whether a run may end like this after these rounds. One that has sent as many requests
/// as it may ends in an error; else one more request is sent.
pub open spec fn ends_after<
    F,
    H: Fn(&HookPayload),
    T: Fn(&Outgoing) -> Result<Reply, String>,
    D: Fn(&str) -> Result<ChatResponse, String>,
>(
    plan: Plan<F, H>,
    transport: T,
    decode: D,
    start: State,
    rounds: Seq<Round>,
    after: State,
    r: Result<AgentOutcome, String>,
) -> bool {
    let state = after_rounds(plan, start, rounds);
    if rounds.len() < plan.max_iterations {
        exists|came: Result<Exchange, String>| #[trigger]
            may_exchange(
                plan.client,
                transport,
                decode,
                request_of(plan, state.messages),
                came,
            ) && may_end(plan, state, rounds.len(), came, after, r)
    } else {
        &&& rounds.len() == plan.max_iterations
        &&& r matches Err(text)
        &&& text@ == exceeded(plan.max_iterations)
        &&& after == state
    }
}

/// Whether a run for `prompt` may lead from one state to another and give `r`.
pub open spec fn may_run<
    F: Fn(&Json) -> Execution,
    H: Fn(&HookPayload),
    T: Fn(&Outgoing) -> Result<Reply, String>,
    D: Fn(&str) -> Result<ChatResponse, String>,
    P: Fn(&ToolRegistry<F>, &[ToolCall]) -> Vec<Option<ChatMessage>>,
>(
    plan: Plan<F, H>,
    transport: T,
    decode: D,
    pool: P,
    prompt: Seq<char>,
    before: State,
    after: State,
    r: Result<AgentOutcome, String>,
) -> bool {
    let start = begun(plan, before, prompt);
    &&& observed(plan.handlers, HookPayloadView::UserPromptSubmit { prompt })
    &&& exists|rounds: Seq<Round>| #[trigger]
        may_go_on(plan, transport, decode, pool, start, rounds) && ends_after(
            plan,
            transport,
            decode,
            start,
            rounds,
            after,
            r,
        )
}

/// Whether hooks may be told this in a run for `prompt`: the prompt, and, where requests may
/// be sent at all, calls, their answers and the end of the turn.
pub open spec fn may_tell<F, H>(plan: Plan<F, H>, prompt: Seq<char>, payload: HookPayloadView) -> bool {
    match payload {
        HookPayloadView::UserPromptSubmit { prompt: told } => told == prompt,
        HookPayloadView::PreToolUse { .. } => plan.max_iterations > 0,
        HookPayloadView::PostToolUse { .. } => plan.max_iterations > 0,
        HookPayloadView::Stop { .. } => plan.max_iterations > 0,
        _ => false,
    }
}

/// Whether what a run for `prompt` hands over is accepted. Hooks are asked to accept what
/// they may be told. Only where requests may be sent at all is anything asked of the others:
/// of `transport` and `decode` to take the requests with a history that goes on from the
/// prompt, and of the tools, or of `pool` where calls are run side by side, to run calls.
pub open spec fn can_run<
    F: Fn(&Json) -> Execution,
    H: Fn(&HookPayload),
    T: Fn(&Outgoing) -> Result<Reply, String>,
    D: Fn(&str) -> Result<ChatResponse, String>,
    P: Fn(&ToolRegistry<F>, &[ToolCall]) -> Vec<Option<ChatMessage>>,
>(plan: Plan<F, H>, transport: T, decode: D, pool: P, prompt: Seq<char>, before: State) -> bool {
    &&& forall|told: HookPayload|
        may_tell(plan, prompt, told@) ==> #[trigger] accept(
            plan.handlers,
            told@.event(),
            told,
        )
    &&& plan.max_iterations > 0 ==> {
        &&& forall|messages: Seq<ChatMessageView>|
            begun(plan, before, prompt).messages.is_prefix_of(messages) ==> #[trigger]
            can_exchange(plan.client, transport, decode, request_of(plan, messages))
        &&& !plan.parallel ==> all_accept(plan.registry@)
        &&& plan.parallel ==> forall|registry: ToolRegistry<F>, calls: &[ToolCall]|
            registry@ == plan.registry@ ==> #[trigger] call_requires(pool, (&registry, calls))
    }
}

/// The error for a run that has sent as many requests as it may.
fn exceeded_error(max: usize) -> (text: String)
    ensures
        text@ == exceeded(max as nat),
{
    let mut text = "agent exceeded max_iterations (".to_owned();
    text.append(render_unsigned(max as u128).as_str());
    text.append(") before finishing");
    text
}

impl<F: Fn(&Json) -> Execution, H: Fn(&HookPayload)> Agent<F, H> {
    /// Runs the loop for one prompt of the user.
    ///
    /// Requests are sent over `transport`, the bodies of replies are read with `decode`,
    /// and `pool` runs calls side by side where the configuration says so.
    pub fn run<
        T: Fn(&Outgoing) -> Result<Reply, String>,
        D: Fn(&str) -> Result<ChatResponse, String>,
        P: Fn(&ToolRegistry<F>, &[ToolCall]) -> Vec<Option<ChatMessage>>,
    >(&mut self, prompt: &str, transport: &T, decode: &D, pool: &P) -> (r: Result<
        AgentOutcome,
        String,
    >)
        requires
            can_run(old(self).plan(), *transport, *decode, *pool, prompt@, old(self).state()),
        ensures
            final(self).plan() == old(self).plan(),
            final(self).state().log == final(self).config.hooks.log(),
            may_run(
                old(self).plan(),
                *transport,
                *decode,
                *pool,
                prompt@,
                old(self).state(),
                final(self).state(),
                r,
            ),
    {
        let ghost plan = self.plan();
        self.begin(prompt);
        let ghost start = self.state();
        let ghost mut rounds: Seq<Round> = Seq::empty();
        let mut iteration: usize = 0;
        while iteration < self.config.max_iterations
            invariant
                plan == old(self).plan(),
                self.plan() == plan,
                self.plan().max_iterations == self.config.max_iterations,
                can_run(plan, *transport, *decode, *pool, prompt@, old(self).state()),
                start == begun(plan, old(self).state(), prompt@),
                observed(plan.handlers, HookPayloadView::UserPromptSubmit { prompt: prompt@ }),
                iteration == rounds.len(),
                iteration <= plan.max_iterations,
                self.state() == after_rounds(plan, start, rounds),
                may_go_on(plan, *transport, *decode, *pool, start, rounds),
            decreases plan.max_iterations - iteration,
        {
            iteration += 1;
            let ghost state = self.state();
            proof {
                rounds_only_add(plan, start, rounds);
            }
            let request = self.next_request();
            let request_value = request.to_json_pretty();
            let exchange = match self.config.client.exchange(&request, transport, decode) {
                Ok(exchange) => exchange,
                Err(e) => {
                    let failed: Result<AgentOutcome, String> = Err(e);
                    proof {
                        let came: Result<Exchange, String> = Err(e);
                        assert(may_exchange(
                            plan.client,
                            *transport,
                            *decode,
                            request_of(plan, state.messages),
                            came,
                        ));
                        assert(may_end(plan, state, rounds.len(), came, self.state(), failed));
                    }
                    return failed;
                },
            };
            let ghost came: Result<Exchange, String> = Ok(exchange);
            assert(may_exchange(
                plan.client,
                *transport,
                *decode,
                request_of(plan, state.messages),
                came,
            ));
            let raw = exchange.raw.clone();
            match self.receive(iteration, request_value, raw, &exchange.response) {
                Err(e) => {
                    let failed: Result<AgentOutcome, String> = Err(e);
                    assert(may_end(plan, state, rounds.len(), came, self.state(), failed));
                    return failed;
                },
                Ok(Next::Finished(outcome)) => {
                    let done: Result<AgentOutcome, String> = Ok(outcome);
                    assert(may_end(plan, state, rounds.len(), came, self.state(), done));
                    return done;
                },
                Ok(Next::UseTools(pending)) => {
                    let (answers, stats) = execute_many(
                        &self.config.registry,
                        pending.calls.as_slice(),
                        self.config.parallel_tools,
                        pool,
                    );
                    let ghost round = Round { exchange, answers: messages_view(answers@), stats };
                    self.settle(pending, answers, stats);
                    proof {
                        assert(may_go(plan, *transport, *decode, *pool, state, round));
                        let more = rounds.push(round);
                        assert(more.drop_last() =~= rounds);
                        assert(self.state() == after_rounds(plan, start, more));
                        assert forall|i: int| 0 <= i < more.len() implies may_go(
                            plan,
                            *transport,
                            *decode,
                            *pool,
                            after_rounds(plan, start, more.take(i)),
                            #[trigger] more[i],
                        ) by {
                            if i < rounds.len() {
                                assert(more.take(i) =~= rounds.take(i));
                                assert(more[i] == rounds[i]);
                            } else {
                                assert(more.take(i) =~= rounds);
                            }
                        }
                        rounds = more;
                    }
                },
            }
        }
        Err(exceeded_error(self.config.max_iterations))
    }
}

// ---------------------------------------------------------------------------
// Sub-agents
// ---------------------------------------------------------------------------

/// The conversation of a sub-agent: the system prompt, and its own prompt.
pub open spec fn subagent_messages<F, H>(plan: Plan<F, H>, prompt: Seq<char>) -> Seq<ChatMessageView> {
    seq![plain_message(Role::System, plan.system_prompt), plain_message(Role::User, prompt)]
}

/// What a sub-agent answers, where `came` is what came back for its request.
pub open spec fn subagent_text(came: Result<ChatResponse, String>) -> Seq<char> {
    match came {
        Ok(response) => if response@.choices.len() == 0 {
            Seq::empty()
        } else {
            text_or_empty(response@.choices[0].message.content)
        },
        Err(e) => "[sub-agent failed: "@ + e@ + "]"@,
    }
}

/// What a sub-agent answers, where `came` is what came back for its request: the text of
/// the first choice, nothing where there is none, or a remark that it failed.
pub fn answer_subagent(came: Result<ChatResponse, String>) -> (text: String)
    ensures
        text@ == subagent_text(came),
{
    match came {
        Ok(response) => {
            if response.choices.len() == 0 {
                String::new()
            } else {
                assert(response@.choices[0] == response.choices@[0]@);
                copy_text_or_empty(&response.choices[0].message.content)
            }
        },
        Err(e) => {
            let mut text = "[sub-agent failed: ".to_owned();
            text.append(e.as_str());
            text.append("]");
            text
        },
    }
}

/// Runs a sub-agent: one exchange of its own, between the two events that frame it. A
/// failed exchange is told in the answer, so there is always one.
pub fn run_subagent<
    F,
    H: Fn(&HookPayload),
    T: Fn(&Outgoing) -> Result<Reply, String>,
    D: Fn(&str) -> Result<ChatResponse, String>,
>(config: &mut AgentConfig<F, H>, name: &str, prompt: &str, transport: &T, decode: &D) -> (r: Result<
    String,
    String,
>)
    requires
        can_tell(
            old(config).plan().handlers,
            (HookPayloadView::SubAgentStart { name: name@, prompt: prompt@ }),
        ),
        can_exchange(
            old(config).client,
            *transport,
            *decode,
            request_of(old(config).plan(), subagent_messages(old(config).plan(), prompt@)),
        ),
        forall|came: Result<ChatResponse, String>| #[trigger]
            may_complete(
                old(config).client,
                *transport,
                *decode,
                request_of(old(config).plan(), subagent_messages(old(config).plan(), prompt@)),
                came,
            ) ==> can_tell(
                old(config).plan().handlers,
                (HookPayloadView::SubAgentStop { name: name@, result: subagent_text(came) }),
            ),
    ensures
        final(config).plan() == old(config).plan(),
        final(config).hooks.log() == log_after(
            old(config).plan().handlers,
            log_after(
                old(config).plan().handlers,
                old(config).hooks.log(),
                HookEvent::SubAgentStart,
            ),
            HookEvent::SubAgentStop,
        ),
        r matches Ok(text) && {
            &&& exists|came: Result<ChatResponse, String>| #[trigger]
                may_complete(
                    old(config).client,
                    *transport,
                    *decode,
                    request_of(
                        old(config).plan(),
                        subagent_messages(old(config).plan(), prompt@),
                    ),
                    came,
                ) && text@ == subagent_text(came)
            &&& observed(
                old(config).plan().handlers,
                HookPayloadView::SubAgentStart { name: name@, prompt: prompt@ },
            )
            &&& observed(
                old(config).plan().handlers,
                HookPayloadView::SubAgentStop { name: name@, result: text@ },
            )
        },
{
    let ghost plan = config.plan();
    let start = HookPayload::SubAgentStart { name: name.to_owned(), prompt: prompt.to_owned() };
    assert(start@ == (HookPayloadView::SubAgentStart { name: name@, prompt: prompt@ }));
    config.hooks.fire(HookEvent::SubAgentStart, &start);
    assert(called(plan.handlers, start@.event(), start));
    let messages = vec![
        ChatMessage::system(config.system_prompt.as_str()),
        ChatMessage::user(prompt),
    ];
    assert(messages_view(messages@) =~= subagent_messages(plan, prompt@));
    let request = config.request(messages);
    let came = config.client.complete(&request, transport, decode);
    let ghost back = came;
    assert(may_complete(plan.client, *transport, *decode, request@, back));
    let text = answer_subagent(came);
    let stop = HookPayload::SubAgentStop { name: name.to_owned(), result: text.clone() };
    assert(stop@ == (HookPayloadView::SubAgentStop { name: name@, result: text@ }));
    config.hooks.fire(HookEvent::SubAgentStop, &stop);
    assert(called(plan.handlers, stop@.event(), stop));
    Ok(text)
}

// ---------------------------------------------------------------------------
// The tools that a request exposes
// ---------------------------------------------------------------------------

/// The description of a tool as JSON.
pub open spec fn described(tool: ToolView) -> JsonView {
    JsonView::Object(
        seq![
            ("description"@, JsonView::Text(tool.description)),
            ("name"@, JsonView::Text(tool.name)),
            ("parameters"@, tool.parameters),
        ],
    )
}

/// The descriptions of all tools as JSON, in the order of registration.
pub fn tools_section<F>(registry: &ToolRegistry<F>) -> (section: Vec<Json>)
    ensures
        item_views(section@) == Seq::new(
            registry@.len(),
            |i: int| described(registry@[i]@),
        ),
{
    let tools = registry.all();
    let mut section: Vec<Json> = Vec::new();
    let mut i: usize = 0;
    while i < tools.len()
        invariant
            i <= tools@.len(),
            tools@.len() == registry@.len(),
            forall|k: int| 0 <= k < registry@.len() ==> *(#[trigger] tools@[k]) == registry@[k],
            section@.len() == i,
            forall|k: int| 0 <= k < i ==> (#[trigger] section@[k])@ == described(registry@[k]@),
        decreases tools@.len() - i,
    {
        let tool = tools[i];
        let mut entries: Vec<(String, Json)> = Vec::new();
        push_entry(&mut entries, "description", Json::text(tool.description.as_str()));
        push_entry(&mut entries, "name", Json::text(tool.name.as_str()));
        push_entry(&mut entries, "parameters", tool.parameters.clone());
        assert(entry_views(entries@) =~= described(tool@)->Object_0);
        section.push(Json::object(entries));
        i += 1;
    }
    assert(item_views(section@) =~= Seq::new(registry@.len(), |i: int| described(registry@[i]@)));
    section
}

} // verus!
