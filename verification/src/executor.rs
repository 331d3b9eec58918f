//! Executor: from tool calls to tool results.
//!
//! The model only declares calls. The executor runs them against the registry, one after
//! the other or side by side, and answers each with a message, so that a bad call never
//! ends the loop: the model reads what went wrong and can change its plan.
use vstd::prelude::*;
use std::time::Instant;
use crate::chat::{
    calls_view, messages_view, tool_message, ChatMessage, ChatMessageView, Role, ToolCall,
    ToolCallView,
};
use crate::json::{parse_json, parsed, Json, JsonView};
use crate::tools::{
    accepts_all, accepts_args, advertised_tools_are_found, are_builtin, builtin_tools_are_distinct,
    builtins, found_tool_has_the_name, lookup, may_give, panic_error, run_view, settled, Builtin,
    Execution, Tool, ToolRegistry, ToolResult, ToolResultView,
};

pub mod laws;

verus! {

// ---------------------------------------------------------------------------
// One call
// ---------------------------------------------------------------------------

/// Whether the executors of all these tools accept all arguments.
pub open spec fn all_accept<F: Fn(&Json) -> Execution>(tools: Seq<Tool<F>>) -> bool {
    forall|i: int| 0 <= i < tools.len() ==> accepts_all((#[trigger] tools[i]).executor)
}

/// Whether the tools of this name accept the arguments of a call, where these are JSON.
/// Nothing is asked of any tool where they are not, so that none can be run then.
pub open spec fn can_answer<F: Fn(&Json) -> Execution>(
    tools: Seq<Tool<F>>,
    name: Seq<char>,
    args: Result<JsonView, Seq<char>>,
) -> bool {
    match args {
        Ok(args) => forall|i: int|
            0 <= i < tools.len() && (#[trigger] tools[i]).name@ == name ==> accepts_args(
                tools[i].executor,
                args,
            ),
        Err(_) => true,
    }
}

/// Whether the tools that these calls name accept their arguments.
pub open spec fn can_execute<F: Fn(&Json) -> Execution>(
    tools: Seq<Tool<F>>,
    calls: Seq<ToolCallView>,
) -> bool {
    forall|i: int|
        0 <= i < calls.len() ==> can_answer(
            tools,
            (#[trigger] calls[i]).name,
            parsed(calls[i].arguments),
        )
}

/// The text that answers a call of a tool that was run.
pub open spec fn run_text(r: Result<ToolResultView, Seq<char>>) -> Seq<char> {
    match r {
        Ok(result) => result.output,
        Err(e) => "[tool error] "@ + e,
    }
}

/// The text that answers a call whose arguments are no JSON.
pub open spec fn invalid_text(e: Seq<char>, arguments: Seq<char>) -> Seq<char> {
    "[invalid JSON arguments] "@ + e + ": "@ + arguments
}

/// The text that answers a call of a tool that is not there.
pub open spec fn unknown_text(name: Seq<char>) -> Seq<char> {
    "[unknown tool] `"@ + name + "` is not registered"@
}

/// Whether `m` may be the answer to `call`, where `args` is what its arguments are as
/// JSON.
pub open spec fn answered<F: Fn(&Json) -> Execution>(
    tools: Seq<Tool<F>>,
    call: ToolCallView,
    args: Result<JsonView, Seq<char>>,
    m: ChatMessageView,
) -> bool {
    match args {
        Err(e) => m == tool_message(call.id, invalid_text(e, call.arguments)),
        Ok(args) => match lookup(tools, call.name) {
            None => m == tool_message(call.id, unknown_text(call.name)),
            Some(tool) => exists|came: Execution| #[trigger]
                may_give(tool.executor, args, came) && m == tool_message(
                    call.id,
                    run_text(settled(call.name, came)),
                ),
        },
    }
}

/// Whether `m` may be the answer to `call`.
pub open spec fn executed<F: Fn(&Json) -> Execution>(
    tools: Seq<Tool<F>>,
    call: ToolCallView,
    m: ChatMessageView,
) -> bool {
    answered(tools, call, parsed(call.arguments), m)
}

/// The answer to a call is a tool's message with a text and with the id of the call.
pub proof fn answers_echo_the_id<F: Fn(&Json) -> Execution>(
    tools: Seq<Tool<F>>,
    call: ToolCallView,
    m: ChatMessageView,
)
    requires
        executed(tools, call, m),
    ensures
        m.role == Role::Tool,
        m.tool_call_id == Some(call.id),
        m.content is Some,
        m.tool_calls is None,
{
}

/// Whether `served` holds of all that an executor gives for a built-in tool.
pub open spec fn serves<F: Fn(&Json) -> Execution>(
    executor: F,
    which: Builtin,
    served: spec_fn(Builtin, JsonView, Result<ToolResult, String>) -> bool,
) -> bool {
    forall|args: Json, came: Execution| #[trigger]
        call_ensures(executor, (&args,), came) ==> match came {
            Some(r) => served(which, args@, r),
            None => true,
        }
}

/// A call of a built-in tool by its name, with arguments that are JSON, is answered by what
/// that very tool gives for these arguments, or by the remark that it panicked.
pub proof fn builtin_calls_are_served<F: Fn(&Json) -> Execution, M: Fn(Builtin) -> F>(
    make: M,
    served: spec_fn(Builtin, JsonView, Result<ToolResult, String>) -> bool,
    tools: Seq<Tool<F>>,
    i: int,
    call: ToolCallView,
    args: JsonView,
    m: ChatMessageView,
)
    requires
        are_builtin(make, tools),
        forall|which: Builtin, executor: F| #[trigger]
            call_ensures(make, (which,), executor) ==> serves(executor, which, served),
        0 <= i < builtins().len(),
        call.name == builtins()[i].description().name,
        parsed(call.arguments) == Ok::<JsonView, Seq<char>>(args),
        executed(tools, call, m),
    ensures
        m == tool_message(call.id, run_text(Err(panic_error(call.name)))) || exists|
            r: Result<ToolResult, String>,
        | #[trigger]
            served(builtins()[i], args, r) && m == tool_message(call.id, run_text(run_view(r))),
{
    builtin_tools_are_distinct(make, tools);
    advertised_tools_are_found(tools, i);
    assert(tools[i]@ == builtins()[i].description());
    let tool = tools[i];
    let came = choose|came: Execution| #[trigger]
        may_give(tool.executor, args, came) && m == tool_message(
            call.id,
            run_text(settled(call.name, came)),
        );
    let given = choose|given: Json| #[trigger]
        call_ensures(tool.executor, (&given,), came) && given@ == args;
    assert(serves(tool.executor, builtins()[i], served));
    match came {
        Some(r) => {
            assert(served(builtins()[i], args, r));
        },
        None => {},
    }
}

/// Answers a call of a tool that was run: a failure is told to the model.
pub fn report(id: &str, r: Result<ToolResult, String>) -> (m: ChatMessage)
    ensures
        m@ == tool_message(id@, run_text(run_view(r))),
{
    match r {
        Ok(result) => ChatMessage::tool_result(id, result.output.as_str()),
        Err(e) => ChatMessage::tool_result(
            id,
            "[tool error] ".to_owned().concat(e.as_str()).as_str(),
        ),
    }
}

/// Answers a call, where `args` is what its arguments are as JSON.
pub fn answer<F: Fn(&Json) -> Execution>(
    registry: &ToolRegistry<F>,
    call: &ToolCall,
    args: Result<Json, String>,
) -> (m: ChatMessage)
    requires
        can_answer(
            registry@,
            call@.name,
            match args {
                Ok(args) => Ok(args@),
                Err(e) => Err(e@),
            },
        ),
    ensures
        answered(
            registry@,
            call@,
            match args {
                Ok(args) => Ok(args@),
                Err(e) => Err(e@),
            },
            m@,
        ),
{
    match args {
        Err(e) => {
            let mut text = "[invalid JSON arguments] ".to_owned();
            text.append(e.as_str());
            text.append(": ");
            text.append(call.arguments.as_str());
            ChatMessage::tool_result(call.id.as_str(), text.as_str())
        },
        Ok(args) => match registry.get(call.name.as_str()) {
            Some(tool) => {
                proof {
                    found_tool_has_the_name(registry@, call.name@);
                }
                assert(accepts_args(tool.executor, args@));
                let r = tool.run(&args);
                proof {
                    let came = choose|came: Execution| #[trigger]
                        call_ensures(tool.executor, (&args,), came) && run_view(r) == settled(
                            tool.name@,
                            came,
                        );
                    assert(may_give(tool.executor, args@, came));
                }
                report(call.id.as_str(), r)
            },
            None => {
                let mut text = "[unknown tool] `".to_owned();
                text.append(call.name.as_str());
                text.append("` is not registered");
                ChatMessage::tool_result(call.id.as_str(), text.as_str())
            },
        },
    }
}

/// Runs one call and answers it.
pub fn execute_one<F: Fn(&Json) -> Execution>(registry: &ToolRegistry<F>, call: &ToolCall) -> (m:
    ChatMessage)
    requires
        can_answer(registry@, call@.name, parsed(call@.arguments)),
    ensures
        executed(registry@, call@, m@),
{
    answer(registry, call, parse_json(call.arguments.as_str()))
}

/// Runs one call and answers it; there is always an answer.
pub fn execute<F: Fn(&Json) -> Execution>(registry: &ToolRegistry<F>, call: &ToolCall) -> (r: Result<
    ChatMessage,
    String,
>)
    requires
        forall|i: int|
            0 <= i < registry@.len() && (#[trigger] registry@[i]).name@ == call@.name
                ==> accepts_all(registry@[i].executor),
    ensures
        r matches Ok(m) && executed(registry@, call@, m@),
{
    Ok(execute_one(registry, call))
}

// ---------------------------------------------------------------------------
// Many calls
// ---------------------------------------------------------------------------

/// How a batch of calls was run.
#[derive(Debug, Clone, Copy, PartialEq, Eq, Structural)]
pub struct ExecutionStats {
    pub n_calls: usize,
    pub parallel: bool,
    /// How long the batch took, in nanoseconds.
    pub elapsed_ns: u128,
}

/// `std::time::Instant`, a point in time.
#[verifier::external_type_specification]
#[verifier::external_body]
pub struct ExInstant(std::time::Instant);

/// Calls `std::time::Instant::now`. Claims nothing of the point in time.
#[verifier::external_body]
fn now() -> (started: Instant) {
    Instant::now()
}

/// Calls `std::time::Instant::elapsed`, and gives the duration in nanoseconds. Claims
/// nothing of how long it is.
#[verifier::external_body]
fn nanos_since(started: &Instant) -> (ns: u128) {
    started.elapsed().as_nanos()
}

/// Whether `answers` may be the answers to `calls`, in the same order.
pub open spec fn all_executed<F: Fn(&Json) -> Execution>(
    tools: Seq<Tool<F>>,
    calls: Seq<ToolCallView>,
    answers: Seq<ChatMessageView>,
) -> bool {
    &&& answers.len() == calls.len()
    &&& forall|i: int| 0 <= i < calls.len() ==> executed(tools, calls[i], #[trigger] answers[i])
}

/// What stands for the answer of a worker that did not come back.
pub open spec fn lost_answer() -> ChatMessageView {
    tool_message("?"@, "[executor] worker thread panicked"@)
}

/// What workers came back with, as answers.
pub open spec fn collected(came: Seq<Option<ChatMessage>>) -> Seq<ChatMessageView> {
    Seq::new(
        came.len(),
        |i: int|
            match came[i] {
                Some(m) => m@,
                None => lost_answer(),
            },
    )
}

/// What workers came back with, as answers, in the same order.
pub fn collect(came: Vec<Option<ChatMessage>>) -> (answers: Vec<ChatMessage>)
    ensures
        messages_view(answers@) == collected(came@),
{
    let mut answers: Vec<ChatMessage> = Vec::new();
    let mut i: usize = 0;
    while i < came.len()
        invariant
            i <= came@.len(),
            answers@.len() == i,
            forall|k: int| 0 <= k < i ==> (#[trigger] answers@[k])@ == collected(came@)[k],
        decreases came@.len() - i,
    {
        match &came[i] {
            Some(m) => answers.push(m.clone()),
            None => answers.push(
                ChatMessage::tool_result("?", "[executor] worker thread panicked"),
            ),
        }
        i += 1;
    }
    assert(messages_view(answers@) =~= collected(came@));
    answers
}

/// Whether each worker that came back brought an answer to its own call.
pub open spec fn faithful<F: Fn(&Json) -> Execution>(
    tools: Seq<Tool<F>>,
    calls: Seq<ToolCallView>,
    came: Seq<Option<ChatMessage>>,
) -> bool {
    &&& came.len() == calls.len()
    &&& forall|i: int|
        0 <= i < calls.len() ==> match #[trigger] came[i] {
            Some(m) => executed(tools, calls[i], m@),
            None => true,
        }
}

/// Where every worker came back with an answer to its own call, running side by side
/// gives what running one after the other may give: the order is that of the calls.
pub proof fn side_by_side_keeps_the_order<F: Fn(&Json) -> Execution>(
    tools: Seq<Tool<F>>,
    calls: Seq<ToolCallView>,
    came: Seq<Option<ChatMessage>>,
)
    requires
        faithful(tools, calls, came),
        forall|i: int| 0 <= i < came.len() ==> (#[trigger] came[i]) is Some,
    ensures
        all_executed(tools, calls, collected(came)),
{
    assert forall|i: int| 0 <= i < calls.len() implies executed(
        tools,
        calls[i],
        #[trigger] collected(came)[i],
    ) by {
        assert(came[i] is Some);
    }
}

/// Runs calls one after the other.
fn execute_in_turn<F: Fn(&Json) -> Execution>(registry: &ToolRegistry<F>, calls: &[ToolCall]) -> (answers:
    Vec<ChatMessage>)
    requires
        can_execute(registry@, calls_view(calls@)),
    ensures
        all_executed(registry@, calls_view(calls@), messages_view(answers@)),
{
    let mut answers: Vec<ChatMessage> = Vec::new();
    let mut i: usize = 0;
    while i < calls.len()
        invariant
            i <= calls@.len(),
            can_execute(registry@, calls_view(calls@)),
            answers@.len() == i,
            forall|k: int|
                0 <= k < i ==> executed(registry@, calls@[k]@, (#[trigger] answers@[k])@),
        decreases calls@.len() - i,
    {
        assert(calls_view(calls@)[i as int] == calls@[i as int]@);
        answers.push(execute_one(registry, &calls[i]));
        i += 1;
    }
    answers
}

/// Whether `answers` may be what running a batch of calls gives: one after the other, or
/// side by side by `pool`.
pub open spec fn batch<
    F: Fn(&Json) -> Execution,
    P: Fn(&ToolRegistry<F>, &[ToolCall]) -> Vec<Option<ChatMessage>>,
>(
    pool: P,
    tools: Seq<Tool<F>>,
    calls: Seq<ToolCallView>,
    parallel: bool,
    answers: Seq<ChatMessageView>,
) -> bool {
    if parallel {
        exists|registry: ToolRegistry<F>, given: &[ToolCall], came: Vec<Option<ChatMessage>>|
            #![trigger call_ensures(pool, (&registry, given), came)]
            registry@ == tools && calls_view(given@) == calls && call_ensures(
                pool,
                (&registry, given),
                came,
            ) && answers == collected(came@)
    } else {
        all_executed(tools, calls, answers)
    }
}

/// Whether every worker of `pool` always brings the answer to its own call of this batch.
pub open spec fn trusty<
    F: Fn(&Json) -> Execution,
    P: Fn(&ToolRegistry<F>, &[ToolCall]) -> Vec<Option<ChatMessage>>,
>(pool: P, tools: Seq<Tool<F>>, calls: Seq<ToolCallView>) -> bool {
    forall|registry: ToolRegistry<F>, given: &[ToolCall], came: Vec<Option<ChatMessage>>|
        #![trigger call_ensures(pool, (&registry, given), came)]
        registry@ == tools && calls_view(given@) == calls && call_ensures(
            pool,
            (&registry, given),
            came,
        ) ==> {
            &&& faithful(tools, calls, came@)
            &&& forall|i: int| 0 <= i < came@.len() ==> (#[trigger] came@[i]) is Some
        }
}

/// A batch that is run by a pool whose workers bring the answers to their own calls is
/// answered call by call, in order, whether it is run side by side or not.
pub proof fn batches_are_executed<
    F: Fn(&Json) -> Execution,
    P: Fn(&ToolRegistry<F>, &[ToolCall]) -> Vec<Option<ChatMessage>>,
>(
    pool: P,
    tools: Seq<Tool<F>>,
    calls: Seq<ToolCallView>,
    parallel: bool,
    answers: Seq<ChatMessageView>,
)
    requires
        batch(pool, tools, calls, parallel, answers),
        parallel ==> trusty(pool, tools, calls),
    ensures
        all_executed(tools, calls, answers),
{
    if parallel {
        let (registry, given, came) = choose|
            registry: ToolRegistry<F>,
            given: &[ToolCall],
            came: Vec<Option<ChatMessage>>,
        |
            #![trigger call_ensures(pool, (&registry, given), came)]
            registry@ == tools && calls_view(given@) == calls && call_ensures(
                pool,
                (&registry, given),
                came,
            ) && answers == collected(came@);
        side_by_side_keeps_the_order(tools, calls, came@);
    }
}

/// Whether executors are functions: for the same arguments they always give the same.
pub open spec fn functional<F: Fn(&Json) -> Execution>(tools: Seq<Tool<F>>) -> bool {
    forall|i: int, args: JsonView, a: Execution, b: Execution|
        #![trigger may_give(tools[i].executor, args, a), may_give(tools[i].executor, args, b)]
        0 <= i < tools.len() && may_give(tools[i].executor, args, a) && may_give(
            tools[i].executor,
            args,
            b,
        ) ==> settled(tools[i].name@, a) == settled(tools[i].name@, b)
}

/// Where executors are functions, a call has one answer.
pub proof fn calls_have_one_answer<F: Fn(&Json) -> Execution>(
    tools: Seq<Tool<F>>,
    call: ToolCallView,
    m: ChatMessageView,
    n: ChatMessageView,
)
    requires
        functional(tools),
        executed(tools, call, m),
        executed(tools, call, n),
    ensures
        m == n,
{
    if let Ok(args) = parsed(call.arguments) {
        if let Some(tool) = lookup(tools, call.name) {
            found_tool_has_the_name(tools, call.name);
            let i = choose|i: int| 0 <= i < tools.len() && tools[i] == tool;
            let a = choose|came: Execution| #[trigger]
                may_give(tool.executor, args, came) && m == tool_message(
                    call.id,
                    run_text(settled(call.name, came)),
                );
            let b = choose|came: Execution| #[trigger]
                may_give(tool.executor, args, came) && n == tool_message(
                    call.id,
                    run_text(settled(call.name, came)),
                );
            assert(may_give(tools[i].executor, args, a) && may_give(tools[i].executor, args, b));
        }
    }
}

/// Where executors are functions and the workers of the pool bring the answers to their own
/// calls, running side by side and running one after the other give the same answers.
pub proof fn both_modes_agree<
    F: Fn(&Json) -> Execution,
    P: Fn(&ToolRegistry<F>, &[ToolCall]) -> Vec<Option<ChatMessage>>,
>(
    pool: P,
    tools: Seq<Tool<F>>,
    calls: Seq<ToolCallView>,
    a: Seq<ChatMessageView>,
    b: Seq<ChatMessageView>,
)
    requires
        functional(tools),
        trusty(pool, tools, calls),
        batch(pool, tools, calls, true, a),
        batch(pool, tools, calls, false, b),
    ensures
        a == b,
{
    batches_are_executed(pool, tools, calls, true, a);
    batches_are_executed(pool, tools, calls, false, b);
    assert forall|i: int| 0 <= i < calls.len() implies a[i] == b[i] by {
        assert(executed(tools, calls[i], a[i]) && executed(tools, calls[i], b[i]));
        calls_have_one_answer(tools, calls[i], a[i], b[i]);
    }
    assert(a =~= b);
}

/// Runs calls, side by side if `parallel` says so, and answers them in the same order.
///
/// `pool` runs each call of a batch with [`execute_one`] on a worker of its own, and
/// gives what each came back with; nothing where the worker panicked.
pub fn execute_many<
    F: Fn(&Json) -> Execution,
    P: Fn(&ToolRegistry<F>, &[ToolCall]) -> Vec<Option<ChatMessage>>,
>(registry: &ToolRegistry<F>, calls: &[ToolCall], parallel: bool, pool: &P) -> (r: (
    Vec<ChatMessage>,
    ExecutionStats,
))
    requires
        !parallel ==> can_execute(registry@, calls_view(calls@)),
        parallel ==> call_requires(*pool, (registry, calls)),
    ensures
        batch(*pool, registry@, calls_view(calls@), parallel, messages_view(r.0@)),
        trusty(*pool, registry@, calls_view(calls@)) ==> all_executed(
            registry@,
            calls_view(calls@),
            messages_view(r.0@),
        ),
        r.1.n_calls == calls@.len(),
        r.1.parallel == parallel,
{
    let started = now();
    let answers = if parallel {
        let came = pool(registry, calls);
        let ghost back = came;
        assert(call_ensures(*pool, (registry, calls), back));
        collect(came)
    } else {
        execute_in_turn(registry, calls)
    };
    let stats = ExecutionStats {
        n_calls: calls.len(),
        parallel,
        elapsed_ns: nanos_since(&started),
    };
    proof {
        let tools = registry@;
        if trusty(*pool, tools, calls_view(calls@)) {
            batches_are_executed(
                *pool,
                tools,
                calls_view(calls@),
                parallel,
                messages_view(answers@),
            );
        }
    }
    (answers, stats)
}

} // verus!
