//! What each call is answered, call by call.
use vstd::prelude::*;
use crate::chat::{
    calls_view, messages_view, tool_message, ChatMessage, ChatMessageView, Role, ToolCall,
    ToolCallView,
};
use crate::executor::{
    answer, answers_echo_the_id, batch, collect, collected, execute, execute_many, execute_one,
    executed, report, run_text, ExecutionStats,
};
use crate::json::{parsed, Json, JsonView};
use crate::tools::{lookup, may_give, settled, Execution, Tool, ToolRegistry, ToolResult};

verus! {

/// Whether a message answers the call with this id with this text, and is nothing else.
pub open spec fn answers_with(m: ChatMessageView, id: Seq<char>, text: Seq<char>) -> bool {
    &&& m.role == Role::Tool
    &&& m.tool_call_id == Some(id)
    &&& m.content == Some(text)
    &&& m.tool_calls is None
}

/// A call whose arguments are no JSON is answered with the error and the arguments as they
/// are, whatever tools there are.
pub proof fn invalid_arguments_are_quoted<F: Fn(&Json) -> Execution>(
    tools: Seq<Tool<F>>,
    call: ToolCallView,
    m: ChatMessageView,
)
    requires
        executed(tools, call, m),
        parsed(call.arguments) is Err,
    ensures
        answers_with(
            m,
            call.id,
            "[invalid JSON arguments] "@ + parsed(call.arguments)->Err_0 + ": "@ + call.arguments,
        ),
{
}

/// A call of a tool that is not there is answered with its name, where its arguments are
/// JSON.
pub proof fn unknown_tools_are_named<F: Fn(&Json) -> Execution>(
    tools: Seq<Tool<F>>,
    call: ToolCallView,
    m: ChatMessageView,
)
    requires
        executed(tools, call, m),
        parsed(call.arguments) is Ok,
        lookup(tools, call.name) is None,
    ensures
        answers_with(m, call.id, "[unknown tool] `"@ + call.name + "` is not registered"@),
{
}

/// Any other call is answered with what the executor of the tool of that name gave for the
/// arguments: the output of a result, be it one of success or of failure; an error behind a
/// marker; or, behind the same marker, that the tool panicked.
pub proof fn known_tools_are_run<F: Fn(&Json) -> Execution>(
    tools: Seq<Tool<F>>,
    call: ToolCallView,
    m: ChatMessageView,
    tool: Tool<F>,
    args: JsonView,
)
    requires
        executed(tools, call, m),
        parsed(call.arguments) == Ok::<JsonView, Seq<char>>(args),
        lookup(tools, call.name) == Some(tool),
    ensures
        exists|given: Json, came: Execution| #[trigger]
            call_ensures(tool.executor, (&given,), came) && given@ == args && answers_with(
                m,
                call.id,
                match came {
                    Some(Ok(result)) => result.output@,
                    Some(Err(e)) => "[tool error] "@ + e@,
                    None => "[tool error] "@ + ("tool `"@ + call.name + "` panicked"@),
                },
            ),
{
    let came = choose|came: Execution| #[trigger]
        may_give(tool.executor, args, came) && m == tool_message(
            call.id,
            run_text(settled(call.name, came)),
        );
    let given = choose|given: Json| #[trigger]
        call_ensures(tool.executor, (&given,), came) && given@ == args;
    assert(call_ensures(tool.executor, (&given,), came));
}

/// What running a tool gave is reported under the id: the output of a result, whether it is
/// marked as an error or not, and an error behind a marker.
pub proof fn runs_are_reported(id: &str, r: Result<ToolResult, String>, m: ChatMessage)
    requires
        call_ensures(report, (id, r), m),
    ensures
        answers_with(
            m@,
            id@,
            match r {
                Ok(result) => result.output@,
                Err(e) => "[tool error] "@ + e@,
            },
        ),
{
}

/// However a call is answered, it is as if it was by itself: with its arguments as JSON, or
/// as they are, on demand.
pub proof fn all_ways_to_answer_agree<F: Fn(&Json) -> Execution>(
    registry: ToolRegistry<F>,
    call: ToolCall,
    one: ChatMessage,
    r: Result<ChatMessage, String>,
)
    requires
        call_ensures(execute_one::<F>, (&registry, &call), one),
        call_ensures(execute::<F>, (&registry, &call), r),
    ensures
        executed(registry@, call@, one@),
        r is Ok,
        executed(registry@, call@, (r->Ok_0)@),
{
}

/// A call with arguments that are known as JSON, or known not to be, is answered by the same
/// rules.
pub proof fn parsed_calls_are_answered<F: Fn(&Json) -> Execution>(
    registry: ToolRegistry<F>,
    call: ToolCall,
    args: Result<Json, String>,
    m: ChatMessage,
)
    requires
        call_ensures(answer::<F>, (&registry, &call, args), m),
    ensures
        m@.role == Role::Tool,
        m@.tool_call_id == Some(call.id@),
        m@.tool_calls is None,
        match args {
            Err(e) => m@.content == Some(
                "[invalid JSON arguments] "@ + e@ + ": "@ + call.arguments@,
            ),
            Ok(j) => match lookup(registry@, call.name@) {
                None => m@.content == Some(
                    "[unknown tool] `"@ + call.name@ + "` is not registered"@,
                ),
                Some(tool) => exists|given: Json, came: Execution| #[trigger]
                    call_ensures(tool.executor, (&given,), came) && given@ == j@ && m@.content == Some(
                        match came {
                            Some(Ok(result)) => result.output@,
                            Some(Err(e)) => "[tool error] "@ + e@,
                            None => "[tool error] "@ + ("tool `"@ + call.name@ + "` panicked"@),
                        },
                    ),
            },
        },
{
    if let Ok(j) = args {
        if let Some(tool) = lookup(registry@, call.name@) {
            let came = choose|came: Execution| #[trigger]
                may_give(tool.executor, j@, came) && m@ == tool_message(
                    call@.id,
                    run_text(settled(call@.name, came)),
                );
            let given = choose|given: Json| #[trigger]
                call_ensures(tool.executor, (&given,), came) && given@ == j@;
            assert(call_ensures(tool.executor, (&given,), came));
        }
    }
}

/// What workers came back with is kept place by place; a message stands in the place of a
/// worker that did not come back.
pub proof fn workers_answer_in_their_places(
    came: Vec<Option<ChatMessage>>,
    answers: Vec<ChatMessage>,
)
    requires
        call_ensures(collect, (came,), answers),
    ensures
        answers@.len() == came@.len(),
        forall|i: int|
            0 <= i < came@.len() ==> match came@[i] {
                Some(m) => (#[trigger] answers@[i])@ == m@,
                None => answers_with(answers@[i]@, "?"@, "[executor] worker thread panicked"@),
            },
{
    assert(messages_view(answers@).len() == answers@.len());
    assert forall|i: int| 0 <= i < came@.len() implies match came@[i] {
        Some(m) => (#[trigger] answers@[i])@ == m@,
        None => answers_with(answers@[i]@, "?"@, "[executor] worker thread panicked"@),
    } by {
        assert(messages_view(answers@)[i] == answers@[i]@);
        assert(collected(came@)[i] == answers@[i]@);
    }
}

/// A batch that is run one call after the other has one answer for each call, in order, and
/// under its id; its record tells how many calls there were, and how they were run.
pub proof fn batches_are_answered_in_order<
    F: Fn(&Json) -> Execution,
    P: Fn(&ToolRegistry<F>, &[ToolCall]) -> Vec<Option<ChatMessage>>,
>(
    registry: ToolRegistry<F>,
    calls: &[ToolCall],
    parallel: bool,
    pool: P,
    r: (Vec<ChatMessage>, ExecutionStats),
)
    requires
        call_ensures(execute_many::<F, P>, (&registry, calls, parallel, &pool), r),
    ensures
        r.1.n_calls == calls@.len(),
        r.1.parallel == parallel,
        !parallel ==> r.0@.len() == calls@.len() && forall|i: int|
            0 <= i < calls@.len() ==> executed(registry@, calls@[i]@, (#[trigger] r.0@[i])@)
                && r.0@[i]@.tool_call_id == Some(calls@[i].id@),
        parallel ==> exists|same: ToolRegistry<F>, given: &[ToolCall], came: Vec<Option<ChatMessage>>|
            {
                &&& same@ == registry@
                &&& calls_view(given@) == calls_view(calls@)
                &&& #[trigger] call_ensures(pool, (&same, given), came)
                &&& r.0@.len() == came@.len()
                &&& forall|i: int|
                    0 <= i < came@.len() ==> ((#[trigger] came@[i]) matches Some(m) ==> r.0@[i]@
                        == m@)
            },
{
    let answers = messages_view(r.0@);
    assert(batch(pool, registry@, calls_view(calls@), parallel, answers));
    assert(answers.len() == r.0@.len());
    if !parallel {
        assert forall|i: int| 0 <= i < calls@.len() implies executed(
            registry@,
            calls@[i]@,
            (#[trigger] r.0@[i])@,
        ) && r.0@[i]@.tool_call_id == Some(calls@[i].id@) by {
            assert(answers[i] == r.0@[i]@);
            assert(calls_view(calls@)[i] == calls@[i]@);
            assert(executed(registry@, calls_view(calls@)[i], answers[i]));
            answers_echo_the_id(registry@, calls@[i]@, answers[i]);
        }
    } else {
        let (same, given, came) = choose|
            same: ToolRegistry<F>,
            given: &[ToolCall],
            came: Vec<Option<ChatMessage>>,
        |
            #![trigger call_ensures(pool, (&same, given), came)]
            same@ == registry@ && calls_view(given@) == calls_view(calls@) && call_ensures(
                pool,
                (&same, given),
                came,
            ) && answers == collected(came@);
        assert(call_ensures(pool, (&same, given), came));
        assert forall|i: int| 0 <= i < came@.len() implies ((#[trigger] came@[i]) matches Some(m)
            ==> r.0@[i]@ == m@) by {
            assert(answers[i] == r.0@[i]@);
        }
    }
}

} // verus!
