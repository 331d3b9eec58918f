//! The form of what goes over the wire.
use vstd::prelude::*;
use crate::chat::{
    role_name, ChatMessageView, ChatRequestView, ChatResponseView, ChatToolView, ChoiceView,
    ToolCallView, Usage,
};
use crate::json::{ascending, canonical, canonical_values_are_kept, entry_if_some, kept, JsonView};
use crate::text::precedes;
use crate::wire::{
    call_json, calls_json, choice_json, message_json, messages_json, opt_text_json, request_json,
    response_json, tool_json, tools_json, usage_json,
};

verus! {

/// Of two texts that differ first in one character, the one with the smaller character comes
/// first.
pub proof fn the_first_difference_decides(a: Seq<char>, b: Seq<char>, at: int)
    requires
        0 <= at < a.len(),
        at < b.len(),
        forall|i: int| 0 <= i < at ==> #[trigger] a[i] == b[i],
        a[at] < b[at],
    ensures
        precedes(a, b),
    decreases at,
{
    if at > 0 {
        assert(a[0] == b[0]);
        let c = a.drop_first();
        let d = b.drop_first();
        assert forall|i: int| 0 <= i < at - 1 implies #[trigger] c[i] == d[i] by {
            assert(a[i + 1] == b[i + 1]);
        }
        the_first_difference_decides(c, d, at - 1);
    }
}

/// Whether all keys of entries come before this one.
spec fn all_before(entries: Seq<(Seq<char>, JsonView)>, key: Seq<char>) -> bool {
    forall|i: int| 0 <= i < entries.len() ==> precedes((#[trigger] entries[i]).0, key)
}

/// Whether all values of entries are canonical.
spec fn all_canonical(entries: Seq<(Seq<char>, JsonView)>) -> bool {
    forall|i: int| 0 <= i < entries.len() ==> canonical((#[trigger] entries[i]).1)
}

/// Entries in order stay in order when one with a later key is put behind them.
proof fn lemma_put_behind(
    entries: Seq<(Seq<char>, JsonView)>,
    key: Seq<char>,
    value: Option<JsonView>,
)
    requires
        ascending(entries),
        all_canonical(entries),
        all_before(entries, key),
        value is Some ==> canonical(value->0),
    ensures
        ascending(entries + entry_if_some(key, value)),
        all_canonical(entries + entry_if_some(key, value)),
        forall|later: Seq<char>|
            all_before(entries, later) && precedes(key, later) ==> #[trigger] all_before(
                entries + entry_if_some(key, value),
                later,
            ),
{
    let more = entries + entry_if_some(key, value);
    let n = entries.len() as int;
    assert forall|i: int| 0 <= i < more.len() implies (#[trigger] more[i]) == (if i < n {
        entries[i]
    } else {
        (key, value->0)
    }) by {}
    assert forall|i: int, k: int| 0 <= i < k < more.len() implies precedes(
        (#[trigger] more[i]).0,
        (#[trigger] more[k]).0,
    ) by {
        if k < n {
            assert(precedes(entries[i].0, entries[k].0));
        } else {
            assert(precedes(entries[i].0, key));
        }
    }
}

/// The order of some keys.
proof fn lemma_call_keys()
    ensures
        precedes("arguments"@, "name"@),
{
    reveal_strlit("arguments");
    reveal_strlit("name");
    the_first_difference_decides("arguments"@, "name"@, 0);
}

/// The order of some keys.
proof fn lemma_outer_keys()
    ensures
        precedes("function"@, "id"@),
        precedes("function"@, "type"@),
        precedes("id"@, "type"@),
{
    reveal_strlit("function");
    reveal_strlit("id");
    reveal_strlit("type");
    the_first_difference_decides("function"@, "id"@, 0);
    the_first_difference_decides("function"@, "type"@, 0);
    the_first_difference_decides("id"@, "type"@, 0);
}

/// The order of some keys.
proof fn lemma_tool_keys()
    ensures
        precedes("description"@, "name"@),
        precedes("description"@, "parameters"@),
        precedes("name"@, "parameters"@),
{
    reveal_strlit("description");
    reveal_strlit("name");
    reveal_strlit("parameters");
    the_first_difference_decides("description"@, "name"@, 0);
    the_first_difference_decides("description"@, "parameters"@, 0);
    the_first_difference_decides("name"@, "parameters"@, 0);
}

/// The order of some keys.
proof fn lemma_message_keys()
    ensures
        precedes("content"@, "role"@),
        precedes("content"@, "tool_call_id"@),
        precedes("content"@, "tool_calls"@),
        precedes("role"@, "tool_call_id"@),
        precedes("role"@, "tool_calls"@),
        precedes("tool_call_id"@, "tool_calls"@),
{
    reveal_strlit("content");
    reveal_strlit("role");
    reveal_strlit("tool_call_id");
    reveal_strlit("tool_calls");
    the_first_difference_decides("content"@, "role"@, 0);
    the_first_difference_decides("content"@, "tool_call_id"@, 0);
    the_first_difference_decides("content"@, "tool_calls"@, 0);
    the_first_difference_decides("role"@, "tool_call_id"@, 0);
    the_first_difference_decides("role"@, "tool_calls"@, 0);
    the_first_difference_decides("tool_call_id"@, "tool_calls"@, 9);
}

/// The order of some keys.
proof fn lemma_request_keys()
    ensures
        precedes("messages"@, "model"@),
        precedes("messages"@, "temperature"@),
        precedes("messages"@, "tool_choice"@),
        precedes("messages"@, "tools"@),
        precedes("model"@, "temperature"@),
        precedes("model"@, "tool_choice"@),
        precedes("model"@, "tools"@),
        precedes("temperature"@, "tool_choice"@),
        precedes("temperature"@, "tools"@),
        precedes("tool_choice"@, "tools"@),
{
    reveal_strlit("messages");
    reveal_strlit("model");
    reveal_strlit("temperature");
    reveal_strlit("tool_choice");
    reveal_strlit("tools");
    the_first_difference_decides("messages"@, "model"@, 1);
    the_first_difference_decides("messages"@, "temperature"@, 0);
    the_first_difference_decides("messages"@, "tool_choice"@, 0);
    the_first_difference_decides("messages"@, "tools"@, 0);
    the_first_difference_decides("model"@, "temperature"@, 0);
    the_first_difference_decides("model"@, "tool_choice"@, 0);
    the_first_difference_decides("model"@, "tools"@, 0);
    the_first_difference_decides("temperature"@, "tool_choice"@, 1);
    the_first_difference_decides("temperature"@, "tools"@, 1);
    the_first_difference_decides("tool_choice"@, "tools"@, 4);
}

/// The order of some keys.
proof fn lemma_choice_keys()
    ensures
        precedes("finish_reason"@, "index"@),
        precedes("finish_reason"@, "message"@),
        precedes("index"@, "message"@),
{
    reveal_strlit("finish_reason");
    reveal_strlit("index");
    reveal_strlit("message");
    the_first_difference_decides("finish_reason"@, "index"@, 0);
    the_first_difference_decides("finish_reason"@, "message"@, 0);
    the_first_difference_decides("index"@, "message"@, 0);
}

/// The order of some keys.
proof fn lemma_usage_keys()
    ensures
        precedes("completion_tokens"@, "prompt_tokens"@),
        precedes("completion_tokens"@, "total_tokens"@),
        precedes("prompt_tokens"@, "total_tokens"@),
{
    reveal_strlit("completion_tokens");
    reveal_strlit("prompt_tokens");
    reveal_strlit("total_tokens");
    the_first_difference_decides("completion_tokens"@, "prompt_tokens"@, 0);
    the_first_difference_decides("completion_tokens"@, "total_tokens"@, 0);
    the_first_difference_decides("prompt_tokens"@, "total_tokens"@, 0);
}

/// The order of some keys.
proof fn lemma_response_keys()
    ensures
        precedes("choices"@, "id"@),
        precedes("choices"@, "model"@),
        precedes("choices"@, "usage"@),
        precedes("id"@, "model"@),
        precedes("id"@, "usage"@),
        precedes("model"@, "usage"@),
{
    reveal_strlit("choices");
    reveal_strlit("id");
    reveal_strlit("model");
    reveal_strlit("usage");
    the_first_difference_decides("choices"@, "id"@, 0);
    the_first_difference_decides("choices"@, "model"@, 0);
    the_first_difference_decides("choices"@, "usage"@, 0);
    the_first_difference_decides("id"@, "model"@, 0);
    the_first_difference_decides("id"@, "usage"@, 0);
    the_first_difference_decides("model"@, "usage"@, 0);
}

/// No entries are in order.
proof fn lemma_no_entries()
    ensures
        ascending(Seq::<(Seq<char>, JsonView)>::empty()),
        all_canonical(Seq::<(Seq<char>, JsonView)>::empty()),
        forall|key: Seq<char>| #[trigger]
            all_before(Seq::<(Seq<char>, JsonView)>::empty(), key),
{
}

/// The JSON of a tool call is canonical.
pub proof fn calls_are_canonical(call: ToolCallView)
    ensures
        canonical(call_json(call)),
{
    let none = Seq::<(Seq<char>, JsonView)>::empty();
    let entries = call_json(call)->Object_0;
    let inner = entries[0].1->Object_0;
    lemma_no_entries();
    lemma_call_keys();
    let a = none + entry_if_some("arguments"@, Some(inner[0].1));
    lemma_put_behind(none, "arguments"@, Some(inner[0].1));
    lemma_put_behind(a, "name"@, Some(inner[1].1));
    assert(inner =~= a + entry_if_some("name"@, Some(inner[1].1)));
    assert(canonical(entries[0].1));
    lemma_outer_keys();
    let b = none + entry_if_some("function"@, Some(entries[0].1));
    let c = b + entry_if_some("id"@, Some(entries[1].1));
    lemma_put_behind(none, "function"@, Some(entries[0].1));
    lemma_put_behind(b, "id"@, Some(entries[1].1));
    lemma_put_behind(c, "type"@, Some(entries[2].1));
    assert(entries =~= c + entry_if_some("type"@, Some(entries[2].1)));
}

/// The JSON of a message is canonical.
pub proof fn messages_are_canonical(m: ChatMessageView)
    ensures
        canonical(message_json(m)),
{
    let none = Seq::<(Seq<char>, JsonView)>::empty();
    let entries = message_json(m)->Object_0;
    let role = JsonView::Text(role_name(m.role));
    let calls = match m.tool_calls {
        Some(calls) => Some(calls_json(calls)),
        None => None,
    };
    if m.tool_calls is Some {
        let all = m.tool_calls->0;
        assert forall|i: int| 0 <= i < all.len() implies canonical(call_json(#[trigger] all[i])) by {
            calls_are_canonical(all[i]);
        }
    }
    lemma_no_entries();
    lemma_message_keys();
    let a = none + entry_if_some("content"@, opt_text_json(m.content));
    let b = a + entry_if_some("role"@, Some(role));
    let c = b + entry_if_some("tool_call_id"@, opt_text_json(m.tool_call_id));
    lemma_put_behind(none, "content"@, opt_text_json(m.content));
    lemma_put_behind(a, "role"@, Some(role));
    lemma_put_behind(b, "tool_call_id"@, opt_text_json(m.tool_call_id));
    lemma_put_behind(c, "tool_calls"@, calls);
    assert(entries =~= c + entry_if_some("tool_calls"@, calls));
}

/// The JSON of an advertised tool is canonical where its schema is.
pub proof fn tools_are_canonical(tool: ChatToolView)
    requires
        canonical(tool.parameters),
    ensures
        canonical(tool_json(tool)),
{
    let none = Seq::<(Seq<char>, JsonView)>::empty();
    let entries = tool_json(tool)->Object_0;
    let inner = entries[0].1->Object_0;
    lemma_no_entries();
    lemma_tool_keys();
    let a = none + entry_if_some("description"@, Some(inner[0].1));
    let b = a + entry_if_some("name"@, Some(inner[1].1));
    lemma_put_behind(none, "description"@, Some(inner[0].1));
    lemma_put_behind(a, "name"@, Some(inner[1].1));
    lemma_put_behind(b, "parameters"@, Some(inner[2].1));
    assert(inner =~= b + entry_if_some("parameters"@, Some(inner[2].1)));
    assert(canonical(entries[0].1));
    lemma_outer_keys();
    let c = none + entry_if_some("function"@, Some(entries[0].1));
    lemma_put_behind(none, "function"@, Some(entries[0].1));
    lemma_put_behind(c, "type"@, Some(entries[1].1));
    assert(entries =~= c + entry_if_some("type"@, Some(entries[1].1)));
}

/// Whether the parts of a request that are JSON already are canonical.
pub open spec fn has_canonical_parts(r: ChatRequestView) -> bool {
    &&& r.temperature is Some ==> canonical(JsonView::Number(r.temperature->0))
    &&& r.tool_choice is Some ==> canonical(r.tool_choice->0)
    &&& r.tools is Some ==> forall|i: int|
        0 <= i < (r.tools->0).len() ==> canonical((#[trigger] (r.tools->0)[i]).parameters)
}

/// What is posted for a request is in the form in which `serde_json` keeps values, so that it
/// is printed as it stands.
pub proof fn requests_are_canonical(r: ChatRequestView)
    requires
        has_canonical_parts(r),
    ensures
        canonical(request_json(r)),
        kept(request_json(r)) == request_json(r),
{
    let none = Seq::<(Seq<char>, JsonView)>::empty();
    let entries = request_json(r)->Object_0;
    let temperature = match r.temperature {
        Some(t) => Some(JsonView::Number(t)),
        None => None,
    };
    let tools = match r.tools {
        Some(tools) => Some(tools_json(tools)),
        None => None,
    };
    assert forall|i: int| 0 <= i < r.messages.len() implies canonical(
        message_json(#[trigger] r.messages[i]),
    ) by {
        messages_are_canonical(r.messages[i]);
    }
    assert(canonical(messages_json(r.messages)));
    if r.tools is Some {
        let all = r.tools->0;
        assert forall|i: int| 0 <= i < all.len() implies canonical(tool_json(#[trigger] all[i])) by {
            tools_are_canonical(all[i]);
        }
    }
    lemma_no_entries();
    lemma_request_keys();
    let a = none + entry_if_some("messages"@, Some(messages_json(r.messages)));
    let b = a + entry_if_some("model"@, Some(JsonView::Text(r.model)));
    let c = b + entry_if_some("temperature"@, temperature);
    let d = c + entry_if_some("tool_choice"@, r.tool_choice);
    lemma_put_behind(none, "messages"@, Some(messages_json(r.messages)));
    lemma_put_behind(a, "model"@, Some(JsonView::Text(r.model)));
    lemma_put_behind(b, "temperature"@, temperature);
    lemma_put_behind(c, "tool_choice"@, r.tool_choice);
    lemma_put_behind(d, "tools"@, tools);
    assert(entries =~= d + entry_if_some("tools"@, tools));
    canonical_values_are_kept(request_json(r));
}

/// The JSON of an answer is canonical.
proof fn lemma_choices_are_canonical(c: ChoiceView)
    ensures
        canonical(choice_json(c)),
{
    let none = Seq::<(Seq<char>, JsonView)>::empty();
    let entries = choice_json(c)->Object_0;
    messages_are_canonical(c.message);
    lemma_no_entries();
    lemma_choice_keys();
    let a = none + entry_if_some("finish_reason"@, Some(entries[0].1));
    let b = a + entry_if_some("index"@, Some(entries[1].1));
    lemma_put_behind(none, "finish_reason"@, Some(entries[0].1));
    lemma_put_behind(a, "index"@, Some(entries[1].1));
    lemma_put_behind(b, "message"@, Some(entries[2].1));
    assert(entries =~= b + entry_if_some("message"@, Some(entries[2].1)));
}

/// The JSON of token counts is canonical.
proof fn lemma_usage_is_canonical(u: Usage)
    ensures
        canonical(usage_json(u)),
{
    let none = Seq::<(Seq<char>, JsonView)>::empty();
    let entries = usage_json(u)->Object_0;
    lemma_no_entries();
    lemma_usage_keys();
    let a = none + entry_if_some("completion_tokens"@, Some(entries[0].1));
    let b = a + entry_if_some("prompt_tokens"@, Some(entries[1].1));
    lemma_put_behind(none, "completion_tokens"@, Some(entries[0].1));
    lemma_put_behind(a, "prompt_tokens"@, Some(entries[1].1));
    lemma_put_behind(b, "total_tokens"@, Some(entries[2].1));
    assert(entries =~= b + entry_if_some("total_tokens"@, Some(entries[2].1)));
}

/// A response that is written out is in the form in which `serde_json` keeps values, so that
/// it is printed as it stands.
pub proof fn responses_are_canonical(r: ChatResponseView)
    ensures
        canonical(response_json(r)),
        kept(response_json(r)) == response_json(r),
{
    let none = Seq::<(Seq<char>, JsonView)>::empty();
    let entries = response_json(r)->Object_0;
    assert forall|i: int| 0 <= i < r.choices.len() implies canonical(
        choice_json(#[trigger] r.choices[i]),
    ) by {
        lemma_choices_are_canonical(r.choices[i]);
    }
    assert(canonical(entries[0].1));
    if r.usage is Some {
        lemma_usage_is_canonical(r.usage->0);
    }
    lemma_no_entries();
    lemma_response_keys();
    let a = none + entry_if_some("choices"@, Some(entries[0].1));
    let b = a + entry_if_some("id"@, Some(entries[1].1));
    let c = b + entry_if_some("model"@, Some(entries[2].1));
    lemma_put_behind(none, "choices"@, Some(entries[0].1));
    lemma_put_behind(a, "id"@, Some(entries[1].1));
    lemma_put_behind(b, "model"@, Some(entries[2].1));
    lemma_put_behind(c, "usage"@, Some(entries[3].1));
    assert(entries =~= c + entry_if_some("usage"@, Some(entries[3].1)));
    canonical_values_are_kept(response_json(r));
}

} // verus!
