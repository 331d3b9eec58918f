//! What the JSON that goes over the wire holds: each part of what is sent, under its key.
use vstd::prelude::*;
use crate::chat::{
    ChatMessage, ChatMessageView, ChatRequest, ChatRequestView, ChatResponse, ChatResponseView,
    ChatTool, ChatToolView, Choice, ChoiceView, Role, ToolCall, ToolCallView, Usage,
};
use crate::json::laws::{keys_differ, laid_out, lemma_laid_out};
use crate::json::{Json, JsonView, NumberView};
use crate::wire::{
    call_json, calls_json, choice_json, message_json, messages_json, request_json, response_json,
    tool_json, tools_json, usage_json, WireToolCall,
};

verus! {

// ---------------------------------------------------------------------------
// Reading by key
// ---------------------------------------------------------------------------

/// Whether a value is an object that has no other keys than these.
pub open spec fn has_only(j: JsonView, keys: Seq<Seq<char>>) -> bool {
    j is Object && forall|key: Seq<char>| !keys.contains(key) ==> (#[trigger] j.field(key)) is None
}

/// Whether the text under a key is this one, or the key is not there where there is none.
pub open spec fn holds_text(j: JsonView, key: Seq<char>, text: Option<Seq<char>>) -> bool {
    match text {
        Some(text) => j.field(key) == Some(JsonView::Text(text)),
        None => j.field(key) is None,
    }
}

/// Whether the text under a key is this one, or null where there is none.
pub open spec fn holds_text_or_null(j: JsonView, key: Seq<char>, text: Option<Seq<char>>) -> bool {
    match text {
        Some(text) => j.field(key) == Some(JsonView::Text(text)),
        None => j.field(key) == Some(JsonView::Null),
    }
}

/// Whether the integer under a key is this one, or null where there is none.
pub open spec fn holds_int_or_null(j: JsonView, key: Seq<char>, n: Option<i64>) -> bool {
    match n {
        Some(n) => j.field(key) == Some(JsonView::Number(NumberView::Int(n))),
        None => j.field(key) == Some(JsonView::Null),
    }
}

/// Whether a value tells of a tool call: its id, its type, and within `function` its name and
/// its arguments, and nothing else.
pub open spec fn tells_call(j: JsonView, call: ToolCallView) -> bool {
    &&& has_only(j, seq!["function"@, "id"@, "type"@])
    &&& holds_text(j, "id"@, Some(call.id))
    &&& holds_text(j, "type"@, Some("function"@))
    &&& j.field("function"@) matches Some(f) && {
        &&& has_only(f, seq!["arguments"@, "name"@])
        &&& holds_text(f, "name"@, Some(call.name))
        &&& holds_text(f, "arguments"@, Some(call.arguments))
    }
}

/// Whether a value tells of a message: its role, and each of its other parts just where it is
/// there, whatever the others are.
pub open spec fn tells_message(j: JsonView, m: ChatMessageView) -> bool {
    &&& has_only(j, seq!["content"@, "role"@, "tool_call_id"@, "tool_calls"@])
    &&& holds_text(
        j,
        "role"@,
        Some(
            match m.role {
                Role::System => "system"@,
                Role::User => "user"@,
                Role::Assistant => "assistant"@,
                Role::Tool => "tool"@,
            },
        ),
    )
    &&& holds_text(j, "content"@, m.content)
    &&& holds_text(j, "tool_call_id"@, m.tool_call_id)
    &&& match m.tool_calls {
        Some(calls) => j.field("tool_calls"@) matches Some(JsonView::Array(items)) && items.len()
            == calls.len() && forall|i: int|
            0 <= i < calls.len() ==> tells_call(items[i], #[trigger] calls[i]),
        None => j.field("tool_calls"@) is None,
    }
}

/// Whether a value tells of an advertised tool.
pub open spec fn tells_tool(j: JsonView, tool: ChatToolView) -> bool {
    &&& has_only(j, seq!["function"@, "type"@])
    &&& holds_text(j, "type"@, Some(tool.tool_type))
    &&& j.field("function"@) matches Some(f) && {
        &&& has_only(f, seq!["description"@, "name"@, "parameters"@])
        &&& holds_text(f, "name"@, Some(tool.name))
        &&& holds_text(f, "description"@, Some(tool.description))
        &&& f.field("parameters"@) == Some(tool.parameters)
    }
}

/// Whether a value tells of a request: the model, all messages in order, and each of its
/// other parts just where it is there.
pub open spec fn tells_request(j: JsonView, r: ChatRequestView) -> bool {
    &&& has_only(j, seq!["messages"@, "model"@, "temperature"@, "tool_choice"@, "tools"@])
    &&& holds_text(j, "model"@, Some(r.model))
    &&& j.field("messages"@) matches Some(JsonView::Array(items)) && items.len() == r.messages.len()
        && forall|i: int|
        0 <= i < r.messages.len() ==> tells_message(items[i], #[trigger] r.messages[i])
    &&& match r.temperature {
        Some(t) => j.field("temperature"@) == Some(JsonView::Number(t)),
        None => j.field("temperature"@) is None,
    }
    &&& j.field("tool_choice"@) == r.tool_choice
    &&& match r.tools {
        Some(tools) => j.field("tools"@) matches Some(JsonView::Array(items)) && items.len()
            == tools.len() && forall|i: int|
            0 <= i < tools.len() ==> tells_tool(items[i], #[trigger] tools[i]),
        None => j.field("tools"@) is None,
    }
}

/// Whether a value tells of one answer of the model.
pub open spec fn tells_choice(j: JsonView, c: ChoiceView) -> bool {
    &&& has_only(j, seq!["finish_reason"@, "index"@, "message"@])
    &&& holds_text_or_null(j, "finish_reason"@, c.finish_reason)
    &&& holds_int_or_null(j, "index"@, c.index)
    &&& j.field("message"@) matches Some(m) && tells_message(m, c.message)
}

/// Whether a value tells of token counts.
pub open spec fn tells_usage(j: JsonView, u: Usage) -> bool {
    &&& has_only(j, seq!["completion_tokens"@, "prompt_tokens"@, "total_tokens"@])
    &&& holds_int_or_null(j, "completion_tokens"@, u.completion_tokens)
    &&& holds_int_or_null(j, "prompt_tokens"@, u.prompt_tokens)
    &&& holds_int_or_null(j, "total_tokens"@, u.total_tokens)
}

/// Whether a value tells of a response.
pub open spec fn tells_response(j: JsonView, r: ChatResponseView) -> bool {
    &&& has_only(j, seq!["choices"@, "id"@, "model"@, "usage"@])
    &&& holds_text_or_null(j, "id"@, r.id)
    &&& holds_text_or_null(j, "model"@, r.model)
    &&& j.field("choices"@) matches Some(JsonView::Array(items)) && items.len() == r.choices.len()
        && forall|i: int|
        0 <= i < r.choices.len() ==> tells_choice(items[i], #[trigger] r.choices[i])
    &&& match r.usage {
        Some(u) => j.field("usage"@) matches Some(v) && tells_usage(v, u),
        None => j.field("usage"@) == Some(JsonView::Null),
    }
}

// ---------------------------------------------------------------------------
// Keys
// ---------------------------------------------------------------------------

/// What an object with some of these keys holds under each.
proof fn lemma_call_outer(
    entries: Seq<(Seq<char>, JsonView)>,
    v0: Option<JsonView>,
    v1: Option<JsonView>,
    v2: Option<JsonView>,
)
    requires
        entries == laid_out(
            seq![
                ("function"@, v0),
                ("id"@, v1),
                ("type"@, v2),
            ],
        ),
    ensures
        JsonView::Object(entries).field("function"@) == v0,
        JsonView::Object(entries).field("id"@) == v1,
        JsonView::Object(entries).field("type"@) == v2,
        has_only(
            JsonView::Object(entries),
            seq!["function"@, "id"@, "type"@],
        ),
{
    reveal_strlit("function");
    reveal_strlit("id");
    reveal_strlit("type");
    let parts: Seq<(Seq<char>, Option<JsonView>)> = seq![
        ("function"@, v0),
        ("id"@, v1),
        ("type"@, v2),
    ];
    let keys = seq!["function"@, "id"@, "type"@];
    assert("function"@.len() != "id"@.len());
    assert("function"@.len() != "type"@.len());
    assert("id"@.len() != "type"@.len());
    assert(keys_differ(parts));
    lemma_laid_out(parts, "function"@);
    assert(parts[0].0 == "function"@);
    lemma_laid_out(parts, "id"@);
    assert(parts[1].0 == "id"@);
    lemma_laid_out(parts, "type"@);
    assert(parts[2].0 == "type"@);
    assert forall|key: Seq<char>| !keys.contains(key) implies (#[trigger] JsonView::Object(
        entries,
    ).field(key)) is None by {
        assert forall|i: int| 0 <= i < parts.len() implies (#[trigger] parts[i]).0 != key by {
            assert(keys[i] == parts[i].0);
        }
        lemma_laid_out(parts, key);
    }
}

/// What an object with some of these keys holds under each.
proof fn lemma_call_inner(
    entries: Seq<(Seq<char>, JsonView)>,
    v0: Option<JsonView>,
    v1: Option<JsonView>,
)
    requires
        entries == laid_out(
            seq![
                ("arguments"@, v0),
                ("name"@, v1),
            ],
        ),
    ensures
        JsonView::Object(entries).field("arguments"@) == v0,
        JsonView::Object(entries).field("name"@) == v1,
        has_only(
            JsonView::Object(entries),
            seq!["arguments"@, "name"@],
        ),
{
    reveal_strlit("arguments");
    reveal_strlit("name");
    let parts: Seq<(Seq<char>, Option<JsonView>)> = seq![
        ("arguments"@, v0),
        ("name"@, v1),
    ];
    let keys = seq!["arguments"@, "name"@];
    assert("arguments"@.len() != "name"@.len());
    assert(keys_differ(parts));
    lemma_laid_out(parts, "arguments"@);
    assert(parts[0].0 == "arguments"@);
    lemma_laid_out(parts, "name"@);
    assert(parts[1].0 == "name"@);
    assert forall|key: Seq<char>| !keys.contains(key) implies (#[trigger] JsonView::Object(
        entries,
    ).field(key)) is None by {
        assert forall|i: int| 0 <= i < parts.len() implies (#[trigger] parts[i]).0 != key by {
            assert(keys[i] == parts[i].0);
        }
        lemma_laid_out(parts, key);
    }
}

/// What an object with some of these keys holds under each.
proof fn lemma_message(
    entries: Seq<(Seq<char>, JsonView)>,
    v0: Option<JsonView>,
    v1: Option<JsonView>,
    v2: Option<JsonView>,
    v3: Option<JsonView>,
)
    requires
        entries == laid_out(
            seq![
                ("content"@, v0),
                ("role"@, v1),
                ("tool_call_id"@, v2),
                ("tool_calls"@, v3),
            ],
        ),
    ensures
        JsonView::Object(entries).field("content"@) == v0,
        JsonView::Object(entries).field("role"@) == v1,
        JsonView::Object(entries).field("tool_call_id"@) == v2,
        JsonView::Object(entries).field("tool_calls"@) == v3,
        has_only(
            JsonView::Object(entries),
            seq!["content"@, "role"@, "tool_call_id"@, "tool_calls"@],
        ),
{
    reveal_strlit("content");
    reveal_strlit("role");
    reveal_strlit("tool_call_id");
    reveal_strlit("tool_calls");
    let parts: Seq<(Seq<char>, Option<JsonView>)> = seq![
        ("content"@, v0),
        ("role"@, v1),
        ("tool_call_id"@, v2),
        ("tool_calls"@, v3),
    ];
    let keys = seq!["content"@, "role"@, "tool_call_id"@, "tool_calls"@];
    assert("content"@.len() != "role"@.len());
    assert("content"@.len() != "tool_call_id"@.len());
    assert("content"@.len() != "tool_calls"@.len());
    assert("role"@.len() != "tool_call_id"@.len());
    assert("role"@.len() != "tool_calls"@.len());
    assert("tool_call_id"@.len() != "tool_calls"@.len());
    assert(keys_differ(parts));
    lemma_laid_out(parts, "content"@);
    assert(parts[0].0 == "content"@);
    lemma_laid_out(parts, "role"@);
    assert(parts[1].0 == "role"@);
    lemma_laid_out(parts, "tool_call_id"@);
    assert(parts[2].0 == "tool_call_id"@);
    lemma_laid_out(parts, "tool_calls"@);
    assert(parts[3].0 == "tool_calls"@);
    assert forall|key: Seq<char>| !keys.contains(key) implies (#[trigger] JsonView::Object(
        entries,
    ).field(key)) is None by {
        assert forall|i: int| 0 <= i < parts.len() implies (#[trigger] parts[i]).0 != key by {
            assert(keys[i] == parts[i].0);
        }
        lemma_laid_out(parts, key);
    }
}

/// What an object with some of these keys holds under each.
proof fn lemma_tool_outer(
    entries: Seq<(Seq<char>, JsonView)>,
    v0: Option<JsonView>,
    v1: Option<JsonView>,
)
    requires
        entries == laid_out(
            seq![
                ("function"@, v0),
                ("type"@, v1),
            ],
        ),
    ensures
        JsonView::Object(entries).field("function"@) == v0,
        JsonView::Object(entries).field("type"@) == v1,
        has_only(
            JsonView::Object(entries),
            seq!["function"@, "type"@],
        ),
{
    reveal_strlit("function");
    reveal_strlit("type");
    let parts: Seq<(Seq<char>, Option<JsonView>)> = seq![
        ("function"@, v0),
        ("type"@, v1),
    ];
    let keys = seq!["function"@, "type"@];
    assert("function"@.len() != "type"@.len());
    assert(keys_differ(parts));
    lemma_laid_out(parts, "function"@);
    assert(parts[0].0 == "function"@);
    lemma_laid_out(parts, "type"@);
    assert(parts[1].0 == "type"@);
    assert forall|key: Seq<char>| !keys.contains(key) implies (#[trigger] JsonView::Object(
        entries,
    ).field(key)) is None by {
        assert forall|i: int| 0 <= i < parts.len() implies (#[trigger] parts[i]).0 != key by {
            assert(keys[i] == parts[i].0);
        }
        lemma_laid_out(parts, key);
    }
}

/// What an object with some of these keys holds under each.
proof fn lemma_tool_inner(
    entries: Seq<(Seq<char>, JsonView)>,
    v0: Option<JsonView>,
    v1: Option<JsonView>,
    v2: Option<JsonView>,
)
    requires
        entries == laid_out(
            seq![
                ("description"@, v0),
                ("name"@, v1),
                ("parameters"@, v2),
            ],
        ),
    ensures
        JsonView::Object(entries).field("description"@) == v0,
        JsonView::Object(entries).field("name"@) == v1,
        JsonView::Object(entries).field("parameters"@) == v2,
        has_only(
            JsonView::Object(entries),
            seq!["description"@, "name"@, "parameters"@],
        ),
{
    reveal_strlit("description");
    reveal_strlit("name");
    reveal_strlit("parameters");
    let parts: Seq<(Seq<char>, Option<JsonView>)> = seq![
        ("description"@, v0),
        ("name"@, v1),
        ("parameters"@, v2),
    ];
    let keys = seq!["description"@, "name"@, "parameters"@];
    assert("description"@.len() != "name"@.len());
    assert("description"@.len() != "parameters"@.len());
    assert("name"@.len() != "parameters"@.len());
    assert(keys_differ(parts));
    lemma_laid_out(parts, "description"@);
    assert(parts[0].0 == "description"@);
    lemma_laid_out(parts, "name"@);
    assert(parts[1].0 == "name"@);
    lemma_laid_out(parts, "parameters"@);
    assert(parts[2].0 == "parameters"@);
    assert forall|key: Seq<char>| !keys.contains(key) implies (#[trigger] JsonView::Object(
        entries,
    ).field(key)) is None by {
        assert forall|i: int| 0 <= i < parts.len() implies (#[trigger] parts[i]).0 != key by {
            assert(keys[i] == parts[i].0);
        }
        lemma_laid_out(parts, key);
    }
}

/// What an object with some of these keys holds under each.
proof fn lemma_request(
    entries: Seq<(Seq<char>, JsonView)>,
    v0: Option<JsonView>,
    v1: Option<JsonView>,
    v2: Option<JsonView>,
    v3: Option<JsonView>,
    v4: Option<JsonView>,
)
    requires
        entries == laid_out(
            seq![
                ("messages"@, v0),
                ("model"@, v1),
                ("temperature"@, v2),
                ("tool_choice"@, v3),
                ("tools"@, v4),
            ],
        ),
    ensures
        JsonView::Object(entries).field("messages"@) == v0,
        JsonView::Object(entries).field("model"@) == v1,
        JsonView::Object(entries).field("temperature"@) == v2,
        JsonView::Object(entries).field("tool_choice"@) == v3,
        JsonView::Object(entries).field("tools"@) == v4,
        has_only(
            JsonView::Object(entries),
            seq!["messages"@, "model"@, "temperature"@, "tool_choice"@, "tools"@],
        ),
{
    reveal_strlit("messages");
    reveal_strlit("model");
    reveal_strlit("temperature");
    reveal_strlit("tool_choice");
    reveal_strlit("tools");
    let parts: Seq<(Seq<char>, Option<JsonView>)> = seq![
        ("messages"@, v0),
        ("model"@, v1),
        ("temperature"@, v2),
        ("tool_choice"@, v3),
        ("tools"@, v4),
    ];
    let keys = seq!["messages"@, "model"@, "temperature"@, "tool_choice"@, "tools"@];
    assert("messages"@.len() != "model"@.len());
    assert("messages"@.len() != "temperature"@.len());
    assert("messages"@.len() != "tool_choice"@.len());
    assert("messages"@.len() != "tools"@.len());
    assert("model"@.len() != "temperature"@.len());
    assert("model"@.len() != "tool_choice"@.len());
    assert("model"@[0] != "tools"@[0]);
    assert("temperature"@[1] != "tool_choice"@[1]);
    assert("temperature"@.len() != "tools"@.len());
    assert("tool_choice"@.len() != "tools"@.len());
    assert(keys_differ(parts));
    lemma_laid_out(parts, "messages"@);
    assert(parts[0].0 == "messages"@);
    lemma_laid_out(parts, "model"@);
    assert(parts[1].0 == "model"@);
    lemma_laid_out(parts, "temperature"@);
    assert(parts[2].0 == "temperature"@);
    lemma_laid_out(parts, "tool_choice"@);
    assert(parts[3].0 == "tool_choice"@);
    lemma_laid_out(parts, "tools"@);
    assert(parts[4].0 == "tools"@);
    assert forall|key: Seq<char>| !keys.contains(key) implies (#[trigger] JsonView::Object(
        entries,
    ).field(key)) is None by {
        assert forall|i: int| 0 <= i < parts.len() implies (#[trigger] parts[i]).0 != key by {
            assert(keys[i] == parts[i].0);
        }
        lemma_laid_out(parts, key);
    }
}

/// What an object with some of these keys holds under each.
proof fn lemma_choice(
    entries: Seq<(Seq<char>, JsonView)>,
    v0: Option<JsonView>,
    v1: Option<JsonView>,
    v2: Option<JsonView>,
)
    requires
        entries == laid_out(
            seq![
                ("finish_reason"@, v0),
                ("index"@, v1),
                ("message"@, v2),
            ],
        ),
    ensures
        JsonView::Object(entries).field("finish_reason"@) == v0,
        JsonView::Object(entries).field("index"@) == v1,
        JsonView::Object(entries).field("message"@) == v2,
        has_only(
            JsonView::Object(entries),
            seq!["finish_reason"@, "index"@, "message"@],
        ),
{
    reveal_strlit("finish_reason");
    reveal_strlit("index");
    reveal_strlit("message");
    let parts: Seq<(Seq<char>, Option<JsonView>)> = seq![
        ("finish_reason"@, v0),
        ("index"@, v1),
        ("message"@, v2),
    ];
    let keys = seq!["finish_reason"@, "index"@, "message"@];
    assert("finish_reason"@.len() != "index"@.len());
    assert("finish_reason"@.len() != "message"@.len());
    assert("index"@.len() != "message"@.len());
    assert(keys_differ(parts));
    lemma_laid_out(parts, "finish_reason"@);
    assert(parts[0].0 == "finish_reason"@);
    lemma_laid_out(parts, "index"@);
    assert(parts[1].0 == "index"@);
    lemma_laid_out(parts, "message"@);
    assert(parts[2].0 == "message"@);
    assert forall|key: Seq<char>| !keys.contains(key) implies (#[trigger] JsonView::Object(
        entries,
    ).field(key)) is None by {
        assert forall|i: int| 0 <= i < parts.len() implies (#[trigger] parts[i]).0 != key by {
            assert(keys[i] == parts[i].0);
        }
        lemma_laid_out(parts, key);
    }
}

/// What an object with some of these keys holds under each.
proof fn lemma_usage(
    entries: Seq<(Seq<char>, JsonView)>,
    v0: Option<JsonView>,
    v1: Option<JsonView>,
    v2: Option<JsonView>,
)
    requires
        entries == laid_out(
            seq![
                ("completion_tokens"@, v0),
                ("prompt_tokens"@, v1),
                ("total_tokens"@, v2),
            ],
        ),
    ensures
        JsonView::Object(entries).field("completion_tokens"@) == v0,
        JsonView::Object(entries).field("prompt_tokens"@) == v1,
        JsonView::Object(entries).field("total_tokens"@) == v2,
        has_only(
            JsonView::Object(entries),
            seq!["completion_tokens"@, "prompt_tokens"@, "total_tokens"@],
        ),
{
    reveal_strlit("completion_tokens");
    reveal_strlit("prompt_tokens");
    reveal_strlit("total_tokens");
    let parts: Seq<(Seq<char>, Option<JsonView>)> = seq![
        ("completion_tokens"@, v0),
        ("prompt_tokens"@, v1),
        ("total_tokens"@, v2),
    ];
    let keys = seq!["completion_tokens"@, "prompt_tokens"@, "total_tokens"@];
    assert("completion_tokens"@.len() != "prompt_tokens"@.len());
    assert("completion_tokens"@.len() != "total_tokens"@.len());
    assert("prompt_tokens"@.len() != "total_tokens"@.len());
    assert(keys_differ(parts));
    lemma_laid_out(parts, "completion_tokens"@);
    assert(parts[0].0 == "completion_tokens"@);
    lemma_laid_out(parts, "prompt_tokens"@);
    assert(parts[1].0 == "prompt_tokens"@);
    lemma_laid_out(parts, "total_tokens"@);
    assert(parts[2].0 == "total_tokens"@);
    assert forall|key: Seq<char>| !keys.contains(key) implies (#[trigger] JsonView::Object(
        entries,
    ).field(key)) is None by {
        assert forall|i: int| 0 <= i < parts.len() implies (#[trigger] parts[i]).0 != key by {
            assert(keys[i] == parts[i].0);
        }
        lemma_laid_out(parts, key);
    }
}

/// What an object with some of these keys holds under each.
proof fn lemma_response(
    entries: Seq<(Seq<char>, JsonView)>,
    v0: Option<JsonView>,
    v1: Option<JsonView>,
    v2: Option<JsonView>,
    v3: Option<JsonView>,
)
    requires
        entries == laid_out(
            seq![
                ("choices"@, v0),
                ("id"@, v1),
                ("model"@, v2),
                ("usage"@, v3),
            ],
        ),
    ensures
        JsonView::Object(entries).field("choices"@) == v0,
        JsonView::Object(entries).field("id"@) == v1,
        JsonView::Object(entries).field("model"@) == v2,
        JsonView::Object(entries).field("usage"@) == v3,
        has_only(
            JsonView::Object(entries),
            seq!["choices"@, "id"@, "model"@, "usage"@],
        ),
{
    reveal_strlit("choices");
    reveal_strlit("id");
    reveal_strlit("model");
    reveal_strlit("usage");
    let parts: Seq<(Seq<char>, Option<JsonView>)> = seq![
        ("choices"@, v0),
        ("id"@, v1),
        ("model"@, v2),
        ("usage"@, v3),
    ];
    let keys = seq!["choices"@, "id"@, "model"@, "usage"@];
    assert("choices"@.len() != "id"@.len());
    assert("choices"@.len() != "model"@.len());
    assert("choices"@.len() != "usage"@.len());
    assert("id"@.len() != "model"@.len());
    assert("id"@.len() != "usage"@.len());
    assert("model"@[0] != "usage"@[0]);
    assert(keys_differ(parts));
    lemma_laid_out(parts, "choices"@);
    assert(parts[0].0 == "choices"@);
    lemma_laid_out(parts, "id"@);
    assert(parts[1].0 == "id"@);
    lemma_laid_out(parts, "model"@);
    assert(parts[2].0 == "model"@);
    lemma_laid_out(parts, "usage"@);
    assert(parts[3].0 == "usage"@);
    assert forall|key: Seq<char>| !keys.contains(key) implies (#[trigger] JsonView::Object(
        entries,
    ).field(key)) is None by {
        assert forall|i: int| 0 <= i < parts.len() implies (#[trigger] parts[i]).0 != key by {
            assert(keys[i] == parts[i].0);
        }
        lemma_laid_out(parts, key);
    }
}

// ---------------------------------------------------------------------------
// What is told
// ---------------------------------------------------------------------------

/// The JSON of a tool call tells of the call.
pub proof fn calls_are_told(call: ToolCallView)
    ensures
        tells_call(call_json(call), call),
{
    let entries = call_json(call)->Object_0;
    let inner = entries[0].1->Object_0;
    let arguments = Some(JsonView::Text(call.arguments));
    let name = Some(JsonView::Text(call.name));
    {
        let parts: Seq<(Seq<char>, Option<JsonView>)> = seq![
            ("arguments"@, arguments),
            ("name"@, name),
        ];
        reveal_with_fuel(laid_out, 3);
        assert(inner =~= laid_out(parts));
        lemma_call_inner(inner, arguments, name);
    }
    let function = Some(entries[0].1);
    let id = Some(JsonView::Text(call.id));
    let kind = Some(JsonView::Text("function"@));
    let parts: Seq<(Seq<char>, Option<JsonView>)> = seq![
        ("function"@, function),
        ("id"@, id),
        ("type"@, kind),
    ];
    reveal_with_fuel(laid_out, 4);
    assert(entries =~= laid_out(parts));
    lemma_call_outer(entries, function, id, kind);
}

/// The JSON of a message tells of the message.
pub proof fn messages_are_told(m: ChatMessageView)
    ensures
        tells_message(message_json(m), m),
{
    let entries = message_json(m)->Object_0;
    let content = match m.content {
        Some(text) => Some(JsonView::Text(text)),
        None => None,
    };
    let role = Some(
        JsonView::Text(
            match m.role {
                Role::System => "system"@,
                Role::User => "user"@,
                Role::Assistant => "assistant"@,
                Role::Tool => "tool"@,
            },
        ),
    );
    let id = match m.tool_call_id {
        Some(text) => Some(JsonView::Text(text)),
        None => None,
    };
    let calls = match m.tool_calls {
        Some(calls) => Some(calls_json(calls)),
        None => None,
    };
    if let Some(all) = m.tool_calls {
        assert forall|i: int| 0 <= i < all.len() implies tells_call(
            (calls_json(all)->Array_0)[i],
            #[trigger] all[i],
        ) by {
            calls_are_told(all[i]);
        }
    }
    let parts: Seq<(Seq<char>, Option<JsonView>)> = seq![
        ("content"@, content),
        ("role"@, role),
        ("tool_call_id"@, id),
        ("tool_calls"@, calls),
    ];
    reveal_with_fuel(laid_out, 5);
    assert(entries =~= laid_out(parts));
    lemma_message(entries, content, role, id, calls);
}

/// The JSON of an advertised tool tells of the tool.
pub proof fn tools_are_told(tool: ChatToolView)
    ensures
        tells_tool(tool_json(tool), tool),
{
    let entries = tool_json(tool)->Object_0;
    let inner = entries[0].1->Object_0;
    let description = Some(JsonView::Text(tool.description));
    let name = Some(JsonView::Text(tool.name));
    let parameters = Some(tool.parameters);
    {
        let parts: Seq<(Seq<char>, Option<JsonView>)> = seq![
            ("description"@, description),
            ("name"@, name),
            ("parameters"@, parameters),
        ];
        reveal_with_fuel(laid_out, 4);
        assert(inner =~= laid_out(parts));
        lemma_tool_inner(inner, description, name, parameters);
    }
    let function = Some(entries[0].1);
    let kind = Some(JsonView::Text(tool.tool_type));
    let parts: Seq<(Seq<char>, Option<JsonView>)> = seq![("function"@, function), ("type"@, kind)];
    reveal_with_fuel(laid_out, 3);
    assert(entries =~= laid_out(parts));
    lemma_tool_outer(entries, function, kind);
}

/// The JSON of a request tells of the request.
pub proof fn requests_are_told(r: ChatRequestView)
    ensures
        tells_request(request_json(r), r),
{
    let entries = request_json(r)->Object_0;
    let messages = Some(messages_json(r.messages));
    let model = Some(JsonView::Text(r.model));
    let temperature = match r.temperature {
        Some(t) => Some(JsonView::Number(t)),
        None => None,
    };
    let choice = r.tool_choice;
    let tools = match r.tools {
        Some(tools) => Some(tools_json(tools)),
        None => None,
    };
    assert forall|i: int| 0 <= i < r.messages.len() implies tells_message(
        (messages_json(r.messages)->Array_0)[i],
        #[trigger] r.messages[i],
    ) by {
        messages_are_told(r.messages[i]);
    }
    if let Some(all) = r.tools {
        assert forall|i: int| 0 <= i < all.len() implies tells_tool(
            (tools_json(all)->Array_0)[i],
            #[trigger] all[i],
        ) by {
            tools_are_told(all[i]);
        }
    }
    let parts: Seq<(Seq<char>, Option<JsonView>)> = seq![
        ("messages"@, messages),
        ("model"@, model),
        ("temperature"@, temperature),
        ("tool_choice"@, choice),
        ("tools"@, tools),
    ];
    reveal_with_fuel(laid_out, 6);
    assert(entries =~= laid_out(parts));
    lemma_request(entries, messages, model, temperature, choice, tools);
}

/// The JSON of an answer tells of the answer.
pub proof fn choices_are_told(c: ChoiceView)
    ensures
        tells_choice(choice_json(c), c),
{
    let entries = choice_json(c)->Object_0;
    let reason = Some(entries[0].1);
    let index = Some(entries[1].1);
    let message = Some(message_json(c.message));
    messages_are_told(c.message);
    let parts: Seq<(Seq<char>, Option<JsonView>)> = seq![
        ("finish_reason"@, reason),
        ("index"@, index),
        ("message"@, message),
    ];
    reveal_with_fuel(laid_out, 4);
    assert(entries =~= laid_out(parts));
    lemma_choice(entries, reason, index, message);
}

/// The JSON of token counts tells of the counts.
pub proof fn usage_is_told(u: Usage)
    ensures
        tells_usage(usage_json(u), u),
{
    let entries = usage_json(u)->Object_0;
    let completion = Some(entries[0].1);
    let prompt = Some(entries[1].1);
    let both = Some(entries[2].1);
    let parts: Seq<(Seq<char>, Option<JsonView>)> = seq![
        ("completion_tokens"@, completion),
        ("prompt_tokens"@, prompt),
        ("total_tokens"@, both),
    ];
    reveal_with_fuel(laid_out, 4);
    assert(entries =~= laid_out(parts));
    lemma_usage(entries, completion, prompt, both);
}

/// The JSON of a response tells of the response.
pub proof fn responses_are_told(r: ChatResponseView)
    ensures
        tells_response(response_json(r), r),
{
    let entries = response_json(r)->Object_0;
    let choices = Some(entries[0].1);
    let id = Some(entries[1].1);
    let model = Some(entries[2].1);
    let usage = Some(entries[3].1);
    assert forall|i: int| 0 <= i < r.choices.len() implies tells_choice(
        (entries[0].1->Array_0)[i],
        #[trigger] r.choices[i],
    ) by {
        choices_are_told(r.choices[i]);
    }
    if let Some(u) = r.usage {
        usage_is_told(u);
    }
    let parts: Seq<(Seq<char>, Option<JsonView>)> = seq![
        ("choices"@, choices),
        ("id"@, id),
        ("model"@, model),
        ("usage"@, usage),
    ];
    reveal_with_fuel(laid_out, 5);
    assert(entries =~= laid_out(parts));
    lemma_response(entries, choices, id, model, usage);
}

// ---------------------------------------------------------------------------
// Reading back
// ---------------------------------------------------------------------------

/// A call can be read back: no two calls are told alike.
pub proof fn told_calls_are_read_back(j: JsonView, a: ToolCallView, b: ToolCallView)
    requires
        tells_call(j, a),
        tells_call(j, b),
    ensures
        a == b,
{
}

/// A message can be read back: no two messages are told alike.
pub proof fn told_messages_are_read_back(j: JsonView, a: ChatMessageView, b: ChatMessageView)
    requires
        tells_message(j, a),
        tells_message(j, b),
    ensures
        a == b,
{
    reveal_strlit("system");
    reveal_strlit("user");
    reveal_strlit("assistant");
    reveal_strlit("tool");
    assert("system"@.len() != "user"@.len() && "system"@.len() != "assistant"@.len()
        && "user"@.len() != "assistant"@.len() && "system"@.len() != "tool"@.len()
        && "assistant"@.len() != "tool"@.len());
    assert("user"@[0] != "tool"@[0]);
    if let Some(calls) = a.tool_calls {
        let others = b.tool_calls->0;
        assert forall|i: int| 0 <= i < calls.len() implies calls[i] == others[i] by {
            told_calls_are_read_back(
                (j.field("tool_calls"@)->0->Array_0)[i],
                calls[i],
                others[i],
            );
        }
        assert(calls =~= others);
    }
}

/// A request can be read back: no two requests are told alike.
pub proof fn told_requests_are_read_back(j: JsonView, a: ChatRequestView, b: ChatRequestView)
    requires
        tells_request(j, a),
        tells_request(j, b),
    ensures
        a == b,
{
    assert forall|i: int| 0 <= i < a.messages.len() implies a.messages[i] == b.messages[i] by {
        told_messages_are_read_back(
            (j.field("messages"@)->0->Array_0)[i],
            a.messages[i],
            b.messages[i],
        );
    }
    assert(a.messages =~= b.messages);
    if let Some(tools) = a.tools {
        let others = b.tools->0;
        let items = j.field("tools"@)->0->Array_0;
        assert forall|i: int| 0 <= i < tools.len() implies tools[i] == others[i] by {
            assert(tells_tool(items[i], tools[i]));
            assert(tells_tool(items[i], others[i]));
        }
        assert(tools =~= others);
    }
}

/// A response can be read back: no two responses are told alike.
pub proof fn told_responses_are_read_back(j: JsonView, a: ChatResponseView, b: ChatResponseView)
    requires
        tells_response(j, a),
        tells_response(j, b),
    ensures
        a == b,
{
    let items = j.field("choices"@)->0->Array_0;
    assert forall|i: int| 0 <= i < a.choices.len() implies a.choices[i] == b.choices[i] by {
        assert(tells_choice(items[i], a.choices[i]));
        assert(tells_choice(items[i], b.choices[i]));
        told_messages_are_read_back(
            items[i].field("message"@)->0,
            a.choices[i].message,
            b.choices[i].message,
        );
    }
    assert(a.choices =~= b.choices);
}

// ---------------------------------------------------------------------------
// What is written
// ---------------------------------------------------------------------------

/// What is written of a tool call tells of the call.
pub proof fn written_calls_tell_of_themselves(call: ToolCall, j: Json)
    requires
        call_ensures(ToolCall::to_json, (&call,), j),
    ensures
        tells_call(j@, call@),
{
    calls_are_told(call@);
}

/// What is written of a message tells of the message: its text, its calls and the id that it
/// answers are each there just where the message has them.
pub proof fn written_messages_tell_of_themselves(m: ChatMessage, j: Json)
    requires
        call_ensures(ChatMessage::to_json, (&m,), j),
    ensures
        tells_message(j@, m@),
{
    messages_are_told(m@);
}

/// What is written of an advertised tool tells of the tool.
pub proof fn written_tools_tell_of_themselves(tool: ChatTool, j: Json)
    requires
        call_ensures(ChatTool::to_json, (&tool,), j),
    ensures
        tells_tool(j@, tool@),
{
    tools_are_told(tool@);
}

/// What is written of a request tells of the request.
pub proof fn written_requests_tell_of_themselves(r: ChatRequest, j: Json)
    requires
        call_ensures(ChatRequest::to_json_pretty, (&r,), j),
    ensures
        tells_request(j@, r@),
{
    requests_are_told(r@);
}

/// What is written of an answer tells of the answer.
pub proof fn written_choices_tell_of_themselves(c: Choice, j: Json)
    requires
        call_ensures(Choice::to_json, (&c,), j),
    ensures
        tells_choice(j@, c@),
{
    choices_are_told(c@);
}

/// What is written of token counts tells of them.
pub proof fn written_usage_tells_of_itself(u: Usage, j: Json)
    requires
        call_ensures(Usage::to_json, (&u,), j),
    ensures
        tells_usage(j@, u),
{
    usage_is_told(u);
}

/// What is written of a response tells of the response.
pub proof fn written_responses_tell_of_themselves(r: ChatResponse, j: Json)
    requires
        call_ensures(ChatResponse::to_json, (&r,), j),
    ensures
        tells_response(j@, r@),
{
    responses_are_told(r@);
}

/// A call that is read has the id that was sent. Where a function is nested, name and
/// arguments are those within it, whatever stands beside; else they are those beside, with no
/// arguments where there are none. Only a call without any name is refused.
pub proof fn calls_are_read_off_the_wire(wire: WireToolCall, r: Result<ToolCall, String>)
    requires
        call_ensures(ToolCall::from_wire, (wire,), r),
    ensures
        r is Err <==> wire.function is None && wire.name is None,
        r matches Err(e) ==> e@ == "tool call missing function.name"@,
        r matches Ok(call) ==> call.id@ == wire.id@,
        wire.function matches Some(f) ==> (r->Ok_0).name@ == f.name@ && (r->Ok_0).arguments@
            == f.arguments@,
        wire.function is None ==> (wire.name matches Some(name) ==> (r->Ok_0).name@ == name@),
        wire.function is None && wire.name is Some ==> (match wire.arguments {
            Some(arguments) => (r->Ok_0).arguments@ == arguments@,
            None => (r->Ok_0).arguments@.len() == 0,
        }),
{
}

/// A call that is written and read again is the same call.
pub proof fn calls_come_back_from_the_wire(
    call: ToolCall,
    wire: WireToolCall,
    r: Result<ToolCall, String>,
)
    requires
        call_ensures(ToolCall::to_wire, (&call,), wire),
        call_ensures(ToolCall::from_wire, (wire,), r),
    ensures
        r matches Ok(back) && back@ == call@,
        wire.name is None && wire.arguments is None,
{
}

} // verus!
