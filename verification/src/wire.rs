//! The wire format: messages, requests and responses as JSON.
//!
//! The keys of each object stand in ascending order. An optional part of a message or a
//! request is left out where it is absent; an optional part of a response is null.
use vstd::prelude::*;
use crate::chat::{
    calls_view, chat_tools_view, json_error, messages_view, response_error, role_name,
    status_error, text_view, ChatClient, ChatMessage, ChatMessageView, ChatRequest,
    ChatRequestView, ChatResponse, ChatResponseView, ChatTool, ChatToolView, Choice, ChoiceView,
    Outgoing, OutgoingView, Reply, ToolCall, ToolCallView, Usage,
};
use crate::json::{
    entry_if_some, entry_views, first_with_key, int_or_null, item_views, parse_json, parsed,
    push_entry, text_or_null, Json, JsonView,
};

pub mod exchanges;
pub mod fields;
pub mod laws;

verus! {

// ---------------------------------------------------------------------------
// Tool calls
// ---------------------------------------------------------------------------

/// The `function` part of a tool call on the wire.
#[derive(Debug, PartialEq, Eq)]
pub struct WireFunction {
    pub name: String,
    pub arguments: String,
}

/// A tool call on the wire. The name and the arguments are nested in `function`; a flat
/// call that has them at the top level is understood too.
#[derive(Debug, PartialEq, Eq)]
pub struct WireToolCall {
    pub id: String,
    pub function: Option<WireFunction>,
    pub name: Option<String>,
    pub arguments: Option<String>,
}

/// What a [`WireToolCall`] says. `function` is a name and arguments.
pub struct WireToolCallView {
    pub id: Seq<char>,
    pub function: Option<(Seq<char>, Seq<char>)>,
    pub name: Option<Seq<char>>,
    pub arguments: Option<Seq<char>>,
}

impl View for WireToolCall {
    type V = WireToolCallView;

    open spec fn view(&self) -> WireToolCallView {
        WireToolCallView {
            id: self.id@,
            function: match self.function {
                Some(f) => Some((f.name@, f.arguments@)),
                None => None,
            },
            name: text_view(self.name),
            arguments: text_view(self.arguments),
        }
    }
}

/// How a tool call is written: nested.
pub open spec fn written(call: ToolCallView) -> WireToolCallView {
    WireToolCallView {
        id: call.id,
        function: Some((call.name, call.arguments)),
        name: None,
        arguments: None,
    }
}

/// How a tool call is read: nested if it is, else flat, where the name is required and
/// the arguments are empty if they are missing.
pub open spec fn read(wire: WireToolCallView) -> Result<ToolCallView, Seq<char>> {
    match wire.function {
        Some(f) => Ok(ToolCallView { id: wire.id, name: f.0, arguments: f.1 }),
        None => match wire.name {
            Some(name) => Ok(
                ToolCallView {
                    id: wire.id,
                    name,
                    arguments: match wire.arguments {
                        Some(arguments) => arguments,
                        None => Seq::empty(),
                    },
                },
            ),
            None => Err("tool call missing function.name"@),
        },
    }
}

/// Reading what was written gives the call back.
pub proof fn written_calls_are_read_back(call: ToolCallView)
    ensures
        read(written(call)) == Ok::<ToolCallView, Seq<char>>(call),
{
}

/// A tool call as JSON.
pub open spec fn call_json(call: ToolCallView) -> JsonView {
    JsonView::Object(
        seq![
            (
                "function"@,
                JsonView::Object(
                    seq![
                        ("arguments"@, JsonView::Text(call.arguments)),
                        ("name"@, JsonView::Text(call.name)),
                    ],
                ),
            ),
            ("id"@, JsonView::Text(call.id)),
            ("type"@, JsonView::Text("function"@)),
        ],
    )
}

/// The JSON of a tool call holds each part of it where the wire format has it.
pub proof fn call_json_holds_the_call(call: ToolCallView)
    ensures
        call_json(call).text_field("id"@) == Some(call.id),
        call_json(call).text_field("type"@) == Some("function"@),
        call_json(call).field("function"@) matches Some(f) && f.text_field("name"@) == Some(
            call.name,
        ) && f.text_field("arguments"@) == Some(call.arguments),
{
    reveal_strlit("function");
    reveal_strlit("arguments");
    reveal_strlit("name");
    reveal_strlit("id");
    reveal_strlit("type");
    let entries = call_json(call)->Object_0;
    let inner = entries[0].1->Object_0;
    reveal_with_fuel(first_with_key, 4);
    assert("function"@.len() != "id"@.len() && "function"@.len() != "type"@.len()
        && "id"@.len() != "type"@.len() && "arguments"@.len() != "name"@.len());
    assert(entries.drop_first()[0] == entries[1]);
    assert(entries.drop_first().drop_first()[0] == entries[2]);
    assert(inner.drop_first()[0] == inner[1]);
}

impl ToolCall {
    /// The call as it is written.
    pub fn to_wire(&self) -> (wire: WireToolCall)
        ensures
            wire@ == written(self@),
    {
        WireToolCall {
            id: self.id.clone(),
            function: Some(
                WireFunction { name: self.name.clone(), arguments: self.arguments.clone() },
            ),
            name: None,
            arguments: None,
        }
    }

    /// The call that was read, or why it is none.
    pub fn from_wire(wire: WireToolCall) -> (r: Result<ToolCall, String>)
        ensures
            (match r {
                Ok(call) => Ok(call@),
                Err(e) => Err(e@),
            }) == read(wire@),
    {
        match wire.function {
            Some(f) => Ok(ToolCall { id: wire.id, name: f.name, arguments: f.arguments }),
            None => match wire.name {
                Some(name) => Ok(
                    ToolCall {
                        id: wire.id,
                        name,
                        arguments: match wire.arguments {
                            Some(arguments) => arguments,
                            None => String::new(),
                        },
                    },
                ),
                None => Err("tool call missing function.name".to_owned()),
            },
        }
    }

    /// The call as JSON.
    pub fn to_json(&self) -> (j: Json)
        ensures
            j@ == call_json(self@),
    {
        let mut function: Vec<(String, Json)> = Vec::new();
        push_entry(&mut function, "arguments", Json::text(self.arguments.as_str()));
        push_entry(&mut function, "name", Json::text(self.name.as_str()));
        assert(entry_views(function@) =~= (call_json(self@)->Object_0)[0].1->Object_0);
        let mut call: Vec<(String, Json)> = Vec::new();
        push_entry(&mut call, "function", Json::object(function));
        push_entry(&mut call, "id", Json::text(self.id.as_str()));
        push_entry(&mut call, "type", Json::text("function"));
        assert(entry_views(call@) =~= call_json(self@)->Object_0);
        Json::object(call)
    }
}

// ---------------------------------------------------------------------------
// Messages
// ---------------------------------------------------------------------------

/// A text, where there is one.
pub open spec fn opt_text_json(text: Option<Seq<char>>) -> Option<JsonView> {
    match text {
        Some(text) => Some(JsonView::Text(text)),
        None => None,
    }
}

/// Tool calls as JSON.
pub open spec fn calls_json(calls: Seq<ToolCallView>) -> JsonView {
    JsonView::Array(Seq::new(calls.len(), |i: int| call_json(calls[i])))
}

/// A message as JSON.
pub open spec fn message_json(m: ChatMessageView) -> JsonView {
    JsonView::Object(
        entry_if_some("content"@, opt_text_json(m.content)) + seq![
            ("role"@, JsonView::Text(role_name(m.role))),
        ] + entry_if_some("tool_call_id"@, opt_text_json(m.tool_call_id)) + entry_if_some(
            "tool_calls"@,
            match m.tool_calls {
                Some(calls) => Some(calls_json(calls)),
                None => None,
            },
        ),
    )
}

/// Messages as JSON.
pub open spec fn messages_json(messages: Seq<ChatMessageView>) -> JsonView {
    JsonView::Array(Seq::new(messages.len(), |i: int| message_json(messages[i])))
}

/// Tool calls as JSON.
fn calls_to_json(calls: &Vec<ToolCall>) -> (j: Json)
    ensures
        j@ == calls_json(calls_view(calls@)),
{
    let mut items: Vec<Json> = Vec::new();
    let mut i: usize = 0;
    while i < calls.len()
        invariant
            i <= calls@.len(),
            items@.len() == i,
            forall|k: int| 0 <= k < i ==> (#[trigger] items@[k])@ == call_json(calls@[k]@),
        decreases calls@.len() - i,
    {
        items.push(calls[i].to_json());
        i += 1;
    }
    assert(item_views(items@) =~= calls_json(calls_view(calls@))->Array_0);
    Json::array(items)
}

impl ChatMessage {
    /// The message as JSON.
    pub fn to_json(&self) -> (j: Json)
        ensures
            j@ == message_json(self@),
    {
        let mut entries: Vec<(String, Json)> = Vec::new();
        assert(entry_views(entries@) =~= Seq::<(Seq<char>, JsonView)>::empty());
        match &self.content {
            Some(content) => {
                push_entry(&mut entries, "content", Json::text(content.as_str()));
            },
            None => {},
        }
        push_entry(&mut entries, "role", Json::text(self.role.as_str()));
        match &self.tool_call_id {
            Some(id) => {
                push_entry(&mut entries, "tool_call_id", Json::text(id.as_str()));
            },
            None => {},
        }
        match &self.tool_calls {
            Some(calls) => {
                push_entry(&mut entries, "tool_calls", calls_to_json(calls));
            },
            None => {},
        }
        assert(entry_views(entries@) =~= message_json(self@)->Object_0);
        Json::object(entries)
    }
}

/// Messages as JSON.
fn messages_to_json(messages: &Vec<ChatMessage>) -> (j: Json)
    ensures
        j@ == messages_json(messages_view(messages@)),
{
    let mut items: Vec<Json> = Vec::new();
    let mut i: usize = 0;
    while i < messages.len()
        invariant
            i <= messages@.len(),
            items@.len() == i,
            forall|k: int| 0 <= k < i ==> (#[trigger] items@[k])@ == message_json(messages@[k]@),
        decreases messages@.len() - i,
    {
        items.push(messages[i].to_json());
        i += 1;
    }
    assert(item_views(items@) =~= messages_json(messages_view(messages@))->Array_0);
    Json::array(items)
}

// ---------------------------------------------------------------------------
// Requests
// ---------------------------------------------------------------------------

/// An advertised tool as JSON.
pub open spec fn tool_json(tool: ChatToolView) -> JsonView {
    JsonView::Object(
        seq![
            (
                "function"@,
                JsonView::Object(
                    seq![
                        ("description"@, JsonView::Text(tool.description)),
                        ("name"@, JsonView::Text(tool.name)),
                        ("parameters"@, tool.parameters),
                    ],
                ),
            ),
            ("type"@, JsonView::Text(tool.tool_type)),
        ],
    )
}

/// Advertised tools as JSON.
pub open spec fn tools_json(tools: Seq<ChatToolView>) -> JsonView {
    JsonView::Array(Seq::new(tools.len(), |i: int| tool_json(tools[i])))
}

/// A request as JSON.
pub open spec fn request_json(r: ChatRequestView) -> JsonView {
    JsonView::Object(
        seq![("messages"@, messages_json(r.messages)), ("model"@, JsonView::Text(r.model))]
            + entry_if_some(
            "temperature"@,
            match r.temperature {
                Some(t) => Some(JsonView::Number(t)),
                None => None,
            },
        ) + entry_if_some("tool_choice"@, r.tool_choice) + entry_if_some(
            "tools"@,
            match r.tools {
                Some(tools) => Some(tools_json(tools)),
                None => None,
            },
        ),
    )
}

impl ChatTool {
    /// The tool as JSON.
    pub fn to_json(&self) -> (j: Json)
        ensures
            j@ == tool_json(self@),
    {
        let mut function: Vec<(String, Json)> = Vec::new();
        push_entry(&mut function, "description", Json::text(self.function.description.as_str()));
        push_entry(&mut function, "name", Json::text(self.function.name.as_str()));
        push_entry(&mut function, "parameters", self.function.parameters.clone());
        assert(entry_views(function@) =~= (tool_json(self@)->Object_0)[0].1->Object_0);
        let mut tool: Vec<(String, Json)> = Vec::new();
        push_entry(&mut tool, "function", Json::object(function));
        push_entry(&mut tool, "type", Json::text(self.tool_type.as_str()));
        assert(entry_views(tool@) =~= tool_json(self@)->Object_0);
        Json::object(tool)
    }
}

/// Advertised tools as JSON.
fn tools_to_json(tools: &Vec<ChatTool>) -> (j: Json)
    ensures
        j@ == tools_json(chat_tools_view(tools@)),
{
    let mut items: Vec<Json> = Vec::new();
    let mut i: usize = 0;
    while i < tools.len()
        invariant
            i <= tools@.len(),
            items@.len() == i,
            forall|k: int| 0 <= k < i ==> (#[trigger] items@[k])@ == tool_json(tools@[k]@),
        decreases tools@.len() - i,
    {
        items.push(tools[i].to_json());
        i += 1;
    }
    assert(item_views(items@) =~= tools_json(chat_tools_view(tools@))->Array_0);
    Json::array(items)
}

impl ChatRequest {
    /// The JSON that is posted for the request.
    pub fn to_json_pretty(&self) -> (j: Json)
        ensures
            j@ == request_json(self@),
    {
        let mut entries: Vec<(String, Json)> = Vec::new();
        push_entry(&mut entries, "messages", messages_to_json(&self.messages));
        push_entry(&mut entries, "model", Json::text(self.model.as_str()));
        match &self.temperature {
            Some(t) => {
                push_entry(&mut entries, "temperature", Json::Number(t.duplicate()));
            },
            None => {},
        }
        match &self.tool_choice {
            Some(choice) => {
                push_entry(&mut entries, "tool_choice", choice.clone());
            },
            None => {},
        }
        match &self.tools {
            Some(tools) => {
                push_entry(&mut entries, "tools", tools_to_json(tools));
            },
            None => {},
        }
        assert(entry_views(entries@) =~= request_json(self@)->Object_0);
        Json::object(entries)
    }
}

// ---------------------------------------------------------------------------
// Responses
// ---------------------------------------------------------------------------

/// An answer as JSON.
pub open spec fn choice_json(c: ChoiceView) -> JsonView {
    JsonView::Object(
        seq![
            ("finish_reason"@, text_or_null(c.finish_reason)),
            ("index"@, int_or_null(c.index)),
            ("message"@, message_json(c.message)),
        ],
    )
}

/// Token counts as JSON.
pub open spec fn usage_json(u: Usage) -> JsonView {
    JsonView::Object(
        seq![
            ("completion_tokens"@, int_or_null(u.completion_tokens)),
            ("prompt_tokens"@, int_or_null(u.prompt_tokens)),
            ("total_tokens"@, int_or_null(u.total_tokens)),
        ],
    )
}

/// A response as JSON.
pub open spec fn response_json(r: ChatResponseView) -> JsonView {
    JsonView::Object(
        seq![
            (
                "choices"@,
                JsonView::Array(Seq::new(r.choices.len(), |i: int| choice_json(r.choices[i]))),
            ),
            ("id"@, text_or_null(r.id)),
            ("model"@, text_or_null(r.model)),
            (
                "usage"@,
                match r.usage {
                    Some(u) => usage_json(u),
                    None => JsonView::Null,
                },
            ),
        ],
    )
}

impl Choice {
    /// The answer as JSON.
    pub fn to_json(&self) -> (j: Json)
        ensures
            j@ == choice_json(self@),
    {
        let mut entries: Vec<(String, Json)> = Vec::new();
        push_entry(&mut entries, "finish_reason", Json::text_or_null(&self.finish_reason));
        push_entry(&mut entries, "index", Json::int_or_null(self.index));
        push_entry(&mut entries, "message", self.message.to_json());
        assert(entry_views(entries@) =~= choice_json(self@)->Object_0);
        Json::object(entries)
    }
}

impl Usage {
    /// The token counts as JSON.
    pub fn to_json(&self) -> (j: Json)
        ensures
            j@ == usage_json(*self),
    {
        let mut entries: Vec<(String, Json)> = Vec::new();
        push_entry(&mut entries, "completion_tokens", Json::int_or_null(self.completion_tokens));
        push_entry(&mut entries, "prompt_tokens", Json::int_or_null(self.prompt_tokens));
        push_entry(&mut entries, "total_tokens", Json::int_or_null(self.total_tokens));
        assert(entry_views(entries@) =~= usage_json(*self)->Object_0);
        Json::object(entries)
    }
}

impl ChatResponse {
    /// The response as JSON.
    pub fn to_json(&self) -> (j: Json)
        ensures
            j@ == response_json(self@),
    {
        let mut items: Vec<Json> = Vec::new();
        let mut i: usize = 0;
        while i < self.choices.len()
            invariant
                i <= self.choices@.len(),
                items@.len() == i,
                forall|k: int|
                    0 <= k < i ==> (#[trigger] items@[k])@ == choice_json(self.choices@[k]@),
            decreases self.choices@.len() - i,
        {
            items.push(self.choices[i].to_json());
            i += 1;
        }
        assert(item_views(items@) =~= (response_json(self@)->Object_0)[0].1->Array_0);
        let mut entries: Vec<(String, Json)> = Vec::new();
        push_entry(&mut entries, "choices", Json::array(items));
        push_entry(&mut entries, "id", Json::text_or_null(&self.id));
        push_entry(&mut entries, "model", Json::text_or_null(&self.model));
        push_entry(
            &mut entries,
            "usage",
            match &self.usage {
                Some(u) => u.to_json(),
                None => Json::Null,
            },
        );
        assert(entry_views(entries@) =~= response_json(self@)->Object_0);
        Json::object(entries)
    }
}

// ---------------------------------------------------------------------------
// Exchanges
// ---------------------------------------------------------------------------

/// What a client sends for a request.
pub open spec fn outgoing_spec(client: ChatClient, request: ChatRequestView) -> OutgoingView {
    OutgoingView {
        url: client.base_url@ + "/chat/completions"@,
        authorization: match text_view(client.api_key) {
            Some(key) => Some("Bearer "@ + key),
            None => None,
        },
        body: request_json(request),
    }
}

/// Whether `sent` may have been answered by `transport` with `reply`.
pub open spec fn answers<T: Fn(&Outgoing) -> Result<Reply, String>>(
    transport: T,
    sent: OutgoingView,
    reply: Result<Reply, String>,
) -> bool {
    exists|outgoing: Outgoing| #[trigger]
        call_ensures(transport, (&outgoing,), reply) && outgoing@ == sent
}

/// Whether `transport` accepts what is to be sent.
pub open spec fn takes<T: Fn(&Outgoing) -> Result<Reply, String>>(
    transport: T,
    sent: OutgoingView,
) -> bool {
    forall|outgoing: Outgoing|
        outgoing@ == sent ==> #[trigger] call_requires(transport, (&outgoing,))
}

/// Whether `decode` accepts the body of a reply, if the status is one of success. Nothing is
/// asked of it where it is not.
pub open spec fn can_read<D: Fn(&str) -> Result<ChatResponse, String>>(
    decode: D,
    reply: Reply,
) -> bool {
    reply.success ==> forall|body: &str|
        body@ == reply.body@ ==> #[trigger] call_requires(decode, (body,))
}

/// Whether `transport` accepts what a client sends for a request, and `decode` the replies
/// that may come back for it.
pub open spec fn can_exchange<
    T: Fn(&Outgoing) -> Result<Reply, String>,
    D: Fn(&str) -> Result<ChatResponse, String>,
>(client: ChatClient, transport: T, decode: D, request: ChatRequestView) -> bool {
    &&& takes(transport, outgoing_spec(client, request))
    &&& forall|reply: Reply| #[trigger]
        answers(transport, outgoing_spec(client, request), Ok(reply)) ==> can_read(decode, reply)
}

/// Whether `r` may be what `decode` makes of a reply: an error that quotes the body where
/// the status is not one of success or the body is refused.
pub open spec fn accepts<D: Fn(&str) -> Result<ChatResponse, String>>(
    decode: D,
    reply: Reply,
    r: Result<ChatResponse, String>,
) -> bool {
    if reply.success {
        exists|body: &str, decoded: Result<ChatResponse, String>| #[trigger]
            call_ensures(decode, (body,), decoded) && body@ == reply.body@ && match decoded {
                Ok(response) => r == Ok::<ChatResponse, String>(response),
                Err(e) => r matches Err(text) && text@ == response_error(e@, reply.body@),
            }
    } else {
        r matches Err(text) && text@ == status_error(reply.status@, reply.body@)
    }
}

/// Whether `r` may be what sending a request over `transport` and reading the reply with
/// `decode` gives.
pub open spec fn may_complete<
    T: Fn(&Outgoing) -> Result<Reply, String>,
    D: Fn(&str) -> Result<ChatResponse, String>,
>(
    client: ChatClient,
    transport: T,
    decode: D,
    request: ChatRequestView,
    r: Result<ChatResponse, String>,
) -> bool {
    exists|reply: Result<Reply, String>| #[trigger]
        answers(transport, outgoing_spec(client, request), reply) && match reply {
            Ok(reply) => accepts(decode, reply, r),
            Err(e) => r == Err::<ChatResponse, String>(e),
        }
}

/// A response, with the body that it was read from.
#[derive(Debug, PartialEq, Eq)]
pub struct Exchange {
    pub response: ChatResponse,
    /// The body, as JSON.
    pub raw: Json,
}

/// The body of a response as JSON, with all that it holds. A body that holds what no value
/// can, such as a number out of range in a part that responses do not know, is no JSON value:
/// then the response is written out anew.
pub open spec fn body_or_written(body: Seq<char>, response: ChatResponseView) -> JsonView {
    match parsed(body) {
        Ok(raw) => raw,
        Err(_) => response_json(response),
    }
}

/// Whether `r` is a response that was read from `body` together with the body itself.
pub open spec fn keeps_body(
    body: Seq<char>,
    read: Result<ChatResponse, String>,
    r: Result<Exchange, String>,
) -> bool {
    match read {
        Err(e) => r == Err::<Exchange, String>(e),
        Ok(response) => r is Ok && (r->Ok_0).response == response && (r->Ok_0).raw@
            == body_or_written(body, response@),
    }
}

/// Whether `r` may be what sending a request over `transport` and reading the reply with
/// `decode` gives, with the body of the reply.
pub open spec fn may_exchange<
    T: Fn(&Outgoing) -> Result<Reply, String>,
    D: Fn(&str) -> Result<ChatResponse, String>,
>(
    client: ChatClient,
    transport: T,
    decode: D,
    request: ChatRequestView,
    r: Result<Exchange, String>,
) -> bool {
    exists|reply: Result<Reply, String>| #[trigger]
        answers(transport, outgoing_spec(client, request), reply) && match reply {
            Ok(reply) => exists|read: Result<ChatResponse, String>| #[trigger]
                accepts(decode, reply, read) && keeps_body(reply.body@, read, r),
            Err(e) => r == Err::<Exchange, String>(e),
        }
}

/// What a reply is as raw JSON: an error that quotes the body where the status is not one
/// of success or the body is no JSON.
pub open spec fn raw_reply(success: bool, status: Seq<char>, body: Seq<char>) -> Result<
    JsonView,
    Seq<char>,
> {
    if success {
        match parsed(body) {
            Ok(j) => Ok(j),
            Err(e) => Err(json_error(e, body)),
        }
    } else {
        Err(status_error(status, body))
    }
}

/// The error for a status that is not one of success.
fn status_message(status: &str, body: &str) -> (text: String)
    ensures
        text@ == status_error(status@, body@),
{
    let mut text = "endpoint returned ".to_owned();
    text.append(status);
    text.append(": ");
    text.append(body);
    text
}

/// Reads a reply, with `decode` to turn its body into a response.
pub fn read_reply<D: Fn(&str) -> Result<ChatResponse, String>>(reply: &Reply, decode: &D) -> (r: Result<
    ChatResponse,
    String,
>)
    requires
        can_read(*decode, *reply),
    ensures
        accepts(*decode, *reply, r),
{
    if !reply.success {
        return Err(status_message(reply.status.as_str(), reply.body.as_str()));
    }
    let body = reply.body.as_str();
    let decoded = decode(body);
    let ghost came = decoded;
    assert(call_ensures(*decode, (body,), came));
    match decoded {
        Ok(response) => Ok(response),
        Err(e) => {
            let mut text = "failed to parse response: ".to_owned();
            text.append(e.as_str());
            text.append("\n");
            text.append(reply.body.as_str());
            Err(text)
        },
    }
}

/// The error for a body that is no JSON.
fn json_message(e: &str, body: &str) -> (text: String)
    ensures
        text@ == json_error(e@, body@),
{
    let mut text = "invalid json: ".to_owned();
    text.append(e);
    text.append("\n");
    text.append(body);
    text
}

/// Puts a response together with the body that it was read from.
pub fn keep_body(body: &str, read: Result<ChatResponse, String>) -> (r: Result<Exchange, String>)
    ensures
        keeps_body(body@, read, r),
{
    match read {
        Err(e) => Err(e),
        Ok(response) => match parse_json(body) {
            Ok(raw) => Ok(Exchange { response, raw }),
            Err(_) => {
                let raw = response.to_json();
                Ok(Exchange { response, raw })
            },
        },
    }
}

/// Reads a reply as raw JSON.
pub fn read_raw_reply(reply: &Reply) -> (r: Result<Json, String>)
    ensures
        (match r {
            Ok(j) => Ok(j@),
            Err(e) => Err(e@),
        }) == raw_reply(reply.success, reply.status@, reply.body@),
{
    if !reply.success {
        return Err(status_message(reply.status.as_str(), reply.body.as_str()));
    }
    match parse_json(reply.body.as_str()) {
        Ok(j) => Ok(j),
        Err(e) => Err(json_message(e.as_str(), reply.body.as_str())),
    }
}

impl ChatClient {
    /// What is sent for a request.
    pub fn outgoing(&self, request: &ChatRequest) -> (sent: Outgoing)
        ensures
            sent@ == outgoing_spec(*self, request@),
    {
        Outgoing {
            url: self.chat_api_url(),
            authorization: self.authorization(),
            body: request.to_json_pretty(),
        }
    }

    /// Sends one request over `transport` and reads the reply, with `decode` to turn its
    /// body into a response.
    ///
    /// A status that is not one of success is an error that quotes the body.
    pub fn complete<
        T: Fn(&Outgoing) -> Result<Reply, String>,
        D: Fn(&str) -> Result<ChatResponse, String>,
    >(&self, request: &ChatRequest, transport: &T, decode: &D) -> (r: Result<ChatResponse, String>)
        requires
            can_exchange(*self, *transport, *decode, request@),
        ensures
            may_complete(*self, *transport, *decode, request@, r),
    {
        let sent = self.outgoing(request);
        let reply = transport(&sent);
        let ghost came = reply;
        assert(answers(*transport, outgoing_spec(*self, request@), came));
        match reply {
            Ok(reply) => read_reply(&reply, decode),
            Err(e) => Err(e),
        }
    }

    /// Sends one request over `transport` and reads the reply, with `decode` to turn its
    /// body into a response. The body is kept.
    pub fn exchange<
        T: Fn(&Outgoing) -> Result<Reply, String>,
        D: Fn(&str) -> Result<ChatResponse, String>,
    >(&self, request: &ChatRequest, transport: &T, decode: &D) -> (r: Result<Exchange, String>)
        requires
            can_exchange(*self, *transport, *decode, request@),
        ensures
            may_exchange(*self, *transport, *decode, request@, r),
    {
        let sent = self.outgoing(request);
        let reply = transport(&sent);
        let ghost came = reply;
        assert(answers(*transport, outgoing_spec(*self, request@), came));
        match reply {
            Ok(reply) => {
                let read = read_reply(&reply, decode);
                let ghost got = read;
                assert(accepts(*decode, reply, got));
                keep_body(reply.body.as_str(), read)
            },
            Err(e) => Err(e),
        }
    }

    /// Sends one request over `transport` and gives the body of the reply as raw JSON.
    pub fn complete_raw<T: Fn(&Outgoing) -> Result<Reply, String>>(
        &self,
        request: &ChatRequest,
        transport: &T,
    ) -> (r: Result<Json, String>)
        requires
            takes(*transport, outgoing_spec(*self, request@)),
        ensures
            exists|reply: Result<Reply, String>| #[trigger]
                answers(*transport, outgoing_spec(*self, request@), reply) && (match r {
                    Ok(j) => Ok(j@),
                    Err(e) => Err(e@),
                }) == (match reply {
                    Ok(reply) => raw_reply(reply.success, reply.status@, reply.body@),
                    Err(e) => Err(e@),
                }),
    {
        let sent = self.outgoing(request);
        let reply = transport(&sent);
        let ghost came = reply;
        assert(answers(*transport, outgoing_spec(*self, request@), came));
        match reply {
            Ok(reply) => read_raw_reply(&reply),
            Err(e) => Err(e),
        }
    }
}

} // verus!
