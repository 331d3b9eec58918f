//! What messages, requests and clients hold.
use vstd::prelude::*;
use crate::chat::{
    call_names, calls_view, copy_calls, copy_messages, copy_text, copy_text_or_empty, default_model, messages_view, render_messages,
    rendered_message, rendered_messages, renderings_are_joined, simple_request, usual_temperature,
    ChatClient, ChatMessage, ChatMessageView, ChatRequest, ChatResponse, ChatTool, Role, ToolCall,
};
use crate::json::{Json, JsonNumber, NumberView};
use crate::text::joined;
use crate::text::laws::only_the_end_is_trimmed;

verus! {

// ---------------------------------------------------------------------------
// Messages
// ---------------------------------------------------------------------------

/// Each role has its own name.
pub proof fn roles_have_their_names(role: Role, name: &str)
    requires
        call_ensures(Role::as_str, (&role,), name),
    ensures
        name@ == (match role {
            Role::System => "system"@,
            Role::User => "user"@,
            Role::Assistant => "assistant"@,
            Role::Tool => "tool"@,
        }),
{
}

/// A message says what it holds: each part is there just where the message has it.
pub proof fn messages_say_what_they_hold(m: ChatMessage)
    ensures
        m@.role == m.role,
        match m.content {
            Some(text) => m@.content == Some(text@),
            None => m@.content is None,
        },
        match m.tool_call_id {
            Some(id) => m@.tool_call_id == Some(id@),
            None => m@.tool_call_id is None,
        },
        match m.tool_calls {
            Some(calls) => m@.tool_calls matches Some(said) && said.len() == calls@.len()
                && forall|i: int|
                0 <= i < calls@.len() ==> (#[trigger] said[i]).id == calls@[i].id@ && said[i].name
                    == calls@[i].name@ && said[i].arguments == calls@[i].arguments@,
            None => m@.tool_calls is None,
        },
{
}

/// A message of the system, of the user or of the assistant holds the text and nothing else.
pub proof fn plain_messages_hold_the_text(
    content: &str,
    system: ChatMessage,
    user: ChatMessage,
    assistant: ChatMessage,
)
    requires
        call_ensures(ChatMessage::system, (content,), system),
        call_ensures(ChatMessage::user, (content,), user),
        call_ensures(ChatMessage::assistant, (content,), assistant),
    ensures
        system@.role == Role::System && user@.role == Role::User && assistant@.role
            == Role::Assistant,
        system@.content == Some(content@),
        user@.content == Some(content@),
        assistant@.content == Some(content@),
        system@.tool_calls is None && system@.tool_call_id is None,
        user@.tool_calls is None && user@.tool_call_id is None,
        assistant@.tool_calls is None && assistant@.tool_call_id is None,
{
}

/// A message that asks for calls holds them and nothing else; one that answers a call holds
/// the id and the text and nothing else.
pub proof fn calls_and_answers_hold_their_parts(
    calls: Vec<ToolCall>,
    id: &str,
    content: &str,
    asking: ChatMessage,
    answering: ChatMessage,
)
    requires
        call_ensures(ChatMessage::assistant_with_tool_calls, (calls,), asking),
        call_ensures(ChatMessage::tool_result, (id, content), answering),
    ensures
        asking@.role == Role::Assistant && answering@.role == Role::Tool,
        asking@.content is None && asking@.tool_call_id is None,
        asking@.tool_calls == Some(calls_view(calls@)),
        answering@.content == Some(content@),
        answering@.tool_call_id == Some(id@),
        answering@.tool_calls is None,
{
}

/// A text that may be missing is copied as it is, or as an empty one.
pub proof fn missing_texts_are_empty(text: Option<String>, copy: String)
    requires
        call_ensures(copy_text_or_empty, (&text,), copy),
    ensures
        match text {
            Some(text) => copy@ == text@,
            None => copy@.len() == 0,
        },
{
}

// ---------------------------------------------------------------------------
// Renderings
// ---------------------------------------------------------------------------

/// One message is rendered as its role in brackets, its text, whatever calls come with it,
/// and, where it asks for calls, the names of the tools in order.
pub proof fn messages_are_rendered_part_by_part(m: ChatMessageView)
    ensures
        rendered_message(m) == "["@ + (match m.role {
            Role::System => "system"@,
            Role::User => "user"@,
            Role::Assistant => "assistant"@,
            Role::Tool => "tool"@,
        }) + "] "@ + (match m.content {
            Some(text) => text,
            None => Seq::empty(),
        }) + (match m.tool_calls {
            Some(calls) => "→ tools: "@ + joined(
                Seq::new(calls.len(), |i: int| calls[i].name),
                ", "@,
            ),
            None => Seq::empty(),
        }) + "\n"@,
{
    if let Some(calls) = m.tool_calls {
        assert(call_names(calls) =~= Seq::new(calls.len(), |i: int| calls[i].name));
    }
}

/// A conversation of one message is rendered as that message, and conversations in a row as
/// their renderings in a row; nothing is rendered as nothing.
pub proof fn conversations_are_rendered_in_order(
    a: &[ChatMessage],
    b: &[ChatMessage],
    both: &[ChatMessage],
    of_a: String,
    of_b: String,
    of_both: String,
)
    requires
        both@ == a@ + b@,
        call_ensures(render_messages, (a,), of_a),
        call_ensures(render_messages, (b,), of_b),
        call_ensures(render_messages, (both,), of_both),
    ensures
        of_both@ == of_a@ + of_b@,
        a@.len() == 0 ==> of_a@.len() == 0,
        a@.len() == 1 ==> of_a@ == rendered_message(a@[0]@),
{
    assert(messages_view(both@) =~= messages_view(a@) + messages_view(b@));
    renderings_are_joined(messages_view(a@), messages_view(b@));
    if a@.len() == 1 {
        let one = messages_view(a@);
        assert(one.drop_last() =~= Seq::<ChatMessageView>::empty());
        assert(one.last() == a@[0]@);
        assert(rendered_messages(one.drop_last()) =~= Seq::<char>::empty());
        assert(rendered_messages(one) =~= rendered_message(a@[0]@));
    }
}

// ---------------------------------------------------------------------------
// Requests
// ---------------------------------------------------------------------------

/// A small request holds the model, the two messages, no tools, and the usual temperature.
pub proof fn simple_requests_hold_two_messages(
    model: &str,
    system: &str,
    user: &str,
    request: ChatRequest,
)
    requires
        call_ensures(simple_request, (model, system, user), request),
    ensures
        request@.model == model@,
        request@.messages.len() == 2,
        request@.messages[0].role == Role::System && request@.messages[0].content == Some(system@),
        request@.messages[1].role == Role::User && request@.messages[1].content == Some(user@),
        forall|i: int|
            0 <= i < 2 ==> (#[trigger] request@.messages[i]).tool_calls is None
                && request@.messages[i].tool_call_id is None,
        request@.tools is None,
        request@.tool_choice is None,
        request@.temperature == Some(NumberView::Float("0.2"@)),
{
}

/// The usual temperature is a fifth.
pub proof fn the_usual_temperature(t: JsonNumber)
    requires
        call_ensures(usual_temperature, (), t),
    ensures
        t@ == NumberView::Float("0.2"@),
{
}

/// A tool is advertised as a function, with what is handed in.
pub proof fn functions_are_advertised(
    name: &str,
    description: &str,
    parameters: Json,
    tool: ChatTool,
)
    requires
        call_ensures(ChatTool::function, (name, description, parameters), tool),
    ensures
        tool.tool_type@ == "function"@,
        tool.function.name@ == name@,
        tool.function.description@ == description@,
        tool.function.parameters@ == parameters@,
{
    assert(tool@.tool_type == tool.tool_type@);
    assert(tool@.name == tool.function.name@);
    assert(tool@.description == tool.function.description@);
    assert(tool@.parameters == tool.function.parameters@);
}

/// The model is the configured one, as it is, or a usual one.
pub proof fn the_configured_model_is_used(configured: Option<String>, model: String)
    requires
        call_ensures(default_model, (configured,), model),
    ensures
        match configured {
            Some(name) => model@ == name@,
            None => model@ == "gpt-4o-mini"@,
        },
{
}

// ---------------------------------------------------------------------------
// Clients
// ---------------------------------------------------------------------------

/// A client has the URL without the slashes at its end, and the key as it is.
pub proof fn clients_drop_trailing_slashes(
    base_url: &str,
    api_key: Option<String>,
    client: ChatClient,
)
    requires
        call_ensures(ChatClient::new, (base_url, api_key), client),
    ensures
        client.base_url@.is_prefix_of(base_url@),
        client.base_url@.len() > 0 ==> client.base_url@.last() != '/',
        forall|i: int| client.base_url@.len() <= i < base_url@.len() ==> base_url@[i] == '/',
        match api_key {
            Some(key) => client.api_key is Some && (client.api_key->0)@ == key@,
            None => client.api_key is None,
        },
{
    only_the_end_is_trimmed(base_url@, '/');
}

/// A client for what the environment says has the URL that is found there, or the usual one,
/// without slashes at its end; and the key, unless it is empty.
pub proof fn clients_go_by_the_environment(
    base_url: Option<String>,
    api_key: Option<String>,
    client: ChatClient,
)
    requires
        call_ensures(ChatClient::from_env, (base_url, api_key), client),
    ensures
        ({
            let url = match base_url {
                Some(url) => url@,
                None => "https://api.openai.com/v1"@,
            };
            &&& client.base_url@.is_prefix_of(url)
            &&& client.base_url@.len() > 0 ==> client.base_url@.last() != '/'
            &&& forall|i: int| client.base_url@.len() <= i < url.len() ==> url[i] == '/'
        }),
        client.api_key is Some <==> api_key is Some && (api_key->0)@.len() > 0,
        client.api_key is Some ==> (client.api_key->0)@ == (api_key->0)@,
{
    let url = match base_url {
        Some(url) => url@,
        None => "https://api.openai.com/v1"@,
    };
    only_the_end_is_trimmed(url, '/');
}

/// Requests go to the completions of the endpoint, with the key as bearer where there is one.
pub proof fn requests_go_to_the_endpoint(
    client: ChatClient,
    url: String,
    header: Option<String>,
)
    requires
        call_ensures(ChatClient::chat_api_url, (&client,), url),
        call_ensures(ChatClient::authorization, (&client,), header),
    ensures
        url@ == client.base_url@ + "/chat/completions"@,
        match client.api_key {
            Some(key) => header is Some && (header->0)@ == "Bearer "@ + key@,
            None => header is None,
        },
{
}

// ---------------------------------------------------------------------------
// What is said
// ---------------------------------------------------------------------------

/// Lists of calls and messages say what their members say, in order.
pub proof fn lists_say_what_their_members_say(calls: Seq<ToolCall>, messages: Seq<ChatMessage>)
    ensures
        calls_view(calls).len() == calls.len(),
        forall|i: int| 0 <= i < calls.len() ==> (#[trigger] calls_view(calls)[i]) == calls[i]@,
        messages_view(messages).len() == messages.len(),
        forall|i: int|
            0 <= i < messages.len() ==> (#[trigger] messages_view(messages)[i]) == messages[i]@,
{
}

/// A request says what it holds.
pub proof fn requests_say_what_they_hold(r: ChatRequest)
    ensures
        r@.model == r.model@,
        r@.messages.len() == r.messages@.len(),
        forall|i: int|
            0 <= i < r.messages@.len() ==> (#[trigger] r@.messages[i]) == r.messages@[i]@,
        match r.tools {
            Some(tools) => r@.tools matches Some(said) && said.len() == tools@.len() && forall|
                i: int,
            |
                0 <= i < tools@.len() ==> {
                    &&& (#[trigger] said[i]).tool_type == tools@[i].tool_type@
                    &&& said[i].name == tools@[i].function.name@
                    &&& said[i].description == tools@[i].function.description@
                    &&& said[i].parameters == tools@[i].function.parameters@
                },
            None => r@.tools is None,
        },
        match r.tool_choice {
            Some(choice) => r@.tool_choice == Some(choice@),
            None => r@.tool_choice is None,
        },
        match r.temperature {
            Some(t) => r@.temperature == Some(t@),
            None => r@.temperature is None,
        },
{
}

/// A response says what it holds.
pub proof fn responses_say_what_they_hold(r: ChatResponse)
    ensures
        match r.id {
            Some(id) => r@.id == Some(id@),
            None => r@.id is None,
        },
        match r.model {
            Some(model) => r@.model == Some(model@),
            None => r@.model is None,
        },
        r@.usage == r.usage,
        r@.choices.len() == r.choices@.len(),
        forall|i: int|
            0 <= i < r.choices@.len() ==> {
                let said = #[trigger] r@.choices[i];
                &&& said.index == r.choices@[i].index
                &&& said.message == r.choices@[i].message@
                &&& match r.choices@[i].finish_reason {
                    Some(reason) => said.finish_reason == Some(reason@),
                    None => said.finish_reason is None,
                }
            },
{
}

/// Copies say the same.
pub proof fn copies_say_the_same(
    text: Option<String>,
    calls: Vec<ToolCall>,
    messages: Vec<ChatMessage>,
    of_text: Option<String>,
    of_calls: Vec<ToolCall>,
    of_messages: Vec<ChatMessage>,
)
    requires
        call_ensures(copy_text, (&text,), of_text),
        call_ensures(copy_calls, (&calls,), of_calls),
        call_ensures(copy_messages, (&messages,), of_messages),
    ensures
        of_text is Some <==> text is Some,
        text is Some ==> (of_text->0)@ == (text->0)@,
        of_calls@.len() == calls@.len(),
        forall|i: int| 0 <= i < calls@.len() ==> (#[trigger] of_calls@[i])@ == calls@[i]@,
        of_messages@.len() == messages@.len(),
        forall|i: int| 0 <= i < messages@.len() ==> (#[trigger] of_messages@[i])@ == messages@[i]@,
{
    let views = messages_view(of_messages@);
    assert(views.len() == of_messages@.len());
    assert forall|i: int| 0 <= i < messages@.len() implies (#[trigger] of_messages@[i])@
        == messages@[i]@ by {
        assert(views[i] == of_messages@[i]@);
        assert(messages_view(messages@)[i] == messages@[i]@);
    }
}

/// A copy of a message, of a tool, of a request or of a response says the same.
pub proof fn copies_of_parts_say_the_same(
    m: ChatMessage,
    tool: ChatTool,
    request: ChatRequest,
    response: ChatResponse,
    of_m: ChatMessage,
    of_tool: ChatTool,
    of_request: ChatRequest,
    of_response: ChatResponse,
)
    requires
        call_ensures(ChatMessage::clone, (&m,), of_m),
        call_ensures(ChatTool::clone, (&tool,), of_tool),
        call_ensures(ChatRequest::clone, (&request,), of_request),
        call_ensures(ChatResponse::clone, (&response,), of_response),
    ensures
        of_m@ == m@,
        of_tool@ == tool@,
        of_request@ == request@,
        of_response@ == response@,
{
}

} // verus!
