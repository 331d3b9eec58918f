//! Chat: messages, requests and responses in the format of OpenAI-compatible
//! chat-completion endpoints, and the client's side of one exchange.
use vstd::prelude::*;
use crate::json::{parse_json, Json, JsonNumber, JsonView, NumberView};
use crate::text::{join, joined, texts, trim_trailing, without_trailing};

pub use crate::json::pretty;

pub mod laws;

verus! {

/// What an optional string holds.
pub open spec fn text_view(text: Option<String>) -> Option<Seq<char>> {
    match text {
        Some(text) => Some(text@),
        None => None,
    }
}

/// The text, or nothing at all where there is none.
pub open spec fn text_or_empty(text: Option<Seq<char>>) -> Seq<char> {
    match text {
        Some(text) => text,
        None => Seq::empty(),
    }
}

/// The same optional string once more.
pub fn copy_text(text: &Option<String>) -> (copy: Option<String>)
    ensures
        copy == *text,
{
    match text {
        Some(text) => Some(text.clone()),
        None => None,
    }
}

/// The same optional string once more, or an empty one where there is none.
pub fn copy_text_or_empty(text: &Option<String>) -> (copy: String)
    ensures
        copy@ == text_or_empty(text_view(*text)),
{
    match text {
        Some(text) => text.clone(),
        None => String::new(),
    }
}

// ---------------------------------------------------------------------------
// Messages
// ---------------------------------------------------------------------------

/// Who a message is from.
#[derive(Debug, Clone, Copy, PartialEq, Eq, Structural)]
pub enum Role {
    System,
    User,
    Assistant,
    Tool,
}

/// The name of a role on the wire.
pub open spec fn role_name(role: Role) -> Seq<char> {
    match role {
        Role::System => "system"@,
        Role::User => "user"@,
        Role::Assistant => "assistant"@,
        Role::Tool => "tool"@,
    }
}

impl Role {
    /// The name of the role on the wire.
    pub fn as_str(&self) -> (name: &'static str)
        ensures
            name@ == role_name(*self),
    {
        match self {
            Role::System => "system",
            Role::User => "user",
            Role::Assistant => "assistant",
            Role::Tool => "tool",
        }
    }
}

/// A tool call that the assistant asks for.
///
/// The model does not run a tool: it declares that it wants to call one. Turning the
/// declaration into a result is the loop's part.
#[derive(Debug, PartialEq, Eq)]
pub struct ToolCall {
    /// The id that the model gave to the call. The result echoes it, so that the model
    /// can tell which result answers which call.
    pub id: String,
    /// The name of the tool.
    pub name: String,
    /// The arguments, as the model wrote them: a JSON text.
    pub arguments: String,
}

/// What a [`ToolCall`] says.
pub struct ToolCallView {
    pub id: Seq<char>,
    pub name: Seq<char>,
    pub arguments: Seq<char>,
}

impl View for ToolCall {
    type V = ToolCallView;

    open spec fn view(&self) -> ToolCallView {
        ToolCallView { id: self.id@, name: self.name@, arguments: self.arguments@ }
    }
}

impl Clone for ToolCall {
    fn clone(&self) -> (copy: Self)
        ensures
            copy == *self,
    {
        ToolCall {
            id: self.id.clone(),
            name: self.name.clone(),
            arguments: self.arguments.clone(),
        }
    }
}

/// What a list of tool calls says.
pub open spec fn calls_view(calls: Seq<ToolCall>) -> Seq<ToolCallView> {
    Seq::new(calls.len(), |i: int| calls[i]@)
}

/// What an optional list of tool calls says.
pub open spec fn opt_calls_view(calls: Option<Vec<ToolCall>>) -> Option<Seq<ToolCallView>> {
    match calls {
        Some(calls) => Some(calls_view(calls@)),
        None => None,
    }
}

/// The same tool calls once more.
pub fn copy_calls(calls: &Vec<ToolCall>) -> (copy: Vec<ToolCall>)
    ensures
        copy@ == calls@,
{
    let mut copy: Vec<ToolCall> = Vec::new();
    let mut i: usize = 0;
    while i < calls.len()
        invariant
            i <= calls@.len(),
            copy@ == calls@.take(i as int),
        decreases calls@.len() - i,
    {
        copy.push(calls[i].clone());
        assert(calls@.take(i + 1) =~= calls@.take(i as int).push(calls@[i as int]));
        i += 1;
    }
    assert(calls@.take(i as int) =~= calls@);
    copy
}

/// One message of a conversation.
#[derive(Debug, PartialEq, Eq)]
pub struct ChatMessage {
    pub role: Role,
    /// The text. Often absent from an assistant's message that carries tool calls.
    pub content: Option<String>,
    /// Present only on an assistant's message that asks for tool calls.
    pub tool_calls: Option<Vec<ToolCall>>,
    /// Present only on a tool's message: the id of the call that it answers.
    pub tool_call_id: Option<String>,
}

/// What a [`ChatMessage`] says.
pub struct ChatMessageView {
    pub role: Role,
    pub content: Option<Seq<char>>,
    pub tool_calls: Option<Seq<ToolCallView>>,
    pub tool_call_id: Option<Seq<char>>,
}

impl View for ChatMessage {
    type V = ChatMessageView;

    open spec fn view(&self) -> ChatMessageView {
        ChatMessageView {
            role: self.role,
            content: text_view(self.content),
            tool_calls: opt_calls_view(self.tool_calls),
            tool_call_id: text_view(self.tool_call_id),
        }
    }
}

/// A message that is only a text.
pub open spec fn plain_message(role: Role, content: Seq<char>) -> ChatMessageView {
    ChatMessageView { role, content: Some(content), tool_calls: None, tool_call_id: None }
}

/// The result of a tool, as the answer to the call with this id.
pub open spec fn tool_message(id: Seq<char>, content: Seq<char>) -> ChatMessageView {
    ChatMessageView {
        role: Role::Tool,
        content: Some(content),
        tool_calls: None,
        tool_call_id: Some(id),
    }
}

/// What a list of messages says.
pub open spec fn messages_view(messages: Seq<ChatMessage>) -> Seq<ChatMessageView> {
    Seq::new(messages.len(), |i: int| messages[i]@)
}

impl Clone for ChatMessage {
    fn clone(&self) -> (copy: Self)
        ensures
            copy@ == self@,
    {
        ChatMessage {
            role: self.role,
            content: copy_text(&self.content),
            tool_calls: match &self.tool_calls {
                Some(calls) => Some(copy_calls(calls)),
                None => None,
            },
            tool_call_id: copy_text(&self.tool_call_id),
        }
    }
}

/// The same messages once more.
pub fn copy_messages(messages: &Vec<ChatMessage>) -> (copy: Vec<ChatMessage>)
    ensures
        messages_view(copy@) == messages_view(messages@),
{
    let mut copy: Vec<ChatMessage> = Vec::new();
    let mut i: usize = 0;
    while i < messages.len()
        invariant
            i <= messages@.len(),
            copy@.len() == i,
            forall|k: int| 0 <= k < i ==> (#[trigger] copy@[k])@ == messages@[k]@,
        decreases messages@.len() - i,
    {
        copy.push(messages[i].clone());
        i += 1;
    }
    assert(messages_view(copy@) =~= messages_view(messages@));
    copy
}

impl ChatMessage {
    /// A system message.
    pub fn system(content: &str) -> (m: ChatMessage)
        ensures
            m@ == plain_message(Role::System, content@),
    {
        ChatMessage {
            role: Role::System,
            content: Some(content.to_owned()),
            tool_calls: None,
            tool_call_id: None,
        }
    }

    /// A message of the user.
    pub fn user(content: &str) -> (m: ChatMessage)
        ensures
            m@ == plain_message(Role::User, content@),
    {
        ChatMessage {
            role: Role::User,
            content: Some(content.to_owned()),
            tool_calls: None,
            tool_call_id: None,
        }
    }

    /// A message of the assistant that is only a text: its turn is over.
    pub fn assistant(content: &str) -> (m: ChatMessage)
        ensures
            m@ == plain_message(Role::Assistant, content@),
    {
        ChatMessage {
            role: Role::Assistant,
            content: Some(content.to_owned()),
            tool_calls: None,
            tool_call_id: None,
        }
    }

    /// A message of the assistant that asks for tool calls: its turn goes on once the
    /// results are there.
    pub fn assistant_with_tool_calls(tool_calls: Vec<ToolCall>) -> (m: ChatMessage)
        ensures
            m@ == (ChatMessageView {
                role: Role::Assistant,
                content: None,
                tool_calls: Some(calls_view(tool_calls@)),
                tool_call_id: None,
            }),
    {
        ChatMessage {
            role: Role::Assistant,
            content: None,
            tool_calls: Some(tool_calls),
            tool_call_id: None,
        }
    }

    /// The result of a tool, with the id of the call that it answers.
    pub fn tool_result(tool_call_id: &str, content: &str) -> (m: ChatMessage)
        ensures
            m@ == tool_message(tool_call_id@, content@),
    {
        ChatMessage {
            role: Role::Tool,
            content: Some(content.to_owned()),
            tool_calls: None,
            tool_call_id: Some(tool_call_id.to_owned()),
        }
    }
}

// ---------------------------------------------------------------------------
// Rendering
// ---------------------------------------------------------------------------

/// The names of the tools that calls ask for.
pub open spec fn call_names(calls: Seq<ToolCallView>) -> Seq<Seq<char>> {
    Seq::new(calls.len(), |i: int| calls[i].name)
}

/// One message as a line: its role, its text, and the tools that it asks for.
pub open spec fn rendered_message(m: ChatMessageView) -> Seq<char> {
    "["@ + role_name(m.role) + "] "@ + text_or_empty(m.content) + (match m.tool_calls {
        Some(calls) => "→ tools: "@ + joined(call_names(calls), ", "@),
        None => Seq::empty(),
    }) + "\n"@
}

/// The messages as lines, in order.
pub open spec fn rendered_messages(messages: Seq<ChatMessageView>) -> Seq<char>
    decreases messages.len(),
{
    if messages.len() == 0 {
        Seq::empty()
    } else {
        rendered_messages(messages.drop_last()) + rendered_message(messages.last())
    }
}

/// Two conversations in a row are rendered as the two renderings in a row.
pub proof fn renderings_are_joined(a: Seq<ChatMessageView>, b: Seq<ChatMessageView>)
    ensures
        rendered_messages(a + b) == rendered_messages(a) + rendered_messages(b),
    decreases b.len(),
{
    if b.len() == 0 {
        assert(a + b =~= a);
        assert(rendered_messages(a) + rendered_messages(b) =~= rendered_messages(a));
    } else {
        renderings_are_joined(a, b.drop_last());
        assert((a + b).drop_last() =~= a + b.drop_last());
        assert(rendered_messages(a + b) =~= rendered_messages(a) + rendered_messages(b));
    }
}

/// The rendering of a message starts with its role in brackets and ends with a line break.
pub proof fn renderings_are_blocks(m: ChatMessageView)
    ensures
        ("["@ + role_name(m.role) + "] "@).is_prefix_of(rendered_message(m)),
        rendered_message(m).last() == '\n',
{
    reveal_strlit("\n");
    let head = "["@ + role_name(m.role) + "] "@;
    assert(rendered_message(m).take(head.len() as int) =~= head);
}

/// How many line breaks a text holds.
pub open spec fn line_breaks(s: Seq<char>) -> nat
    decreases s.len(),
{
    if s.len() == 0 {
        0
    } else {
        line_breaks(s.drop_last()) + if s.last() == '\n' {
            1nat
        } else {
            0
        }
    }
}

/// Whether a text holds no line break.
pub open spec fn one_line(s: Seq<char>) -> bool {
    forall|i: int| 0 <= i < s.len() ==> #[trigger] s[i] != '\n'
}

/// Line breaks add up.
proof fn lemma_line_breaks(a: Seq<char>, b: Seq<char>)
    ensures
        line_breaks(a + b) == line_breaks(a) + line_breaks(b),
    decreases b.len(),
{
    if b.len() == 0 {
        assert(a + b =~= a);
    } else {
        lemma_line_breaks(a, b.drop_last());
        assert((a + b).drop_last() =~= a + b.drop_last());
    }
}

/// A text without line breaks has none.
proof fn lemma_one_line(s: Seq<char>)
    requires
        one_line(s),
    ensures
        line_breaks(s) == 0,
    decreases s.len(),
{
    if s.len() > 0 {
        assert forall|i: int| 0 <= i < s.drop_last().len() implies #[trigger] s.drop_last()[i]
            != '\n' by {
            assert(s.drop_last()[i] == s[i]);
        }
        lemma_one_line(s.drop_last());
        assert(s[s.len() - 1] != '\n');
    }
}

/// Texts without line breaks are joined to one without.
proof fn lemma_joined_line(parts: Seq<Seq<char>>, separator: Seq<char>)
    requires
        one_line(separator),
        forall|i: int| 0 <= i < parts.len() ==> one_line(#[trigger] parts[i]),
    ensures
        one_line(joined(parts, separator)),
    decreases parts.len(),
{
    if parts.len() > 1 {
        let fewer = parts.drop_last();
        assert forall|i: int| 0 <= i < fewer.len() implies one_line(#[trigger] fewer[i]) by {
            assert(fewer[i] == parts[i]);
        }
        lemma_joined_line(fewer, separator);
        assert(one_line(parts[parts.len() - 1]));
    } else if parts.len() == 1 {
        assert(one_line(parts[0]));
    }
}

/// Whether the text of a message and the names of the tools that it asks for hold no line
/// breaks.
pub open spec fn in_one_line(m: ChatMessageView) -> bool {
    &&& one_line(text_or_empty(m.content))
    &&& match m.tool_calls {
        Some(calls) => forall|i: int| 0 <= i < calls.len() ==> one_line((#[trigger] calls[i]).name),
        None => true,
    }
}

/// A message without line breaks in it is rendered as one line.
proof fn lemma_message_line(m: ChatMessageView)
    requires
        in_one_line(m),
    ensures
        line_breaks(rendered_message(m)) == 1,
{
    reveal_strlit("[");
    reveal_strlit("] ");
    reveal_strlit("\n");
    reveal_strlit(", ");
    reveal_strlit("→ tools: ");
    reveal_strlit("system");
    reveal_strlit("user");
    reveal_strlit("assistant");
    reveal_strlit("tool");
    let tools = match m.tool_calls {
        Some(calls) => "→ tools: "@ + joined(call_names(calls), ", "@),
        None => Seq::empty(),
    };
    if let Some(calls) = m.tool_calls {
        let names = call_names(calls);
        assert forall|i: int| 0 <= i < names.len() implies one_line(#[trigger] names[i]) by {
            assert(one_line(calls[i].name));
        }
        lemma_joined_line(names, ", "@);
    }
    let line = "["@ + role_name(m.role) + "] "@ + text_or_empty(m.content) + tools;
    assert(one_line(role_name(m.role)));
    assert(one_line(tools));
    assert(one_line(line));
    lemma_one_line(line);
    lemma_line_breaks(line, "\n"@);
    assert("\n"@.drop_last() =~= Seq::<char>::empty());
    assert(line_breaks(Seq::<char>::empty()) == 0);
    assert("\n"@.last() == '\n');
    assert(line_breaks("\n"@) == 1);
    assert(rendered_message(m) =~= line + "\n"@);
}

/// A conversation without line breaks in its messages has as many lines as messages.
pub proof fn one_line_per_message(messages: Seq<ChatMessageView>)
    requires
        forall|i: int| 0 <= i < messages.len() ==> in_one_line(#[trigger] messages[i]),
    ensures
        line_breaks(rendered_messages(messages)) == messages.len(),
    decreases messages.len(),
{
    if messages.len() > 0 {
        let fewer = messages.drop_last();
        assert forall|i: int| 0 <= i < fewer.len() implies in_one_line(#[trigger] fewer[i]) by {
            assert(fewer[i] == messages[i]);
        }
        one_line_per_message(fewer);
        assert(in_one_line(messages[messages.len() - 1]));
        lemma_message_line(messages.last());
        lemma_line_breaks(rendered_messages(fewer), rendered_message(messages.last()));
    }
}

/// The names of the tools that calls ask for.
fn names_of(calls: &Vec<ToolCall>) -> (names: Vec<String>)
    ensures
        texts(names@) == call_names(calls_view(calls@)),
{
    let mut names: Vec<String> = Vec::new();
    let mut i: usize = 0;
    while i < calls.len()
        invariant
            i <= calls@.len(),
            names@.len() == i,
            forall|k: int| 0 <= k < i ==> (#[trigger] names@[k])@ == calls@[k].name@,
        decreases calls@.len() - i,
    {
        names.push(calls[i].name.clone());
        i += 1;
    }
    assert(texts(names@) =~= call_names(calls_view(calls@)));
    names
}

/// A compact rendering of a conversation, one line per message.
pub fn render_messages(messages: &[ChatMessage]) -> (out: String)
    ensures
        out@ == rendered_messages(messages_view(messages@)),
{
    let ghost all = messages_view(messages@);
    let mut out = String::new();
    let mut i: usize = 0;
    assert(all.take(0) =~= Seq::<ChatMessageView>::empty());
    while i < messages.len()
        invariant
            i <= messages@.len(),
            all == messages_view(messages@),
            out@ == rendered_messages(all.take(i as int)),
        decreases messages@.len() - i,
    {
        let m = &messages[i];
        let ghost before = out@;
        out.append("[");
        out.append(m.role.as_str());
        out.append("] ");
        match &m.content {
            Some(content) => {
                out.append(content.as_str());
            },
            None => {},
        }
        match &m.tool_calls {
            Some(calls) => {
                out.append("→ tools: ");
                out.append(join(&names_of(calls), ", ").as_str());
            },
            None => {},
        }
        out.append("\n");
        proof {
            assert(out@ =~= before + rendered_message(m@));
            assert(all.take(i + 1).drop_last() =~= all.take(i as int));
            assert(all.take(i + 1).last() == m@);
        }
        i += 1;
    }
    assert(all.take(i as int) =~= all);
    out
}

// ---------------------------------------------------------------------------
// Requests and responses
// ---------------------------------------------------------------------------

/// The description of a tool that the model reads.
#[derive(Debug, PartialEq, Eq)]
pub struct ToolFunction {
    pub name: String,
    pub description: String,
    /// The JSON Schema of the arguments.
    pub parameters: Json,
}

/// A tool as it is advertised to the model.
#[derive(Debug, PartialEq, Eq)]
pub struct ChatTool {
    /// Always `function`.
    pub tool_type: String,
    pub function: ToolFunction,
}

/// What a [`ChatTool`] says.
pub struct ChatToolView {
    pub tool_type: Seq<char>,
    pub name: Seq<char>,
    pub description: Seq<char>,
    pub parameters: JsonView,
}

impl View for ChatTool {
    type V = ChatToolView;

    open spec fn view(&self) -> ChatToolView {
        ChatToolView {
            tool_type: self.tool_type@,
            name: self.function.name@,
            description: self.function.description@,
            parameters: self.function.parameters@,
        }
    }
}

impl Clone for ChatTool {
    fn clone(&self) -> (copy: Self)
        ensures
            copy@ == self@,
    {
        ChatTool {
            tool_type: self.tool_type.clone(),
            function: ToolFunction {
                name: self.function.name.clone(),
                description: self.function.description.clone(),
                parameters: self.function.parameters.clone(),
            },
        }
    }
}

/// A tool of type `function`.
pub open spec fn function_tool(
    name: Seq<char>,
    description: Seq<char>,
    parameters: JsonView,
) -> ChatToolView {
    ChatToolView { tool_type: "function"@, name, description, parameters }
}

/// What a list of advertised tools says.
pub open spec fn chat_tools_view(tools: Seq<ChatTool>) -> Seq<ChatToolView> {
    Seq::new(tools.len(), |i: int| tools[i]@)
}

impl ChatTool {
    /// Advertises a function.
    pub fn function(name: &str, description: &str, parameters: Json) -> (tool: ChatTool)
        ensures
            tool@ == function_tool(name@, description@, parameters@),
    {
        ChatTool {
            tool_type: "function".to_owned(),
            function: ToolFunction {
                name: name.to_owned(),
                description: description.to_owned(),
                parameters,
            },
        }
    }
}

/// A request for a completion.
#[derive(Debug, PartialEq, Eq)]
pub struct ChatRequest {
    pub model: String,
    pub messages: Vec<ChatMessage>,
    pub tools: Option<Vec<ChatTool>>,
    pub tool_choice: Option<Json>,
    pub temperature: Option<JsonNumber>,
}

/// What a [`ChatRequest`] says.
pub struct ChatRequestView {
    pub model: Seq<char>,
    pub messages: Seq<ChatMessageView>,
    pub tools: Option<Seq<ChatToolView>>,
    pub tool_choice: Option<JsonView>,
    pub temperature: Option<NumberView>,
}

impl View for ChatRequest {
    type V = ChatRequestView;

    open spec fn view(&self) -> ChatRequestView {
        ChatRequestView {
            model: self.model@,
            messages: messages_view(self.messages@),
            tools: match self.tools {
                Some(tools) => Some(chat_tools_view(tools@)),
                None => None,
            },
            tool_choice: match self.tool_choice {
                Some(choice) => Some(choice@),
                None => None,
            },
            temperature: match self.temperature {
                Some(t) => Some(t@),
                None => None,
            },
        }
    }
}

/// The same advertised tools once more.
fn copy_chat_tools(tools: &Vec<ChatTool>) -> (copy: Vec<ChatTool>)
    ensures
        chat_tools_view(copy@) == chat_tools_view(tools@),
{
    let mut copy: Vec<ChatTool> = Vec::new();
    let mut i: usize = 0;
    while i < tools.len()
        invariant
            i <= tools@.len(),
            copy@.len() == i,
            forall|k: int| 0 <= k < i ==> (#[trigger] copy@[k])@ == tools@[k]@,
        decreases tools@.len() - i,
    {
        copy.push(tools[i].clone());
        i += 1;
    }
    assert(chat_tools_view(copy@) =~= chat_tools_view(tools@));
    copy
}

impl Clone for ChatRequest {
    fn clone(&self) -> (copy: Self)
        ensures
            copy@ == self@,
    {
        ChatRequest {
            model: self.model.clone(),
            messages: copy_messages(&self.messages),
            tools: match &self.tools {
                Some(tools) => Some(copy_chat_tools(tools)),
                None => None,
            },
            tool_choice: match &self.tool_choice {
                Some(choice) => Some(choice.clone()),
                None => None,
            },
            temperature: match &self.temperature {
                Some(t) => Some(t.duplicate()),
                None => None,
            },
        }
    }
}

/// The temperature of every request that this library builds.
pub open spec fn usual_temperature_spec() -> NumberView {
    NumberView::Float("0.2"@)
}

/// The temperature of every request that this library builds.
pub fn usual_temperature() -> (t: JsonNumber)
    ensures
        t@ == usual_temperature_spec(),
{
    proof {
        reveal_strlit("0.2");
    }
    match parse_json("0.2") {
        Ok(Json::Number(t)) => t,
        _ => vstd::pervasive::unreached(),
    }
}

/// A system message and a user message, with no tools.
pub open spec fn simple_request_spec(
    model: Seq<char>,
    system: Seq<char>,
    user: Seq<char>,
) -> ChatRequestView {
    ChatRequestView {
        model,
        messages: seq![plain_message(Role::System, system), plain_message(Role::User, user)],
        tools: None,
        tool_choice: None,
        temperature: Some(usual_temperature_spec()),
    }
}

/// A small request: a system message and a user message, with no tools.
pub fn simple_request(model: &str, system: &str, user: &str) -> (request: ChatRequest)
    ensures
        request@ == simple_request_spec(model@, system@, user@),
{
    let request = ChatRequest {
        model: model.to_owned(),
        messages: vec![ChatMessage::system(system), ChatMessage::user(user)],
        tools: None,
        tool_choice: None,
        temperature: Some(usual_temperature()),
    };
    assert(request@.messages =~= simple_request_spec(model@, system@, user@).messages);
    request
}

/// How many tokens an exchange took.
#[derive(Debug, Clone, Copy, PartialEq, Eq, Structural)]
pub struct Usage {
    pub prompt_tokens: Option<i64>,
    pub completion_tokens: Option<i64>,
    pub total_tokens: Option<i64>,
}

/// One answer of the model.
#[derive(Debug, PartialEq, Eq)]
pub struct Choice {
    pub index: Option<i64>,
    pub message: ChatMessage,
    pub finish_reason: Option<String>,
}

/// What a [`Choice`] says.
pub struct ChoiceView {
    pub index: Option<i64>,
    pub message: ChatMessageView,
    pub finish_reason: Option<Seq<char>>,
}

impl View for Choice {
    type V = ChoiceView;

    open spec fn view(&self) -> ChoiceView {
        ChoiceView {
            index: self.index,
            message: self.message@,
            finish_reason: text_view(self.finish_reason),
        }
    }
}

impl Clone for Choice {
    fn clone(&self) -> (copy: Self)
        ensures
            copy@ == self@,
    {
        Choice {
            index: self.index,
            message: self.message.clone(),
            finish_reason: copy_text(&self.finish_reason),
        }
    }
}

/// What a list of answers says.
pub open spec fn choices_view(choices: Seq<Choice>) -> Seq<ChoiceView> {
    Seq::new(choices.len(), |i: int| choices[i]@)
}

/// The response of the endpoint.
#[derive(Debug, PartialEq, Eq)]
pub struct ChatResponse {
    pub id: Option<String>,
    pub model: Option<String>,
    pub choices: Vec<Choice>,
    pub usage: Option<Usage>,
}

/// What a [`ChatResponse`] says.
pub struct ChatResponseView {
    pub id: Option<Seq<char>>,
    pub model: Option<Seq<char>>,
    pub choices: Seq<ChoiceView>,
    pub usage: Option<Usage>,
}

impl View for ChatResponse {
    type V = ChatResponseView;

    open spec fn view(&self) -> ChatResponseView {
        ChatResponseView {
            id: text_view(self.id),
            model: text_view(self.model),
            choices: choices_view(self.choices@),
            usage: self.usage,
        }
    }
}

impl Clone for ChatResponse {
    fn clone(&self) -> (copy: Self)
        ensures
            copy@ == self@,
    {
        let mut choices: Vec<Choice> = Vec::new();
        let mut i: usize = 0;
        while i < self.choices.len()
            invariant
                i <= self.choices@.len(),
                choices@.len() == i,
                forall|k: int| 0 <= k < i ==> (#[trigger] choices@[k])@ == self.choices@[k]@,
            decreases self.choices@.len() - i,
        {
            choices.push(self.choices[i].clone());
            i += 1;
        }
        assert(choices_view(choices@) =~= choices_view(self.choices@));
        ChatResponse {
            id: copy_text(&self.id),
            model: copy_text(&self.model),
            choices,
            usage: self.usage,
        }
    }
}

// ---------------------------------------------------------------------------
// The client
// ---------------------------------------------------------------------------

/// Where the endpoint is, and the key for it.
#[derive(Debug, PartialEq, Eq)]
pub struct ChatClient {
    /// The base URL, which does not end in a slash.
    pub base_url: String,
    pub api_key: Option<String>,
}

impl Clone for ChatClient {
    fn clone(&self) -> (copy: Self)
        ensures
            copy == *self,
    {
        ChatClient { base_url: self.base_url.clone(), api_key: copy_text(&self.api_key) }
    }
}

/// What is sent to the endpoint.
#[derive(Debug, PartialEq, Eq)]
pub struct Outgoing {
    pub url: String,
    /// The value of the `Authorization` header, if there is one.
    pub authorization: Option<String>,
    pub body: Json,
}

/// What an [`Outgoing`] says.
pub struct OutgoingView {
    pub url: Seq<char>,
    pub authorization: Option<Seq<char>>,
    pub body: JsonView,
}

impl View for Outgoing {
    type V = OutgoingView;

    open spec fn view(&self) -> OutgoingView {
        OutgoingView {
            url: self.url@,
            authorization: text_view(self.authorization),
            body: self.body@,
        }
    }
}

/// What came back from the endpoint.
#[derive(Debug, PartialEq, Eq)]
pub struct Reply {
    /// Whether the status is one of success.
    pub success: bool,
    /// The status in print.
    pub status: String,
    pub body: String,
}

/// The URL of the endpoint that is used where none is configured.
pub open spec fn usual_base_url() -> Seq<char> {
    "https://api.openai.com/v1"@
}

/// The key, unless it is an empty text.
pub open spec fn nonempty(key: Option<Seq<char>>) -> Option<Seq<char>> {
    match key {
        Some(key) => if key.len() == 0 {
            None
        } else {
            Some(key)
        },
        None => None,
    }
}

/// The error for a status that is not one of success.
pub open spec fn status_error(status: Seq<char>, body: Seq<char>) -> Seq<char> {
    "endpoint returned "@ + status + ": "@ + body
}

/// The error for a body that is no response.
pub open spec fn response_error(error: Seq<char>, body: Seq<char>) -> Seq<char> {
    "failed to parse response: "@ + error + "\n"@ + body
}

/// The error for a body that is no JSON.
pub open spec fn json_error(error: Seq<char>, body: Seq<char>) -> Seq<char> {
    "invalid json: "@ + error + "\n"@ + body
}

impl ChatClient {
    /// The client for an endpoint; slashes at the end of the URL are dropped.
    pub fn new(base_url: &str, api_key: Option<String>) -> (client: ChatClient)
        ensures
            client.base_url@ == without_trailing(base_url@, '/'),
            client.api_key == api_key,
    {
        ChatClient { base_url: trim_trailing(base_url, '/'), api_key }
    }

    /// The client for what the environment says: `base_url` and `api_key` are the values
    /// found there. Without a URL it is that of OpenAI; an empty key is no key.
    pub fn from_env(base_url: Option<String>, api_key: Option<String>) -> (client: ChatClient)
        ensures
            client.base_url@ == without_trailing(
                match text_view(base_url) {
                    Some(url) => url,
                    None => usual_base_url(),
                },
                '/',
            ),
            text_view(client.api_key) == nonempty(text_view(api_key)),
    {
        let base_url = match base_url {
            Some(url) => url,
            None => "https://api.openai.com/v1".to_owned(),
        };
        let api_key = match api_key {
            Some(key) => if key.as_str().is_empty() {
                None
            } else {
                Some(key)
            },
            None => None,
        };
        ChatClient::new(base_url.as_str(), api_key)
    }

    /// The URL that requests are posted to.
    pub fn chat_api_url(&self) -> (url: String)
        ensures
            url@ == self.base_url@ + "/chat/completions"@,
    {
        self.base_url.clone().concat("/chat/completions")
    }

    /// The value of the `Authorization` header, where there is a key.
    pub fn authorization(&self) -> (header: Option<String>)
        ensures
            text_view(header) == (match text_view(self.api_key) {
                Some(key) => Some("Bearer "@ + key),
                None => None,
            }),
    {
        match &self.api_key {
            Some(key) => Some("Bearer ".to_owned().concat(key.as_str())),
            None => None,
        }
    }
}

/// The model that is used by default: the configured one, or a usual one.
pub fn default_model(configured: Option<String>) -> (model: String)
    ensures
        model@ == (match text_view(configured) {
            Some(model) => model,
            None => "gpt-4o-mini"@,
        }),
{
    match configured {
        Some(model) => model,
        None => "gpt-4o-mini".to_owned(),
    }
}

} // verus!
