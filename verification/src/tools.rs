//! Tools: what the agent can touch.
//!
//! A tool is a description that the model reads and an executor that the loop runs. The
//! two travel together as a [`Tool`], and the registry of tools can be extended while
//! the agent is running.
use vstd::prelude::*;
use crate::calc::{Class, Op};
use crate::chat::{chat_tools_view, function_tool, ChatTool, ChatToolView, Outgoing};
use crate::json::{entry_views, item_views, push_entry, Json, JsonView};
use crate::text::same_text;
use crate::tools::bash_tools::{can_run, run_command, run_description, run_tool_with, runs, Ran};
use crate::tools::calc_tools::{
    calc_description, calc_tool_with, calculate, calculates, can_calculate, Calculator,
};
use crate::tools::file_tools::{
    can_write, list_description, list_files, list_tool_with, lists, read_description, read_file,
    read_tool_with, reads, write_description, write_file, write_tool_with, writes, Files,
};
use crate::tools::web_tools::{
    can_search, fetch, fetch_description, fetch_tool_with, fetches, search, search_description,
    search_tool_with, searches, Fetched, Web,
};

pub mod answers;
pub mod bash_tools;
pub mod calc_tools;
pub mod file_tools;
pub mod schemas;
pub mod web_tools;

verus! {

// ---------------------------------------------------------------------------
// Results
// ---------------------------------------------------------------------------

/// What running a tool gave.
#[derive(Debug, PartialEq, Eq)]
pub struct ToolResult {
    /// The text that is handed back to the model.
    pub output: String,
    /// Whether the tool failed. A failure is told to the model like any other result, so
    /// that it can adapt.
    pub is_error: bool,
}

/// What a [`ToolResult`] says.
pub struct ToolResultView {
    pub output: Seq<char>,
    pub is_error: bool,
}

impl View for ToolResult {
    type V = ToolResultView;

    open spec fn view(&self) -> ToolResultView {
        ToolResultView { output: self.output@, is_error: self.is_error }
    }
}

/// What a run of a tool says: its result, or why there is none.
pub open spec fn run_view(r: Result<ToolResult, String>) -> Result<ToolResultView, Seq<char>> {
    match r {
        Ok(result) => Ok(result@),
        Err(e) => Err(e@),
    }
}

/// A result of success.
pub open spec fn success(output: Seq<char>) -> Result<ToolResultView, Seq<char>> {
    Ok(ToolResultView { output, is_error: false })
}

/// A result that reports a failure.
pub open spec fn failure(output: Seq<char>) -> Result<ToolResultView, Seq<char>> {
    Ok(ToolResultView { output, is_error: true })
}

impl Clone for ToolResult {
    fn clone(&self) -> (copy: Self)
        ensures
            copy == *self,
    {
        ToolResult { output: self.output.clone(), is_error: self.is_error }
    }
}

impl ToolResult {
    /// A result of success.
    pub fn ok(output: &str) -> (r: ToolResult)
        ensures
            r@ == (ToolResultView { output: output@, is_error: false }),
    {
        ToolResult { output: output.to_owned(), is_error: false }
    }

    /// A result that reports a failure.
    pub fn err(output: &str) -> (r: ToolResult)
        ensures
            r@ == (ToolResultView { output: output@, is_error: true }),
    {
        ToolResult { output: output.to_owned(), is_error: true }
    }
}

// ---------------------------------------------------------------------------
// Tools
// ---------------------------------------------------------------------------

/// A tool: its description for the model, and its executor.
///
/// An executor takes the arguments of a call and gives a result, or the words of an
/// error.
pub struct Tool<F> {
    pub name: String,
    pub description: String,
    /// The JSON Schema of the arguments.
    pub parameters: Json,
    pub executor: F,
}

/// The description of a tool.
pub struct ToolView {
    pub name: Seq<char>,
    pub description: Seq<char>,
    pub parameters: JsonView,
}

impl<F> View for Tool<F> {
    type V = ToolView;

    open spec fn view(&self) -> ToolView {
        ToolView {
            name: self.name@,
            description: self.description@,
            parameters: self.parameters@,
        }
    }
}

impl ToolView {
    /// The tool as it is advertised.
    pub open spec fn advertised(self) -> ChatToolView {
        function_tool(self.name, self.description, self.parameters)
    }
}

impl<F> Tool<F> {
    /// A tool.
    pub fn new(name: &str, description: &str, parameters: Json, executor: F) -> (tool: Tool<F>)
        ensures
            tool@ == (ToolView {
                name: name@,
                description: description@,
                parameters: parameters@,
            }),
            tool.executor == executor,
    {
        Tool { name: name.to_owned(), description: description.to_owned(), parameters, executor }
    }

    /// The tool as it is advertised to the model.
    pub fn as_chat_tool(&self) -> (tool: ChatTool)
        ensures
            tool@ == self@.advertised(),
    {
        ChatTool::function(
            self.name.as_str(),
            self.description.as_str(),
            self.parameters.clone(),
        )
    }
}

impl<F: Clone> Clone for Tool<F> {
    fn clone(&self) -> (copy: Self)
        ensures
            copy@ == self@,
            cloned(self.executor, copy.executor),
    {
        Tool {
            name: self.name.clone(),
            description: self.description.clone(),
            parameters: self.parameters.clone(),
            executor: self.executor.clone(),
        }
    }
}

/// What an executor gave: its result, or nothing where it panicked.
pub type Execution = Option<Result<ToolResult, String>>;

/// The error that stands for the panic of a tool's executor.
pub open spec fn panic_error(name: Seq<char>) -> Seq<char> {
    "tool `"@ + name + "` panicked"@
}

/// What a run of the tool `name` is, where its executor gave `came`.
pub open spec fn settled(name: Seq<char>, came: Execution) -> Result<ToolResultView, Seq<char>> {
    match came {
        Some(r) => run_view(r),
        None => Err(panic_error(name)),
    }
}

/// Whether an executor accepts all arguments.
pub open spec fn accepts_all<F: Fn(&Json) -> Execution>(executor: F) -> bool {
    forall|args: Json| #[trigger] call_requires(executor, (&args,))
}

/// Whether an executor accepts these arguments.
pub open spec fn accepts_args<F: Fn(&Json) -> Execution>(executor: F, args: JsonView) -> bool {
    forall|given: Json| given@ == args ==> #[trigger] call_requires(executor, (&given,))
}

/// Whether a function accepts the text under `name` among the arguments of a call, if there
/// is one. Nothing is asked of the function where there is none, so it cannot be called then.
pub open spec fn takes_argument<O, R: Fn(&str) -> O>(f: R, args: JsonView, name: Seq<char>) -> bool {
    match required_text_spec(args, name) {
        Ok(text) => forall|t: &str| t@ == text ==> #[trigger] call_requires(f, (t,)),
        Err(_) => true,
    }
}

/// Whether an executor accepts arguments that are `accepted`, never panics, and gives only
/// what is `allowed` for them.
pub open spec fn gives_only<F: Fn(&Json) -> Execution>(
    executor: F,
    accepted: spec_fn(JsonView) -> bool,
    allowed: spec_fn(JsonView, Result<ToolResult, String>) -> bool,
) -> bool {
    &&& forall|args: Json| accepted(args@) ==> #[trigger] call_requires(executor, (&args,))
    &&& forall|args: Json, came: Execution| #[trigger]
        call_ensures(executor, (&args,), came) ==> came is Some && allowed(args@, came->0)
}

/// Whether `came` may be what an executor gives for these arguments.
pub open spec fn may_give<F: Fn(&Json) -> Execution>(
    executor: F,
    args: JsonView,
    came: Execution,
) -> bool {
    exists|given: Json| #[trigger] call_ensures(executor, (&given,), came) && given@ == args
}

impl<F> Tool<F> {
    /// What a run of the tool is, where its executor gave `came`: a panic is an error, so
    /// that one tool that behaves badly does not take the agent down.
    pub fn settle(&self, came: Execution) -> (r: Result<ToolResult, String>)
        ensures
            run_view(r) == settled(self.name@, came),
            came matches Some(given) ==> r == given,
    {
        match came {
            Some(r) => r,
            None => {
                let mut text = "tool `".to_owned();
                text.append(self.name.as_str());
                text.append("` panicked");
                Err(text)
            },
        }
    }
}

impl<F: Fn(&Json) -> Execution> Tool<F> {
    /// Runs the executor. An executor that catches its panics gives nothing for one, and
    /// that is an error here; a panic that it does not catch goes on through this function.
    pub fn run(&self, args: &Json) -> (r: Result<ToolResult, String>)
        requires
            call_requires(self.executor, (args,)),
        ensures
            exists|came: Execution| #[trigger]
                call_ensures(self.executor, (args,), came) && run_view(r) == settled(
                    self.name@,
                    came,
                ),
    {
        let came = (self.executor)(args);
        let ghost given = came;
        assert(call_ensures(self.executor, (args,), given));
        self.settle(came)
    }
}

/// The schema of an object with these properties, where those in `required` have to be
/// there and no others may.
pub open spec fn object_schema(properties: JsonView, required: Seq<Seq<char>>) -> JsonView {
    JsonView::Object(
        seq![
            ("additionalProperties"@, JsonView::Bool(false)),
            ("properties"@, properties),
            (
                "required"@,
                JsonView::Array(Seq::new(required.len(), |i: int| JsonView::Text(required[i]))),
            ),
            ("type"@, JsonView::Text("object"@)),
        ],
    )
}

/// The characters of each string of a sequence.
pub open spec fn strs(names: Seq<&str>) -> Seq<Seq<char>> {
    Seq::new(names.len(), |i: int| names[i]@)
}

/// The schema of an object with these properties, where those in `required` have to be
/// there and no others may.
pub fn s_required(properties: Json, required: &[&str]) -> (schema: Json)
    ensures
        schema@ == object_schema(properties@, strs(required@)),
{
    let mut names: Vec<Json> = Vec::new();
    let mut i: usize = 0;
    while i < required.len()
        invariant
            i <= required@.len(),
            names@.len() == i,
            forall|k: int| 0 <= k < i ==> (#[trigger] names@[k])@ == JsonView::Text(required@[k]@),
        decreases required@.len() - i,
    {
        names.push(Json::text(required[i]));
        i += 1;
    }
    let ghost schema = object_schema(properties@, strs(required@));
    assert(item_views(names@) =~= (schema->Object_0)[2].1->Array_0);
    let mut entries: Vec<(String, Json)> = Vec::new();
    push_entry(&mut entries, "additionalProperties", Json::Bool(false));
    push_entry(&mut entries, "properties", properties);
    push_entry(&mut entries, "required", Json::array(names));
    push_entry(&mut entries, "type", Json::text("object"));
    assert(entry_views(entries@) =~= schema->Object_0);
    Json::object(entries)
}

/// The schema of one property.
pub open spec fn property_schema(kind: Seq<char>, description: Seq<char>) -> JsonView {
    JsonView::Object(
        seq![("description"@, JsonView::Text(description)), ("type"@, JsonView::Text(kind))],
    )
}

/// The schema of one property.
pub fn property(kind: &str, description: &str) -> (schema: Json)
    ensures
        schema@ == property_schema(kind@, description@),
{
    let mut entries: Vec<(String, Json)> = Vec::new();
    push_entry(&mut entries, "description", Json::text(description));
    push_entry(&mut entries, "type", Json::text(kind));
    assert(entry_views(entries@) =~= property_schema(kind@, description@)->Object_0);
    Json::object(entries)
}

// ---------------------------------------------------------------------------
// Arguments
// ---------------------------------------------------------------------------

/// The text that arguments hold under `key`, or that it is missing.
pub open spec fn required_text_spec(args: JsonView, key: Seq<char>) -> Result<
    Seq<char>,
    Seq<char>,
> {
    match args.text_field(key) {
        Some(text) => Ok(text),
        None => Err("missing `"@ + key + "`"@),
    }
}

/// The text that arguments hold under `key`, or that it is missing.
pub fn required_text<'a>(args: &'a Json, key: &str) -> (r: Result<&'a str, String>)
    ensures
        (match r {
            Ok(text) => Ok(text@),
            Err(e) => Err(e@),
        }) == required_text_spec(args@, key@),
{
    match args.get_str(key) {
        Some(text) => Ok(text),
        None => {
            let mut e = "missing `".to_owned();
            e.append(key);
            e.append("`");
            Err(e)
        },
    }
}

// ---------------------------------------------------------------------------
// Built-in tools
// ---------------------------------------------------------------------------

/// The tools that are always available.
#[derive(Debug, Clone, Copy, PartialEq, Eq, Structural)]
pub enum Builtin {
    FileRead,
    FileWrite,
    FileList,
    BashRun,
    WebFetch,
    WebSearch,
    Calc,
}

impl Builtin {
    /// The description of the tool.
    pub open spec fn description(self) -> ToolView {
        match self {
            Builtin::FileRead => read_description(),
            Builtin::FileWrite => write_description(),
            Builtin::FileList => list_description(),
            Builtin::BashRun => run_description(),
            Builtin::WebFetch => fetch_description(),
            Builtin::WebSearch => search_description(),
            Builtin::Calc => calc_description(),
        }
    }
}

/// The built-in tools, in the order in which they are offered.
pub open spec fn builtins() -> Seq<Builtin> {
    seq![
        Builtin::FileRead,
        Builtin::FileWrite,
        Builtin::FileList,
        Builtin::BashRun,
        Builtin::WebFetch,
        Builtin::WebSearch,
        Builtin::Calc,
    ]
}

/// Whether `r` may be the answer to a call of a built-in tool with these arguments.
pub open spec fn builtin_may_give<
    R: Fn(&str) -> Option<String>,
    W: Fn(&str, &str) -> bool,
    L: Fn(&str) -> Option<Vec<String>>,
    B: Fn(&str, i64) -> Result<Ran, String>,
    G: Fn(&str) -> Option<Fetched>,
    K: Fn() -> Option<String>,
    P: Fn(&Outgoing) -> Option<Fetched>,
    N,
    C: Fn(&N) -> Class,
    T: Fn(&N) -> String,
    A: Fn(&Op, &Vec<N>) -> Result<N, String>,
    I: Fn(&N) -> Option<i64>,
>(
    which: Builtin,
    files: Files<R, W, L>,
    shell: B,
    web: Web<G, K, P>,
    calculator: Calculator<C, T, A, I>,
    args: JsonView,
    r: Result<ToolResult, String>,
) -> bool {
    match which {
        Builtin::FileRead => reads(files.read, args, r),
        Builtin::FileWrite => writes(files.write, args, r),
        Builtin::FileList => lists(files.list, args, r),
        Builtin::BashRun => runs(shell, args, r),
        Builtin::WebFetch => fetches(web.get, args, r),
        Builtin::WebSearch => searches(web, args, r),
        Builtin::Calc => calculates::<N, C, T, A, I>(calculator, args, r),
    }
}

/// Whether what a call of a built-in tool with these arguments hands over is accepted. Only
/// what this one tool uses is asked to accept anything.
pub open spec fn builtin_accepts<
    R: Fn(&str) -> Option<String>,
    W: Fn(&str, &str) -> bool,
    L: Fn(&str) -> Option<Vec<String>>,
    B: Fn(&str, i64) -> Result<Ran, String>,
    G: Fn(&str) -> Option<Fetched>,
    K: Fn() -> Option<String>,
    P: Fn(&Outgoing) -> Option<Fetched>,
    N,
    C: Fn(&N) -> Class,
    T: Fn(&N) -> String,
    A: Fn(&Op, &Vec<N>) -> Result<N, String>,
    I: Fn(&N) -> Option<i64>,
>(
    which: Builtin,
    files: Files<R, W, L>,
    shell: B,
    web: Web<G, K, P>,
    calculator: Calculator<C, T, A, I>,
    args: JsonView,
) -> bool {
    match which {
        Builtin::FileRead => takes_argument(files.read, args, "path"@),
        Builtin::FileWrite => can_write(files.write, args),
        Builtin::FileList => takes_argument(files.list, args, "path"@),
        Builtin::BashRun => can_run(shell, args),
        Builtin::WebFetch => takes_argument(web.get, args, "url"@),
        Builtin::WebSearch => can_search(web, args),
        Builtin::Calc => can_calculate::<N, C, T, A, I>(calculator, args),
    }
}

/// Runs a call of a built-in tool.
pub fn run_builtin<
    R: Fn(&str) -> Option<String>,
    W: Fn(&str, &str) -> bool,
    L: Fn(&str) -> Option<Vec<String>>,
    B: Fn(&str, i64) -> Result<Ran, String>,
    G: Fn(&str) -> Option<Fetched>,
    K: Fn() -> Option<String>,
    P: Fn(&Outgoing) -> Option<Fetched>,
    N,
    C: Fn(&N) -> Class,
    T: Fn(&N) -> String,
    A: Fn(&Op, &Vec<N>) -> Result<N, String>,
    I: Fn(&N) -> Option<i64>,
>(
    which: Builtin,
    args: &Json,
    files: &Files<R, W, L>,
    shell: &B,
    web: &Web<G, K, P>,
    calculator: &Calculator<C, T, A, I>,
) -> (r: Result<ToolResult, String>)
    requires
        builtin_accepts::<R, W, L, B, G, K, P, N, C, T, A, I>(
            which,
            *files,
            *shell,
            *web,
            *calculator,
            args@,
        ),
    ensures
        builtin_may_give::<R, W, L, B, G, K, P, N, C, T, A, I>(
            which,
            *files,
            *shell,
            *web,
            *calculator,
            args@,
            r,
        ),
{
    match which {
        Builtin::FileRead => read_file(args, &files.read),
        Builtin::FileWrite => write_file(args, &files.write),
        Builtin::FileList => list_files(args, &files.list),
        Builtin::BashRun => run_command(args, shell),
        Builtin::WebFetch => fetch(args, &web.get),
        Builtin::WebSearch => search(args, web),
        Builtin::Calc => calculate::<N, C, T, A, I>(args, calculator),
    }
}

/// The executor of a built-in tool.
pub fn builtin_executor<
    R: Fn(&str) -> Option<String>,
    W: Fn(&str, &str) -> bool,
    L: Fn(&str) -> Option<Vec<String>>,
    B: Fn(&str, i64) -> Result<Ran, String>,
    G: Fn(&str) -> Option<Fetched>,
    K: Fn() -> Option<String>,
    P: Fn(&Outgoing) -> Option<Fetched>,
    N,
    C: Fn(&N) -> Class,
    T: Fn(&N) -> String,
    A: Fn(&Op, &Vec<N>) -> Result<N, String>,
    I: Fn(&N) -> Option<i64>,
>(
    which: Builtin,
    files: Files<R, W, L>,
    shell: B,
    web: Web<G, K, P>,
    calculator: Calculator<C, T, A, I>,
) -> (executor: impl Fn(&Json) -> Execution)
    ensures
        gives_only(
            executor,
            |args: JsonView|
                builtin_accepts::<R, W, L, B, G, K, P, N, C, T, A, I>(
                    which,
                    files,
                    shell,
                    web,
                    calculator,
                    args,
                ),
            |args: JsonView, r: Result<ToolResult, String>|
                builtin_may_give::<R, W, L, B, G, K, P, N, C, T, A, I>(
                    which,
                    files,
                    shell,
                    web,
                    calculator,
                    args,
                    r,
                ),
        ),
{
    move |args: &Json| -> (came: Execution)
        requires
            builtin_accepts::<R, W, L, B, G, K, P, N, C, T, A, I>(
                which,
                files,
                shell,
                web,
                calculator,
                args@,
            ),
        ensures
            came is Some,
            builtin_may_give::<R, W, L, B, G, K, P, N, C, T, A, I>(
                which,
                files,
                shell,
                web,
                calculator,
                args@,
                came->0,
            ),
        {
            Some(
                run_builtin::<R, W, L, B, G, K, P, N, C, T, A, I>(
                    which,
                    args,
                    &files,
                    &shell,
                    &web,
                    &calculator,
                ),
            )
        }
}

/// Whether `tools` are the built-in tools in their order, each with an executor that
/// `make` makes for it.
pub open spec fn are_builtin<F, M: Fn(Builtin) -> F>(make: M, tools: Seq<Tool<F>>) -> bool {
    &&& tools.len() == builtins().len()
    &&& forall|i: int|
        0 <= i < tools.len() ==> (#[trigger] tools[i])@ == builtins()[i].description()
            && call_ensures(make, (builtins()[i],), tools[i].executor)
}

/// The built-in tools, with the executors that `make` makes for them.
pub fn builtin_tools<F, M: Fn(Builtin) -> F>(make: &M) -> (tools: Vec<Tool<F>>)
    requires
        forall|which: Builtin| #[trigger] call_requires(*make, (which,)),
    ensures
        are_builtin(*make, tools@),
{
    let mut tools: Vec<Tool<F>> = Vec::new();
    tools.push(read_tool_with(make(Builtin::FileRead)));
    tools.push(write_tool_with(make(Builtin::FileWrite)));
    tools.push(list_tool_with(make(Builtin::FileList)));
    tools.push(run_tool_with(make(Builtin::BashRun)));
    tools.push(fetch_tool_with(make(Builtin::WebFetch)));
    tools.push(search_tool_with(make(Builtin::WebSearch)));
    tools.push(calc_tool_with(make(Builtin::Calc)));
    tools
}

/// No two built-in tools have the same name.
pub proof fn builtin_names_are_distinct(i: int, k: int)
    requires
        0 <= i < k < builtins().len(),
    ensures
        builtins()[i].description().name != builtins()[k].description().name,
{
    reveal_strlit("file_read");
    reveal_strlit("file_write");
    reveal_strlit("file_list");
    reveal_strlit("bash_run");
    reveal_strlit("web_fetch");
    reveal_strlit("web_search");
    reveal_strlit("calc");
    let a = builtins()[i].description().name;
    let b = builtins()[k].description().name;
    assert(a.len() != b.len() || a[0] != b[0] || a[5] != b[5]);
}

// ---------------------------------------------------------------------------
// The registry
// ---------------------------------------------------------------------------

/// The position of the first tool of this name, or the length where there is none.
pub open spec fn index_named<F>(tools: Seq<Tool<F>>, name: Seq<char>) -> int
    decreases tools.len(),
{
    if tools.len() == 0 {
        0
    } else if tools[0].name@ == name {
        0
    } else {
        1 + index_named(tools.drop_first(), name)
    }
}

/// The tool of this name.
pub open spec fn lookup<F>(tools: Seq<Tool<F>>, name: Seq<char>) -> Option<Tool<F>> {
    let i = index_named(tools, name);
    if i < tools.len() {
        Some(tools[i])
    } else {
        None
    }
}

/// The tools with `tool` in the place of the one of its name, or at the end.
pub open spec fn registered<F>(tools: Seq<Tool<F>>, tool: Tool<F>) -> Seq<Tool<F>> {
    let i = index_named(tools, tool.name@);
    if i < tools.len() {
        tools.update(i, tool)
    } else {
        tools.push(tool)
    }
}

/// The tools without the one of this name.
pub open spec fn unregistered<F>(tools: Seq<Tool<F>>, name: Seq<char>) -> Seq<Tool<F>> {
    let i = index_named(tools, name);
    if i < tools.len() {
        tools.remove(i)
    } else {
        tools
    }
}

/// Whether no two tools have the same name.
pub open spec fn names_distinct<F>(tools: Seq<Tool<F>>) -> bool {
    forall|i: int, k: int|
        0 <= i < k < tools.len() ==> (#[trigger] tools[i]).name@ != (#[trigger] tools[k]).name@
}

/// The tools as they are advertised.
pub open spec fn all_advertised<F>(tools: Seq<Tool<F>>) -> Seq<ChatToolView> {
    Seq::new(tools.len(), |i: int| tools[i]@.advertised())
}

/// No two of the built-in tools have the same name.
pub proof fn builtin_tools_are_distinct<F, M: Fn(Builtin) -> F>(make: M, tools: Seq<Tool<F>>)
    requires
        are_builtin(make, tools),
    ensures
        names_distinct(tools),
{
    assert forall|i: int, k: int| 0 <= i < k < tools.len() implies (
    #[trigger] tools[i]).name@ != (#[trigger] tools[k]).name@ by {
        builtin_names_are_distinct(i, k);
        assert(tools[i]@.name != tools[k]@.name);
    }
}

/// What [`index_named`] finds.
proof fn lemma_index_named<F>(tools: Seq<Tool<F>>, name: Seq<char>)
    ensures
        0 <= index_named(tools, name) <= tools.len(),
        index_named(tools, name) < tools.len() ==> tools[index_named(tools, name)].name@ == name,
        forall|i: int|
            0 <= i < index_named(tools, name) ==> (#[trigger] tools[i]).name@ != name,
    decreases tools.len(),
{
    if tools.len() > 0 && tools[0].name@ != name {
        let rest = tools.drop_first();
        lemma_index_named(rest, name);
        assert forall|i: int| 0 <= i < index_named(tools, name) implies (
        #[trigger] tools[i]).name@ != name by {
            if i > 0 {
                assert(rest[i - 1] == tools[i]);
            }
        }
    }
}

/// The names of tools.
pub open spec fn tool_names<F>(tools: Seq<Tool<F>>) -> Seq<Seq<char>> {
    Seq::new(tools.len(), |i: int| tools[i].name@)
}

/// [`index_named`] is the only position with these properties.
proof fn lemma_index_is<F>(tools: Seq<Tool<F>>, name: Seq<char>, i: int)
    requires
        0 <= i <= tools.len(),
        i < tools.len() ==> tools[i].name@ == name,
        forall|k: int| 0 <= k < i ==> (#[trigger] tools[k]).name@ != name,
    ensures
        index_named(tools, name) == i,
{
    lemma_index_named(tools, name);
    let found = index_named(tools, name);
    if found < i {
        assert(tools[found].name@ != name);
    } else if i < found {
        assert(tools[i].name@ != name);
    }
}

/// A tool that is found is one of the tools and has the name that it was found under.
pub proof fn found_tool_has_the_name<F>(tools: Seq<Tool<F>>, name: Seq<char>)
    ensures
        lookup(tools, name) matches Some(tool) ==> tools.contains(tool) && tool.name@ == name,
{
    lemma_index_named(tools, name);
    if lookup(tools, name) is Some {
        assert(tools[index_named(tools, name)] == lookup(tools, name)->0);
    }
}

/// Every tool that is advertised is found under its name: what the model may call is what
/// is run.
pub proof fn advertised_tools_are_found<F>(tools: Seq<Tool<F>>, i: int)
    requires
        names_distinct(tools),
        0 <= i < tools.len(),
    ensures
        lookup(tools, all_advertised(tools)[i].name) == Some(tools[i]),
{
    lemma_index_is(tools, tools[i].name@, i);
}

/// A tool that was registered is found under its name.
pub proof fn registered_tool_is_found<F>(tools: Seq<Tool<F>>, tool: Tool<F>)
    ensures
        lookup(registered(tools, tool), tool.name@) == Some(tool),
{
    lemma_index_named(tools, tool.name@);
    lemma_index_is(registered(tools, tool), tool.name@, index_named(tools, tool.name@));
}

/// To register a tool changes nothing under other names.
pub proof fn registering_keeps_the_others<F>(tools: Seq<Tool<F>>, tool: Tool<F>, name: Seq<char>)
    requires
        name != tool.name@,
    ensures
        lookup(registered(tools, tool), name) == lookup(tools, name),
{
    lemma_index_named(tools, tool.name@);
    lemma_index_named(tools, name);
    let after = registered(tools, tool);
    let i = index_named(tools, name);
    let at = index_named(tools, tool.name@);
    assert forall|k: int| 0 <= k < i implies (#[trigger] after[k]).name@ != name by {
        if k != at {
            assert(after[k] == tools[k]);
        }
    }
    if i < tools.len() {
        lemma_index_is(after, name, i);
    } else if at < tools.len() {
        lemma_index_is(after, name, i);
    } else {
        lemma_index_is(after, name, i + 1);
    }
}

/// To register a tool under a name that is taken keeps the order of the names; under a new
/// name it comes last.
pub proof fn registering_keeps_the_order<F>(tools: Seq<Tool<F>>, tool: Tool<F>)
    ensures
        lookup(tools, tool.name@) is Some ==> tool_names(registered(tools, tool)) == tool_names(
            tools,
        ),
        lookup(tools, tool.name@) is None ==> tool_names(registered(tools, tool)) == tool_names(
            tools,
        ).push(tool.name@),
{
    lemma_index_named(tools, tool.name@);
    if lookup(tools, tool.name@) is Some {
        assert(tool_names(registered(tools, tool)) =~= tool_names(tools));
    } else {
        assert(tool_names(registered(tools, tool)) =~= tool_names(tools).push(tool.name@));
    }
}

/// Of two tools that are registered under one name, the later one replaces the earlier.
pub proof fn later_registration_replaces<F>(tools: Seq<Tool<F>>, first: Tool<F>, second: Tool<F>)
    requires
        first.name@ == second.name@,
    ensures
        registered(registered(tools, first), second) == registered(tools, second),
{
    let name = first.name@;
    lemma_index_named(tools, name);
    let i = index_named(tools, name);
    lemma_index_is(registered(tools, first), name, i);
    assert(registered(registered(tools, first), second) =~= registered(tools, second));
}

/// A tool that was unregistered is not found any more.
pub proof fn unregistered_tool_is_gone<F>(tools: Seq<Tool<F>>, name: Seq<char>)
    requires
        names_distinct(tools),
    ensures
        lookup(unregistered(tools, name), name) is None,
{
    lemma_index_named(tools, name);
    let i = index_named(tools, name);
    let after = unregistered(tools, name);
    assert forall|k: int| 0 <= k < after.len() implies (#[trigger] after[k]).name@ != name by {
        if k < i {
            assert(after[k] == tools[k]);
        } else {
            assert(after[k] == tools[k + 1]);
            assert(tools[i].name@ == name);
        }
    }
    lemma_index_is(after, name, after.len() as int);
}

/// To unregister a tool changes nothing under other names.
pub proof fn unregistering_keeps_the_others<F>(
    tools: Seq<Tool<F>>,
    name: Seq<char>,
    other: Seq<char>,
)
    requires
        other != name,
    ensures
        lookup(unregistered(tools, name), other) == lookup(tools, other),
{
    lemma_index_named(tools, name);
    lemma_index_named(tools, other);
    let at = index_named(tools, name);
    let i = index_named(tools, other);
    let after = unregistered(tools, name);
    if at < tools.len() {
        let j = if i < at {
            i
        } else {
            i - 1
        };
        assert forall|k: int| 0 <= k < j implies (#[trigger] after[k]).name@ != other by {
            if k < at {
                assert(after[k] == tools[k]);
            } else {
                assert(after[k] == tools[k + 1]);
            }
        }
        lemma_index_is(after, other, j);
    }
}

/// To unregister a tool that was registered under a new name undoes the registration.
pub proof fn unregistering_undoes_registering<F>(tools: Seq<Tool<F>>, tool: Tool<F>)
    requires
        lookup(tools, tool.name@) is None,
    ensures
        unregistered(registered(tools, tool), tool.name@) == tools,
{
    lemma_index_named(tools, tool.name@);
    lemma_index_is(registered(tools, tool), tool.name@, tools.len() as int);
    assert(unregistered(registered(tools, tool), tool.name@) =~= tools);
}

/// A registry of tools, which are in the order in which their names were registered. No
/// two tools have the same name.
pub struct ToolRegistry<F> {
    tools: Vec<Tool<F>>,
}

impl<F> View for ToolRegistry<F> {
    type V = Seq<Tool<F>>;

    closed spec fn view(&self) -> Seq<Tool<F>> {
        self.tools@
    }
}

impl<F> ToolRegistry<F> {
    /// No two tools have the same name.
    pub open spec fn wf(&self) -> bool {
        names_distinct(self@)
    }

    /// A registry without tools.
    pub fn new() -> (registry: ToolRegistry<F>)
        ensures
            registry.wf(),
            registry@ == Seq::<Tool<F>>::empty(),
    {
        ToolRegistry { tools: Vec::new() }
    }

    /// A registry of the built-in tools, with the executors that `make` makes for them.
    pub fn with_builtins<M: Fn(Builtin) -> F>(make: &M) -> (registry: ToolRegistry<F>)
        requires
            forall|which: Builtin| #[trigger] call_requires(*make, (which,)),
        ensures
            registry.wf(),
            are_builtin(*make, registry@),
    {
        let tools = builtin_tools(make);
        proof {
            builtin_tools_are_distinct(*make, tools@);
        }
        ToolRegistry { tools }
    }

    /// The position of the tool of this name, or the number of tools.
    fn find(&self, name: &str) -> (i: usize)
        ensures
            i == index_named(self@, name@),
            i <= self@.len(),
    {
        let mut i: usize = 0;
        assert(self@.skip(0) =~= self@);
        while i < self.tools.len()
            invariant
                i <= self@.len(),
                self@ == self.tools@,
                index_named(self@, name@) == i + index_named(self@.skip(i as int), name@),
            decreases self@.len() - i,
        {
            assert(self@.skip(i as int)[0] == self@[i as int]);
            if same_text(self.tools[i].name.as_str(), name) {
                return i;
            }
            assert(self@.skip(i as int).drop_first() =~= self@.skip(i + 1));
            i += 1;
        }
        i
    }

    /// Registers a tool, in the place of the one of its name if there is one.
    pub fn register(&mut self, tool: Tool<F>)
        requires
            old(self).wf(),
        ensures
            final(self).wf(),
            final(self)@ == registered(old(self)@, tool),
    {
        let i = self.find(tool.name.as_str());
        proof {
            lemma_index_named(self@, tool.name@);
        }
        if i < self.tools.len() {
            self.tools[i] = tool;
        } else {
            self.tools.push(tool);
        }
    }

    /// Removes the tool of this name and gives it back, if there is one.
    pub fn unregister(&mut self, name: &str) -> (removed: Option<Tool<F>>)
        requires
            old(self).wf(),
        ensures
            final(self).wf(),
            final(self)@ == unregistered(old(self)@, name@),
            removed == lookup(old(self)@, name@),
    {
        let i = self.find(name);
        if i < self.tools.len() {
            Some(self.tools.remove(i))
        } else {
            None
        }
    }

    /// The tool of this name, if there is one.
    pub fn get(&self, name: &str) -> (found: Option<&Tool<F>>)
        ensures
            match found {
                Some(tool) => lookup(self@, name@) == Some(*tool),
                None => lookup(self@, name@) is None,
            },
    {
        let i = self.find(name);
        if i < self.tools.len() {
            Some(&self.tools[i])
        } else {
            None
        }
    }

    /// The tools, in the order of registration.
    pub fn all(&self) -> (tools: Vec<&Tool<F>>)
        ensures
            tools@.len() == self@.len(),
            forall|i: int| 0 <= i < self@.len() ==> *(#[trigger] tools@[i]) == self@[i],
    {
        let mut tools: Vec<&Tool<F>> = Vec::new();
        let mut i: usize = 0;
        while i < self.tools.len()
            invariant
                i <= self@.len(),
                self@ == self.tools@,
                tools@.len() == i,
                forall|k: int| 0 <= k < i ==> *(#[trigger] tools@[k]) == self@[k],
            decreases self@.len() - i,
        {
            tools.push(&self.tools[i]);
            i += 1;
        }
        tools
    }

    /// The tools as they are advertised to the model, in the order of registration.
    pub fn as_chat_tools(&self) -> (tools: Vec<ChatTool>)
        ensures
            chat_tools_view(tools@) == all_advertised(self@),
    {
        let mut tools: Vec<ChatTool> = Vec::new();
        let mut i: usize = 0;
        while i < self.tools.len()
            invariant
                i <= self@.len(),
                self@ == self.tools@,
                tools@.len() == i,
                forall|k: int|
                    0 <= k < i ==> (#[trigger] tools@[k])@ == self@[k]@.advertised(),
            decreases self@.len() - i,
        {
            tools.push(self.tools[i].as_chat_tool());
            i += 1;
        }
        assert(chat_tools_view(tools@) =~= all_advertised(self@));
        tools
    }

    /// Whether there is a tool of this name.
    pub fn contains(&self, name: &str) -> (r: bool)
        ensures
            r == lookup(self@, name@) is Some,
    {
        self.find(name) < self.tools.len()
    }

    /// How many tools there are.
    pub fn len(&self) -> (n: usize)
        ensures
            n == self@.len(),
    {
        self.tools.len()
    }

    /// Whether there are no tools.
    pub fn is_empty(&self) -> (r: bool)
        ensures
            r == (self@.len() == 0),
    {
        self.tools.len() == 0
    }
}

impl<F> Default for ToolRegistry<F> {
    fn default() -> (registry: Self)
        ensures
            registry.wf(),
            registry@ == Seq::<Tool<F>>::empty(),
    {
        ToolRegistry::new()
    }
}

/// Whether tools are copies of others: the same descriptions, and copies of the executors.
pub open spec fn tools_copied<F: Clone>(of: Seq<Tool<F>>, copy: Seq<Tool<F>>) -> bool {
    &&& copy.len() == of.len()
    &&& forall|i: int|
        0 <= i < of.len() ==> (#[trigger] copy[i])@ == of[i]@ && cloned(
            of[i].executor,
            copy[i].executor,
        )
}

impl<F: Clone> Clone for ToolRegistry<F> {
    fn clone(&self) -> (copy: Self)
        ensures
            self.wf() ==> copy.wf(),
            tools_copied(self@, copy@),
    {
        let mut tools: Vec<Tool<F>> = Vec::new();
        let mut i: usize = 0;
        while i < self.tools.len()
            invariant
                i <= self@.len(),
                self@ == self.tools@,
                tools@.len() == i,
                forall|k: int|
                    0 <= k < i ==> (#[trigger] tools@[k])@ == self@[k]@ && cloned(
                        self@[k].executor,
                        tools@[k].executor,
                    ),
            decreases self@.len() - i,
        {
            tools.push(self.tools[i].clone());
            i += 1;
        }
        let copy = ToolRegistry { tools };
        assert forall|i: int, k: int|
            self.wf() && 0 <= i < k < copy@.len() implies (#[trigger] copy@[i]).name@ != (
        #[trigger] copy@[k]).name@ by {
            assert(copy@[i]@ == self@[i]@ && copy@[k]@ == self@[k]@);
            assert(self@[i]@.name == self@[i].name@ && self@[k]@.name == self@[k].name@);
        }
        copy
    }
}

} // verus!
