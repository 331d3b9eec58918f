//! How the built-in tools are described to the model, and what the registry holds.
use vstd::prelude::*;
use crate::chat::{chat_tools_view, ChatTool};
use crate::json::laws::{keys_differ, laid_out, lemma_laid_out};
use crate::json::{Json, JsonView};
use crate::tools::bash_tools::{run_description, run_tool_with};
use crate::tools::calc_tools::{calc_description, calc_tool_with};
use crate::tools::file_tools::{
    list_description, list_tool_with, read_description, read_tool_with, write_description,
    write_tool_with,
};
use crate::tools::web_tools::{
    fetch_description, fetch_tool_with, search_description, search_tool_with,
};
use crate::tools::{
    all_advertised, builtins, gives_only, index_named, lookup, names_distinct, object_schema, property,
    property_schema, registered, run_view, s_required, strs, unregistered, Builtin, Execution,
    Tool, ToolRegistry, ToolResult, ToolResultView,
};
use crate::wire::fields::has_only;

verus! {

// ---------------------------------------------------------------------------
// Schemas
// ---------------------------------------------------------------------------

/// Whether a schema asks for an object with these properties: those in `required` have to be
/// there, in this order, and none but those in `properties` may be.
pub open spec fn asks_for_object(
    schema: JsonView,
    properties: JsonView,
    required: Seq<Seq<char>>,
) -> bool {
    &&& has_only(schema, seq!["additionalProperties"@, "properties"@, "required"@, "type"@])
    &&& schema.field("type"@) == Some(JsonView::Text("object"@))
    &&& schema.field("additionalProperties"@) == Some(JsonView::Bool(false))
    &&& schema.field("properties"@) == Some(properties)
    &&& schema.field("required"@) matches Some(JsonView::Array(names)) && names.len()
        == required.len() && forall|i: int|
        0 <= i < names.len() ==> (#[trigger] names[i]) == JsonView::Text(required[i])
}

/// Whether a schema asks for a property of this kind, with a description.
pub open spec fn asks_for_property(schema: JsonView, kind: Seq<char>) -> bool {
    &&& has_only(schema, seq!["description"@, "type"@])
    &&& schema.field("type"@) == Some(JsonView::Text(kind))
    &&& schema.field("description"@) is Some && (schema.field("description"@)->0) is Text
}

/// The schema of an object asks for the object.
proof fn lemma_object_schema(properties: JsonView, required: Seq<Seq<char>>)
    ensures
        asks_for_object(object_schema(properties, required), properties, required),
{
    let schema = object_schema(properties, required);
    let keys = seq!["additionalProperties"@, "properties"@, "required"@, "type"@];
    reveal_strlit("additionalProperties");
    reveal_strlit("properties");
    reveal_strlit("required");
    reveal_strlit("type");
    assert("additionalProperties"@.len() == 20 && "properties"@.len() == 10 && "required"@.len()
        == 8 && "type"@.len() == 4);
    let parts: Seq<(Seq<char>, Option<JsonView>)> = seq![
        ("additionalProperties"@, Some(JsonView::Bool(false))),
        ("properties"@, Some(properties)),
        (
            "required"@,
            Some(JsonView::Array(Seq::new(required.len(), |i: int| JsonView::Text(required[i])))),
        ),
        ("type"@, Some(JsonView::Text("object"@))),
    ];
    assert(keys_differ(parts));
    reveal_with_fuel(laid_out, 5);
    assert(laid_out(parts) =~= schema->Object_0);
    lemma_laid_out(parts, parts[0].0);
    lemma_laid_out(parts, parts[1].0);
    lemma_laid_out(parts, parts[2].0);
    lemma_laid_out(parts, parts[3].0);
    assert forall|k: Seq<char>| !keys.contains(k) implies (#[trigger] schema.field(k)) is None by {
        assert forall|i: int| 0 <= i < parts.len() implies (#[trigger] parts[i]).0 != k by {
            assert(keys[i] == parts[i].0);
        }
        lemma_laid_out(parts, k);
    }
}

/// The schema of a property asks for the property.
proof fn lemma_property_schema(kind: Seq<char>, description: Seq<char>)
    ensures
        asks_for_property(property_schema(kind, description), kind),
        property_schema(kind, description).field("description"@) == Some(
            JsonView::Text(description),
        ),
{
    let schema = property_schema(kind, description);
    let keys = seq!["description"@, "type"@];
    reveal_strlit("description");
    reveal_strlit("type");
    assert("description"@.len() == 11 && "type"@.len() == 4);
    let parts: Seq<(Seq<char>, Option<JsonView>)> = seq![
        ("description"@, Some(JsonView::Text(description))),
        ("type"@, Some(JsonView::Text(kind))),
    ];
    assert(keys_differ(parts));
    reveal_with_fuel(laid_out, 3);
    assert(laid_out(parts) =~= schema->Object_0);
    lemma_laid_out(parts, parts[0].0);
    lemma_laid_out(parts, parts[1].0);
    assert forall|k: Seq<char>| !keys.contains(k) implies (#[trigger] schema.field(k)) is None by {
        assert forall|i: int| 0 <= i < parts.len() implies (#[trigger] parts[i]).0 != k by {
            assert(keys[i] == parts[i].0);
        }
        lemma_laid_out(parts, k);
    }
}

/// The schema of an object asks for just the properties that are handed in.
pub proof fn schemas_ask_for_their_properties(properties: Json, required: &[&str], schema: Json)
    requires
        call_ensures(s_required, (properties, required), schema),
    ensures
        asks_for_object(schema@, properties@, strs(required@)),
{
    lemma_object_schema(properties@, strs(required@));
}

/// The schema of a property has the kind and the description that are handed in.
pub proof fn properties_have_a_kind(kind: &str, description: &str, schema: Json)
    requires
        call_ensures(property, (kind, description), schema),
    ensures
        asks_for_property(schema@, kind@),
        schema@.field("description"@) == Some(JsonView::Text(description@)),
{
    lemma_property_schema(kind@, description@);
}

/// Properties by their names.
proof fn lemma_one_property(name: Seq<char>, schema: JsonView)
    ensures
        ({
            let properties = JsonView::Object(seq![(name, schema)]);
            &&& properties.field(name) == Some(schema)
            &&& has_only(properties, seq![name])
        }),
{
    let properties = JsonView::Object(seq![(name, schema)]);
    let parts: Seq<(Seq<char>, Option<JsonView>)> = seq![(name, Some(schema))];
    assert(keys_differ(parts));
    reveal_with_fuel(laid_out, 2);
    assert(laid_out(parts) =~= properties->Object_0);
    lemma_laid_out(parts, parts[0].0);
    assert forall|k: Seq<char>| !seq![name].contains(k) implies (#[trigger] properties.field(
        k,
    )) is None by {
        assert(seq![name][0] == name);
        lemma_laid_out(parts, k);
    }
}

/// Two properties by their names.
proof fn lemma_two_properties(a: Seq<char>, s: JsonView, b: Seq<char>, t: JsonView)
    requires
        a != b,
    ensures
        ({
            let properties = JsonView::Object(seq![(a, s), (b, t)]);
            &&& properties.field(a) == Some(s)
            &&& properties.field(b) == Some(t)
            &&& has_only(properties, seq![a, b])
        }),
{
    let properties = JsonView::Object(seq![(a, s), (b, t)]);
    let parts: Seq<(Seq<char>, Option<JsonView>)> = seq![(a, Some(s)), (b, Some(t))];
    assert(keys_differ(parts));
    reveal_with_fuel(laid_out, 3);
    assert(laid_out(parts) =~= properties->Object_0);
    lemma_laid_out(parts, parts[0].0);
    lemma_laid_out(parts, parts[1].0);
    assert forall|k: Seq<char>| !seq![a, b].contains(k) implies (#[trigger] properties.field(
        k,
    )) is None by {
        assert(seq![a, b][0] == a && seq![a, b][1] == b);
        lemma_laid_out(parts, k);
    }
}

// ---------------------------------------------------------------------------
// The built-in tools
// ---------------------------------------------------------------------------

/// The tool that reads a file has a name of its own, takes just these arguments, and runs what it
/// is given.
pub proof fn files_to_read_are_described<F>(executor: F, tool: Tool<F>)
    requires
        call_ensures(read_tool_with::<F>, (executor,), tool),
    ensures
        tool.executor == executor,
        tool.name@ == "file_read"@,
        tool.description@ == "Read the full contents of a text file at the given absolute or relative path. Returns file contents, or an error if the file does not exist or is not readable."@,
        tool.parameters@.field("properties"@) matches Some(properties) && {
            &&& asks_for_object(tool.parameters@, properties, seq!["path"@])
            &&& has_only(properties, seq!["path"@])
            &&& properties.field("path"@) matches Some(p) && asks_for_property(p, "string"@) && p.field(
                "description"@,
            ) == Some(JsonView::Text("Absolute or workspace-relative path of the file to read."@))
        },
{
    let parameters = read_description().parameters;
    let properties = (parameters->Object_0)[1].1;
    lemma_object_schema(properties, seq!["path"@]);
    lemma_property_schema("string"@, "Absolute or workspace-relative path of the file to read."@);
    lemma_one_property("path"@, property_schema("string"@, "Absolute or workspace-relative path of the file to read."@));
}

/// The tool that writes a file has a name of its own, takes just these arguments, and runs what it
/// is given.
pub proof fn files_to_write_are_described<F>(executor: F, tool: Tool<F>)
    requires
        call_ensures(write_tool_with::<F>, (executor,), tool),
    ensures
        tool.executor == executor,
        tool.name@ == "file_write"@,
        tool.description@ == "Write the given text content to a file at the given path, overwriting it. Creates parent directories automatically. Returns the path written."@,
        tool.parameters@.field("properties"@) matches Some(properties) && {
            &&& asks_for_object(tool.parameters@, properties, seq!["path"@, "content"@])
            &&& has_only(properties, seq!["content"@, "path"@])
            &&& properties.field("content"@) matches Some(p) && asks_for_property(p, "string"@) && p.field(
                "description"@,
            ) == Some(JsonView::Text("Full text content to write to the file."@))
            &&& properties.field("path"@) matches Some(p) && asks_for_property(p, "string"@) && p.field(
                "description"@,
            ) == Some(JsonView::Text("Path of the file to write."@))
        },
{
    let parameters = write_description().parameters;
    let properties = (parameters->Object_0)[1].1;
    lemma_object_schema(properties, seq!["path"@, "content"@]);
    lemma_property_schema("string"@, "Full text content to write to the file."@);
    lemma_property_schema("string"@, "Path of the file to write."@);
    reveal_strlit("content");
    reveal_strlit("path");
    assert("content"@.len() != "path"@.len());
    lemma_two_properties(
        "content"@,
        property_schema("string"@, "Full text content to write to the file."@),
        "path"@,
        property_schema("string"@, "Path of the file to write."@),
    );
}

/// The tool that lists a directory has a name of its own, takes just these arguments, and runs what it
/// is given.
pub proof fn directories_are_described<F>(executor: F, tool: Tool<F>)
    requires
        call_ensures(list_tool_with::<F>, (executor,), tool),
    ensures
        tool.executor == executor,
        tool.name@ == "file_list"@,
        tool.description@ == "List the names of entries inside a directory. Returns one entry name per line."@,
        tool.parameters@.field("properties"@) matches Some(properties) && {
            &&& asks_for_object(tool.parameters@, properties, seq!["path"@])
            &&& has_only(properties, seq!["path"@])
            &&& properties.field("path"@) matches Some(p) && asks_for_property(p, "string"@) && p.field(
                "description"@,
            ) == Some(JsonView::Text("Directory to list."@))
        },
{
    let parameters = list_description().parameters;
    let properties = (parameters->Object_0)[1].1;
    lemma_object_schema(properties, seq!["path"@]);
    lemma_property_schema("string"@, "Directory to list."@);
    lemma_one_property("path"@, property_schema("string"@, "Directory to list."@));
}

/// The tool that runs a command has a name of its own, takes just these arguments, and runs what it
/// is given.
pub proof fn commands_are_described<F>(executor: F, tool: Tool<F>)
    requires
        call_ensures(run_tool_with::<F>, (executor,), tool),
    ensures
        tool.executor == executor,
        tool.name@ == "bash_run"@,
        tool.description@ == "Run a shell command through /bin/bash and capture its stdout. If the command exits non-zero, stdout/stderr are returned and the tool is marked as errored."@,
        tool.parameters@.field("properties"@) matches Some(properties) && {
            &&& asks_for_object(tool.parameters@, properties, seq!["command"@])
            &&& has_only(properties, seq!["command"@, "timeout_secs"@])
            &&& properties.field("command"@) matches Some(p) && asks_for_property(p, "string"@) && p.field(
                "description"@,
            ) == Some(JsonView::Text("The shell command to run."@))
            &&& properties.field("timeout_secs"@) matches Some(p) && asks_for_property(p, "integer"@) && p.field(
                "description"@,
            ) == Some(JsonView::Text("Optional per-command timeout in seconds (default 30)."@))
        },
{
    let parameters = run_description().parameters;
    let properties = (parameters->Object_0)[1].1;
    lemma_object_schema(properties, seq!["command"@]);
    lemma_property_schema("string"@, "The shell command to run."@);
    lemma_property_schema("integer"@, "Optional per-command timeout in seconds (default 30)."@);
    reveal_strlit("command");
    reveal_strlit("timeout_secs");
    assert("command"@.len() != "timeout_secs"@.len());
    lemma_two_properties(
        "command"@,
        property_schema("string"@, "The shell command to run."@),
        "timeout_secs"@,
        property_schema("integer"@, "Optional per-command timeout in seconds (default 30)."@),
    );
}

/// The tool that fetches a page has a name of its own, takes just these arguments, and runs what it
/// is given.
pub proof fn pages_are_described<F>(executor: F, tool: Tool<F>)
    requires
        call_ensures(fetch_tool_with::<F>, (executor,), tool),
    ensures
        tool.executor == executor,
        tool.name@ == "web_fetch"@,
        tool.description@ == "Perform an HTTP GET request to the given URL and return the response body as text. Useful for retrieving web pages, APIs, and other remote content the agent cannot see by itself."@,
        tool.parameters@.field("properties"@) matches Some(properties) && {
            &&& asks_for_object(tool.parameters@, properties, seq!["url"@])
            &&& has_only(properties, seq!["url"@])
            &&& properties.field("url"@) matches Some(p) && asks_for_property(p, "string"@) && p.field(
                "description"@,
            ) == Some(JsonView::Text("The absolute URL to fetch (https or http)."@))
        },
{
    let parameters = fetch_description().parameters;
    let properties = (parameters->Object_0)[1].1;
    lemma_object_schema(properties, seq!["url"@]);
    lemma_property_schema("string"@, "The absolute URL to fetch (https or http)."@);
    lemma_one_property("url"@, property_schema("string"@, "The absolute URL to fetch (https or http)."@));
}

/// The tool that searches the web has a name of its own, takes just these arguments, and runs what it
/// is given.
pub proof fn searches_are_described<F>(executor: F, tool: Tool<F>)
    requires
        call_ensures(search_tool_with::<F>, (executor,), tool),
    ensures
        tool.executor == executor,
        tool.name@ == "web_search"@,
        tool.description@ == "Search the web for the given query and return a short list of result titles and URLs. Requires the TAVILY_API_KEY environment variable; when it is absent the tool explains that and the agent should fall back to web_fetch."@,
        tool.parameters@.field("properties"@) matches Some(properties) && {
            &&& asks_for_object(tool.parameters@, properties, seq!["query"@])
            &&& has_only(properties, seq!["max_results"@, "query"@])
            &&& properties.field("max_results"@) matches Some(p) && asks_for_property(p, "integer"@) && p.field(
                "description"@,
            ) == Some(JsonView::Text("Optional number of results to return (default 5)."@))
            &&& properties.field("query"@) matches Some(p) && asks_for_property(p, "string"@) && p.field(
                "description"@,
            ) == Some(JsonView::Text("The search query."@))
        },
{
    let parameters = search_description().parameters;
    let properties = (parameters->Object_0)[1].1;
    lemma_object_schema(properties, seq!["query"@]);
    lemma_property_schema("integer"@, "Optional number of results to return (default 5)."@);
    lemma_property_schema("string"@, "The search query."@);
    reveal_strlit("max_results");
    reveal_strlit("query");
    assert("max_results"@.len() != "query"@.len());
    lemma_two_properties(
        "max_results"@,
        property_schema("integer"@, "Optional number of results to return (default 5)."@),
        "query"@,
        property_schema("string"@, "The search query."@),
    );
}

/// The tool that calculates has a name of its own, takes just these arguments, and runs what it
/// is given.
pub proof fn calculations_are_described<F>(executor: F, tool: Tool<F>)
    requires
        call_ensures(calc_tool_with::<F>, (executor,), tool),
    ensures
        tool.executor == executor,
        tool.name@ == "calc"@,
        tool.description@ == "Evaluate a numeric expression and return the result. Supports +, -, *, /, ^ (power), parentheses, the constants pi/e/tau, and the functions sqrt, abs, sin, cos, tan, asin, acos, atan, exp, ln, log, floor, ceil, round, min, max. Example expression: (2 + 3) * 4 ^ 2 + sqrt(9)."@,
        tool.parameters@.field("properties"@) matches Some(properties) && {
            &&& asks_for_object(tool.parameters@, properties, seq!["expression"@])
            &&& has_only(properties, seq!["expression"@])
            &&& properties.field("expression"@) matches Some(p) && asks_for_property(p, "string"@) && p.field(
                "description"@,
            ) == Some(JsonView::Text("The arithmetic expression to evaluate, e.g. \"(2 + 3) * 4\"."@))
        },
{
    let parameters = calc_description().parameters;
    let properties = (parameters->Object_0)[1].1;
    lemma_object_schema(properties, seq!["expression"@]);
    lemma_property_schema("string"@, "The arithmetic expression to evaluate, e.g. \"(2 + 3) * 4\"."@);
    lemma_one_property("expression"@, property_schema("string"@, "The arithmetic expression to evaluate, e.g. \"(2 + 3) * 4\"."@));
}

/// Each built-in tool is offered, and each just once.
pub proof fn every_builtin_is_offered_once(which: Builtin)
    ensures
        builtins().contains(which),
        builtins().len() == 7,
        forall|i: int, k: int|
            0 <= i < k < builtins().len() ==> (#[trigger] builtins()[i]) != (
            #[trigger] builtins()[k]),
{
    let i: int = match which {
        Builtin::FileRead => 0,
        Builtin::FileWrite => 1,
        Builtin::FileList => 2,
        Builtin::BashRun => 3,
        Builtin::WebFetch => 4,
        Builtin::WebSearch => 5,
        Builtin::Calc => 6,
    };
    assert(builtins()[i] == which);
}

/// The names of the built-in tools.
pub proof fn builtins_have_their_names(which: Builtin)
    ensures
        which.description().name == (match which {
            Builtin::FileRead => "file_read"@,
            Builtin::FileWrite => "file_write"@,
            Builtin::FileList => "file_list"@,
            Builtin::BashRun => "bash_run"@,
            Builtin::WebFetch => "web_fetch"@,
            Builtin::WebSearch => "web_search"@,
            Builtin::Calc => "calc"@,
        }),
{
}

// ---------------------------------------------------------------------------
// Runs
// ---------------------------------------------------------------------------

/// A run of a tool is what its executor gave, as it is; a panic is an error that names the
/// tool.
pub proof fn runs_are_what_executors_give<F>(
    tool: Tool<F>,
    came: Execution,
    r: Result<ToolResult, String>,
)
    requires
        call_ensures(Tool::<F>::settle, (&tool, came), r),
    ensures
        match came {
            Some(Ok(result)) => r is Ok && (r->Ok_0).output@ == result.output@ && (r->Ok_0).is_error
                == result.is_error,
            Some(Err(e)) => r is Err && (r->Err_0)@ == e@,
            None => r is Err && (r->Err_0)@ == "tool `"@ + tool.name@ + "` panicked"@,
        },
{
}

/// A tool that is run hands the arguments to its executor, and gives what that gives.
pub proof fn tools_run_their_executors<F: Fn(&Json) -> Execution>(
    tool: Tool<F>,
    args: Json,
    r: Result<ToolResult, String>,
)
    requires
        call_ensures(Tool::<F>::run, (&tool, &args), r),
    ensures
        exists|came: Execution| #[trigger]
            call_ensures(tool.executor, (&args,), came) && (match came {
                Some(Ok(result)) => r is Ok && (r->Ok_0).output@ == result.output@ && (
                r->Ok_0).is_error == result.is_error,
                Some(Err(e)) => r is Err && (r->Err_0)@ == e@,
                None => r is Err && (r->Err_0)@ == "tool `"@ + tool.name@ + "` panicked"@,
            }),
{
}

/// A result of success and one of failure carry the same text, and differ in the mark.
pub proof fn results_are_marked(output: &str, good: ToolResult, bad: ToolResult)
    requires
        call_ensures(ToolResult::ok, (output,), good),
        call_ensures(ToolResult::err, (output,), bad),
    ensures
        good.output@ == output@ && !good.is_error,
        bad.output@ == output@ && bad.is_error,
{
}

// ---------------------------------------------------------------------------
// The registry
// ---------------------------------------------------------------------------

/// A tool is advertised with the name, the description and the parameters that it has.
pub proof fn tools_are_advertised_as_they_are<F>(tool: Tool<F>, advertised: ChatTool)
    requires
        call_ensures(Tool::<F>::as_chat_tool, (&tool,), advertised),
    ensures
        advertised.tool_type@ == "function"@,
        advertised.function.name@ == tool.name@,
        advertised.function.description@ == tool.description@,
        advertised.function.parameters@ == tool.parameters@,
{
    assert(advertised@ == tool@.advertised());
}

/// All tools of a registry are advertised, in order, as they are.
pub proof fn registries_advertise_every_tool<F>(
    registry: ToolRegistry<F>,
    advertised: Vec<ChatTool>,
)
    requires
        call_ensures(ToolRegistry::<F>::as_chat_tools, (&registry,), advertised),
    ensures
        advertised@.len() == registry@.len(),
        forall|i: int|
            0 <= i < advertised@.len() ==> {
                &&& (#[trigger] advertised@[i]).tool_type@ == "function"@
                &&& advertised@[i].function.name@ == registry@[i].name@
                &&& advertised@[i].function.description@ == registry@[i].description@
                &&& advertised@[i].function.parameters@ == registry@[i].parameters@
            },
{
    let views = chat_tools_view(advertised@);
    assert(views.len() == advertised@.len());
    assert forall|i: int| 0 <= i < advertised@.len() implies {
        &&& (#[trigger] advertised@[i]).tool_type@ == "function"@
        &&& advertised@[i].function.name@ == registry@[i].name@
        &&& advertised@[i].function.description@ == registry@[i].description@
        &&& advertised@[i].function.parameters@ == registry@[i].parameters@
    } by {
        assert(views[i] == advertised@[i]@);
        assert(views[i] == all_advertised(registry@)[i]);
    }
}

/// What a name leads to is the first tool of that name.
proof fn lemma_lookup<F>(tools: Seq<Tool<F>>, name: Seq<char>)
    ensures
        match lookup(tools, name) {
            Some(tool) => exists|i: int|
                0 <= i < tools.len() && #[trigger] tools[i] == tool && tool.name@ == name
                    && index_named(tools, name) == i && forall|k: int|
                    0 <= k < i ==> (#[trigger] tools[k]).name@ != name,
            None => index_named(tools, name) == tools.len() && forall|k: int|
                0 <= k < tools.len() ==> (#[trigger] tools[k]).name@ != name,
        },
    decreases tools.len(),
{
    if tools.len() > 0 && tools[0].name@ != name {
        let rest = tools.drop_first();
        lemma_lookup(rest, name);
        match lookup(rest, name) {
            Some(tool) => {
                let i = choose|i: int|
                    0 <= i < rest.len() && #[trigger] rest[i] == tool && tool.name@ == name
                        && index_named(rest, name) == i && forall|k: int|
                        0 <= k < i ==> (#[trigger] rest[k]).name@ != name;
                assert(tools[i + 1] == tool);
                assert forall|k: int| 0 <= k < i + 1 implies (#[trigger] tools[k]).name@
                    != name by {
                    if k > 0 {
                        assert(rest[k - 1] == tools[k]);
                    }
                }
                assert(index_named(tools, name) == i + 1);
            },
            None => {
                assert forall|k: int| 0 <= k < tools.len() implies (#[trigger] tools[k]).name@
                    != name by {
                    if k > 0 {
                        assert(rest[k - 1] == tools[k]);
                    }
                }
            },
        }
    } else if tools.len() > 0 {
        assert(tools[0].name@ == name);
        assert(index_named(tools, name) == 0);
        assert(lookup(tools, name) == Some(tools[0]));
    }
}

/// A registry finds the tool of a name, and finds none just where no tool has the name.
pub proof fn registries_find_by_name<F>(
    registry: ToolRegistry<F>,
    name: &str,
    found: Option<&Tool<F>>,
    there: bool,
)
    requires
        call_ensures(ToolRegistry::<F>::get, (&registry, name), found),
        call_ensures(ToolRegistry::<F>::contains, (&registry, name), there),
    ensures
        match found {
            Some(tool) => there && exists|i: int|
                0 <= i < registry@.len() && #[trigger] registry@[i] == *tool && tool.name@ == name@
                    && forall|k: int| 0 <= k < i ==> (#[trigger] registry@[k]).name@ != name@,
            None => !there && forall|k: int|
                0 <= k < registry@.len() ==> (#[trigger] registry@[k]).name@ != name@,
        },
{
    lemma_lookup(registry@, name@);
}

/// A registry has as many tools as it lists, and is empty just where that is none.
pub proof fn registries_count_their_tools<F>(
    registry: ToolRegistry<F>,
    n: usize,
    none: bool,
    tools: Vec<&Tool<F>>,
)
    requires
        call_ensures(ToolRegistry::<F>::len, (&registry,), n),
        call_ensures(ToolRegistry::<F>::is_empty, (&registry,), none),
        call_ensures(ToolRegistry::<F>::all, (&registry,), tools),
    ensures
        n == registry@.len(),
        none <==> n == 0,
        tools@.len() == n,
        forall|i: int| 0 <= i < n ==> *(#[trigger] tools@[i]) == registry@[i],
{
}

/// Registering a tool puts it in the place of the tool of its name and leaves all others in
/// theirs; where there is none of its name, it comes behind all others.
pub proof fn tools_are_registered_in_place<F>(tools: Seq<Tool<F>>, tool: Tool<F>)
    requires
        names_distinct(tools),
    ensures
        ({
            let after = registered(tools, tool);
            let taken = exists|i: int|
                0 <= i < tools.len() && (#[trigger] tools[i]).name@ == tool.name@;
            &&& after.len() == tools.len() + (if taken {
                0int
            } else {
                1int
            })
            &&& forall|i: int|
                0 <= i < tools.len() ==> (#[trigger] after[i]) == (if tools[i].name@
                    == tool.name@ {
                    tool
                } else {
                    tools[i]
                })
            &&& !taken ==> after[tools.len() as int] == tool
        }),
{
    lemma_lookup(tools, tool.name@);
    let after = registered(tools, tool);
    match lookup(tools, tool.name@) {
        Some(found) => {
            let i = index_named(tools, tool.name@);
            assert(tools[i].name@ == tool.name@);
            assert forall|k: int| 0 <= k < tools.len() implies (#[trigger] after[k]) == (
            if tools[k].name@ == tool.name@ {
                tool
            } else {
                tools[k]
            }) by {
                if k < i {
                    assert(tools[k].name@ != tools[i].name@);
                } else if k > i {
                    assert(tools[i].name@ != tools[k].name@);
                }
            }
        },
        None => {},
    }
}

/// Whether a tool has another name.
pub open spec fn is_not<F>(name: Seq<char>) -> spec_fn(Tool<F>) -> bool {
    |tool: Tool<F>| tool.name@ != name
}

/// All tools but those of a name, in their order.
pub open spec fn all_but<F>(tools: Seq<Tool<F>>, name: Seq<char>) -> Seq<Tool<F>> {
    tools.filter(is_not(name))
}

/// Unregistering a tool leaves all others, in their order.
pub proof fn tools_are_unregistered_alone<F>(tools: Seq<Tool<F>>, name: Seq<char>)
    requires
        names_distinct(tools),
    ensures
        unregistered(tools, name) == all_but(tools, name),
{
    lemma_lookup(tools, name);
    let keep = is_not(name);
    let i = index_named(tools, name);
    if i < tools.len() {
        let front = tools.take(i);
        let back = tools.skip(i + 1);
        assert forall|k: int| 0 <= k < front.len() implies keep(#[trigger] front[k]) by {
            assert(front[k] == tools[k]);
        }
        assert forall|k: int| 0 <= k < back.len() implies keep(#[trigger] back[k]) by {
            assert(back[k] == tools[i + 1 + k]);
            assert(tools[i].name@ != tools[i + 1 + k].name@);
        }
        lemma_all_kept(front, keep);
        lemma_all_kept(back, keep);
        let one = seq![tools[i]];
        assert(one.filter(keep) =~= Seq::<Tool<F>>::empty()) by {
            reveal(Seq::filter);
            reveal_with_fuel(Seq::filter, 2);
            assert(one.drop_last() =~= Seq::<Tool<F>>::empty());
        }
        Seq::filter_distributes_over_add(front, one, keep);
        Seq::filter_distributes_over_add(front + one, back, keep);
        assert(tools =~= front + one + back);
        assert(tools.remove(i) =~= front + back);
    } else {
        lemma_all_kept(tools, keep);
    }
}

/// Nothing is filtered out where all pass.
proof fn lemma_all_kept<F>(tools: Seq<Tool<F>>, keep: spec_fn(Tool<F>) -> bool)
    requires
        forall|k: int| 0 <= k < tools.len() ==> keep(#[trigger] tools[k]),
    ensures
        tools.filter(keep) == tools,
    decreases tools.len(),
{
    reveal(Seq::filter);
    if tools.len() > 0 {
        let fewer = tools.drop_last();
        assert forall|k: int| 0 <= k < fewer.len() implies keep(#[trigger] fewer[k]) by {
            assert(fewer[k] == tools[k]);
        }
        lemma_all_kept(fewer, keep);
        assert(keep(tools[tools.len() - 1]));
        assert(fewer.push(tools.last()) =~= tools);
    }
}

/// To register a tool in a registry puts it in the place of the tool of its name, or behind
/// all others, and leaves the others in their places.
pub proof fn registries_register_in_place<F>(tool: Tool<F>)
    ensures
        forall|registry: &mut ToolRegistry<F>| #[trigger]
            call_ensures(ToolRegistry::<F>::register, (registry, tool), ()) && (
            *registry).wf() ==> {
                let before = (*registry)@;
                let after = (*final(registry))@;
                let taken = exists|i: int|
                    0 <= i < before.len() && (#[trigger] before[i]).name@ == tool.name@;
                &&& (*final(registry)).wf()
                &&& after.len() == before.len() + (if taken {
                    0int
                } else {
                    1int
                })
                &&& forall|i: int|
                    0 <= i < before.len() ==> (#[trigger] after[i]) == (if before[i].name@
                        == tool.name@ {
                        tool
                    } else {
                        before[i]
                    })
                &&& !taken ==> after[before.len() as int] == tool
            },
{
    assert forall|registry: &mut ToolRegistry<F>| #[trigger]
        call_ensures(ToolRegistry::<F>::register, (registry, tool), ()) && (
        *registry).wf() implies {
        let before = (*registry)@;
        let after = (*final(registry))@;
        let taken = exists|i: int|
            0 <= i < before.len() && (#[trigger] before[i]).name@ == tool.name@;
        &&& (*final(registry)).wf()
        &&& after.len() == before.len() + (if taken {
            0int
        } else {
            1int
        })
        &&& forall|i: int|
            0 <= i < before.len() ==> (#[trigger] after[i]) == (if before[i].name@ == tool.name@ {
                tool
            } else {
                before[i]
            })
        &&& !taken ==> after[before.len() as int] == tool
    } by {
        tools_are_registered_in_place((*registry)@, tool);
    }
}

/// To unregister a tool gives it back and leaves all others in their order; where there is
/// none of the name, nothing changes.
pub proof fn registries_unregister_alone<F>(name: &str, removed: Option<Tool<F>>)
    ensures
        forall|registry: &mut ToolRegistry<F>| #[trigger]
            call_ensures(ToolRegistry::<F>::unregister, (registry, name), removed) && (
            *registry).wf() ==> {
                &&& (*final(registry)).wf()
                &&& (*final(registry))@ == all_but((*registry)@, name@)
                &&& match removed {
                    Some(tool) => tool.name@ == name@ && (*registry)@.contains(tool),
                    None => forall|i: int|
                        0 <= i < (*registry)@.len() ==> (#[trigger] (*registry)@[i]).name@ != name@,
                }
            },
{
    assert forall|registry: &mut ToolRegistry<F>| #[trigger]
        call_ensures(ToolRegistry::<F>::unregister, (registry, name), removed) && (
        *registry).wf() implies {
        &&& (*final(registry)).wf()
        &&& (*final(registry))@ == all_but((*registry)@, name@)
        &&& match removed {
            Some(tool) => tool.name@ == name@ && (*registry)@.contains(tool),
            None => forall|i: int|
                0 <= i < (*registry)@.len() ==> (#[trigger] (*registry)@[i]).name@ != name@,
        }
    } by {
        tools_are_unregistered_alone((*registry)@, name@);
        lemma_lookup((*registry)@, name@);
    }
}

/// A new registry has no tools.
pub proof fn new_registries_are_empty<F>(registry: ToolRegistry<F>)
    requires
        call_ensures(ToolRegistry::<F>::new, (), registry),
    ensures
        registry@.len() == 0,
        registry.wf(),
{
}

/// A registry of the built-in tools has just these, in this order, each with what was made
/// for it.
pub proof fn registries_start_with_the_builtins<F, M: Fn(Builtin) -> F>(
    make: M,
    registry: ToolRegistry<F>,
)
    requires
        call_ensures(ToolRegistry::<F>::with_builtins::<M>, (&make,), registry),
    ensures
        registry.wf(),
        registry@.len() == 7,
        registry@[0].name@ == "file_read"@,
        registry@[1].name@ == "file_write"@,
        registry@[2].name@ == "file_list"@,
        registry@[3].name@ == "bash_run"@,
        registry@[4].name@ == "web_fetch"@,
        registry@[5].name@ == "web_search"@,
        registry@[6].name@ == "calc"@,
        call_ensures(make, (Builtin::FileRead,), registry@[0].executor),
        call_ensures(make, (Builtin::FileWrite,), registry@[1].executor),
        call_ensures(make, (Builtin::FileList,), registry@[2].executor),
        call_ensures(make, (Builtin::BashRun,), registry@[3].executor),
        call_ensures(make, (Builtin::WebFetch,), registry@[4].executor),
        call_ensures(make, (Builtin::WebSearch,), registry@[5].executor),
        call_ensures(make, (Builtin::Calc,), registry@[6].executor),
{
    let tools = registry@;
    assert(tools[0]@ == builtins()[0].description());
    assert(tools[1]@ == builtins()[1].description());
    assert(tools[2]@ == builtins()[2].description());
    assert(tools[3]@ == builtins()[3].description());
    assert(tools[4]@ == builtins()[4].description());
    assert(tools[5]@ == builtins()[5].description());
    assert(tools[6]@ == builtins()[6].description());
    assert(tools[0]@.name == tools[0].name@ && tools[1]@.name == tools[1].name@);
    assert(tools[2]@.name == tools[2].name@ && tools[3]@.name == tools[3].name@);
    assert(tools[4]@.name == tools[4].name@ && tools[5]@.name == tools[5].name@);
    assert(tools[6]@.name == tools[6].name@);
}

/// A run says what its result holds.
pub proof fn runs_say_what_they_hold(r: Result<ToolResult, String>)
    ensures
        match r {
            Ok(result) => run_view(r) is Ok && (
            run_view(r)->Ok_0).output == result.output@ && (run_view(
                r,
            )->Ok_0).is_error == result.is_error,
            Err(e) => run_view(r) == Err::<ToolResultView, Seq<char>>(
                e@,
            ),
        },
{
}

/// A copy of a registry has the same tools in the same order, with copies of the executors.
pub proof fn copies_of_registries_hold_the_same<F: Clone>(
    registry: ToolRegistry<F>,
    copy: ToolRegistry<F>,
)
    requires
        call_ensures(ToolRegistry::<F>::clone, (&registry,), copy),
    ensures
        copy@.len() == registry@.len(),
        forall|i: int|
            0 <= i < registry@.len() ==> {
                &&& (#[trigger] copy@[i]).name@ == registry@[i].name@
                &&& copy@[i].description@ == registry@[i].description@
                &&& copy@[i].parameters@ == registry@[i].parameters@
                &&& cloned(registry@[i].executor, copy@[i].executor)
            },
{
    assert forall|i: int| 0 <= i < registry@.len() implies {
        &&& (#[trigger] copy@[i]).name@ == registry@[i].name@
        &&& copy@[i].description@ == registry@[i].description@
        &&& copy@[i].parameters@ == registry@[i].parameters@
        &&& cloned(registry@[i].executor, copy@[i].executor)
    } by {
        assert(copy@[i]@ == registry@[i]@);
        assert(copy@[i]@.name == copy@[i].name@ && registry@[i]@.name == registry@[i].name@);
        assert(copy@[i]@.parameters == copy@[i].parameters@);
    }
}

/// An executor of a built-in tool takes all arguments that it accepts, never panics, and
/// gives only what is allowed for its arguments.
pub proof fn executors_do_not_panic<F: Fn(&Json) -> Execution>(
    executor: F,
    accepted: spec_fn(JsonView) -> bool,
    allowed: spec_fn(JsonView, Result<ToolResult, String>) -> bool,
    args: Json,
    came: Execution,
)
    requires
        gives_only(executor, accepted, allowed),
    ensures
        accepted(args@) ==> call_requires(executor, (&args,)),
        call_ensures(executor, (&args,), came) ==> came is Some && allowed(args@, came->0),
{
}

} // verus!
