use agent_loop::agent::tools_section;
use agent_loop::chat::ChatTool;
use agent_loop::json::{parse_json, Json};
use agent_loop::tools::{builtin_tools, property, s_required, Builtin, Execution};
use agent_loop::{Tool, ToolRegistry, ToolResult};

type Executor = Box<dyn Fn(&Json) -> Execution>;

fn nothing() -> Json {
    Json::Object(Vec::new())
}

fn says(text: &'static str) -> Executor {
    Box::new(move |_| Some(Ok(ToolResult::ok(text))))
}

fn tool(name: &str, text: &'static str) -> Tool<Executor> {
    Tool::new(name, "a tool", s_required(nothing(), &[]), says(text))
}

fn stub(which: Builtin) -> Executor {
    Box::new(move |_| Some(Ok(ToolResult::ok(&format!("{which:?}")))))
}

fn names(registry: &ToolRegistry<Executor>) -> Vec<String> {
    registry.all().iter().map(|t| t.name.clone()).collect()
}

#[test]
fn registry_seeded_with_builtins() {
    let r = ToolRegistry::with_builtins(&stub);
    assert!(r.contains("file_read"));
    assert!(r.contains("bash_run"));
    assert!(r.contains("web_search"));
    assert!(r.contains("web_fetch"));
    assert!(r.contains("calc"));
    assert_eq!(r.len(), 7);
}

#[test]
fn dynamic_add_and_remove() {
    let mut reg: ToolRegistry<Executor> = ToolRegistry::new();
    reg.register(Tool::new("greet", "say hi", s_required(nothing(), &[]), says("hi")));
    assert!(reg.contains("greet"));
    assert_eq!(reg.len(), 1);

    // Replace the handler at runtime.
    reg.register(Tool::new("greet", "say hi", s_required(nothing(), &[]), says("hola")));
    assert_eq!(reg.get("greet").unwrap().run(&nothing()).unwrap().output, "hola");

    reg.unregister("greet");
    assert!(!reg.contains("greet"));
}

#[test]
fn panic_inside_tool_is_caught() {
    let boom: Executor = Box::new(|_| None);
    let tool = Tool::new("boom", "panics", s_required(nothing(), &[]), boom);
    let r = tool.run(&nothing());
    assert!(r.is_err());
    let e = r.unwrap_err();
    assert!(e.contains("panicked"));
    assert_eq!(e, "tool `boom` panicked");
    assert_eq!(tool.settle(None), Err("tool `boom` panicked".to_string()));
    assert_eq!(tool.settle(Some(Err("x".to_string()))), Err("x".to_string()));
}

#[test]
fn builtins_come_in_their_order_with_their_executors() {
    let r = ToolRegistry::with_builtins(&stub);
    assert_eq!(
        names(&r),
        ["file_read", "file_write", "file_list", "bash_run", "web_fetch", "web_search", "calc"]
    );
    for (name, which) in [
        ("file_read", "FileRead"),
        ("file_write", "FileWrite"),
        ("file_list", "FileList"),
        ("bash_run", "BashRun"),
        ("web_fetch", "WebFetch"),
        ("web_search", "WebSearch"),
        ("calc", "Calc"),
    ] {
        assert_eq!(r.get(name).unwrap().run(&nothing()).unwrap().output, which);
    }
    let tools = builtin_tools(&stub);
    assert_eq!(tools.len(), 7);
    assert_eq!(tools[3].name, "bash_run");
}

#[test]
fn builtins_describe_themselves() {
    let r = ToolRegistry::with_builtins(&stub);
    let schema = |name: &str| r.get(name).unwrap().parameters.clone();
    let parsed = |text: &str| parse_json(text).unwrap();
    assert_eq!(
        schema("file_write"),
        parsed(
            r#"{"type": "object",
                "properties": {
                    "path": {"type": "string", "description": "Path of the file to write."},
                    "content": {"type": "string", "description": "Full text content to write to the file."}
                },
                "required": ["path", "content"],
                "additionalProperties": false}"#
        )
    );
    assert_eq!(
        schema("bash_run"),
        parsed(
            r#"{"type": "object",
                "properties": {
                    "command": {"type": "string", "description": "The shell command to run."},
                    "timeout_secs": {"type": "integer", "description": "Optional per-command timeout in seconds (default 30)."}
                },
                "required": ["command"],
                "additionalProperties": false}"#
        )
    );
    assert_eq!(
        schema("web_search"),
        parsed(
            r#"{"type": "object",
                "properties": {
                    "query": {"type": "string", "description": "The search query."},
                    "max_results": {"type": "integer", "description": "Optional number of results to return (default 5)."}
                },
                "required": ["query"],
                "additionalProperties": false}"#
        )
    );
    assert_eq!(
        schema("calc"),
        parsed(
            r#"{"type": "object",
                "properties": {
                    "expression": {"type": "string", "description": "The arithmetic expression to evaluate, e.g. \"(2 + 3) * 4\"."}
                },
                "required": ["expression"],
                "additionalProperties": false}"#
        )
    );
    for (name, key) in [("file_read", "path"), ("file_list", "path"), ("web_fetch", "url")] {
        assert_eq!(schema(name).get("required"), Some(&Json::Array(vec![Json::text(key)])));
        assert!(schema(name).get("properties").unwrap().get(key).is_some());
    }
}

#[test]
fn schemas_have_their_keys_in_order() {
    let schema = s_required(Json::Object(vec![("ms".to_string(), property("integer", "d"))]), &["ms"]);
    assert_eq!(
        schema,
        parse_json(
            r#"{"additionalProperties": false,
                "properties": {"ms": {"description": "d", "type": "integer"}},
                "required": ["ms"],
                "type": "object"}"#
        )
        .unwrap()
    );
}

#[test]
fn registering_replaces_in_place_and_adds_at_the_end() {
    let mut r: ToolRegistry<Executor> = ToolRegistry::default();
    assert!(r.is_empty());
    r.register(tool("a", "1"));
    r.register(tool("b", "2"));
    r.register(tool("c", "3"));
    assert_eq!(names(&r), ["a", "b", "c"]);

    r.register(tool("b", "4"));
    assert_eq!(names(&r), ["a", "b", "c"]);
    assert_eq!(r.len(), 3);
    assert_eq!(r.get("b").unwrap().run(&nothing()).unwrap().output, "4");
    assert_eq!(r.get("a").unwrap().run(&nothing()).unwrap().output, "1");
    assert_eq!(r.get("c").unwrap().run(&nothing()).unwrap().output, "3");
    assert!(r.get("d").is_none());
    assert!(!r.is_empty());
}

#[test]
fn unregistering_gives_the_tool_back_and_keeps_the_others() {
    let mut r: ToolRegistry<Executor> = ToolRegistry::new();
    r.register(tool("a", "1"));
    r.register(tool("b", "2"));
    r.register(tool("c", "3"));
    let removed = r.unregister("b").unwrap();
    assert_eq!(removed.name, "b");
    assert_eq!(removed.run(&nothing()).unwrap().output, "2");
    assert!(r.unregister("b").is_none());
    assert_eq!(names(&r), ["a", "c"]);
    // Back again, it comes last.
    r.register(removed);
    assert_eq!(names(&r), ["a", "c", "b"]);
    r.unregister("b");
    assert_eq!(names(&r), ["a", "c"]);
}

#[test]
fn what_is_advertised_is_what_is_registered() {
    let mut r: ToolRegistry<Executor> = ToolRegistry::new();
    r.register(tool("a", "1"));
    r.register(tool("b", "2"));
    let advertised = r.as_chat_tools();
    assert_eq!(
        advertised,
        vec![
            ChatTool::function("a", "a tool", s_required(nothing(), &[])),
            ChatTool::function("b", "a tool", s_required(nothing(), &[])),
        ]
    );
    for t in &advertised {
        assert_eq!(t.tool_type, "function");
        assert_eq!(r.get(&t.function.name).unwrap().name, t.function.name);
        assert_eq!(r.get(&t.function.name).unwrap().as_chat_tool(), *t);
    }
    assert_eq!(
        tools_section(&r),
        vec![
            parse_json(
                r#"{"description": "a tool", "name": "a", "parameters":
                    {"additionalProperties": false, "properties": {}, "required": [], "type": "object"}}"#
            )
            .unwrap(),
            parse_json(
                r#"{"description": "a tool", "name": "b", "parameters":
                    {"additionalProperties": false, "properties": {}, "required": [], "type": "object"}}"#
            )
            .unwrap(),
        ]
    );
}

#[test]
fn registries_are_copied_with_their_tools() {
    type Plain = fn(&Json) -> Execution;
    fn hi(_: &Json) -> Execution {
        Some(Ok(ToolResult::ok("hi")))
    }
    let mut r: ToolRegistry<Plain> = ToolRegistry::new();
    r.register(Tool::new("a", "d", Json::Null, hi as Plain));
    let mut copy = r.clone();
    copy.unregister("a");
    assert!(r.contains("a"));
    assert!(!copy.contains("a"));
    assert_eq!(r.get("a").unwrap().clone().run(&Json::Null), Ok(ToolResult::ok("hi")));
}

#[test]
fn results_say_whether_they_are_errors() {
    assert_eq!(ToolResult::ok("x"), ToolResult { output: "x".to_string(), is_error: false });
    assert_eq!(ToolResult::err("x"), ToolResult { output: "x".to_string(), is_error: true });
    assert_eq!(ToolResult::err("x").clone(), ToolResult::err("x"));
}
