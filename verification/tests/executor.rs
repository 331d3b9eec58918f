use agent_loop::chat::{ChatMessage, Role, ToolCall};
use agent_loop::executor::{answer, collect, execute, execute_many, execute_one, report};
use agent_loop::json::Json;
use agent_loop::tools::{s_required, Execution, Tool, ToolRegistry, ToolResult};
use std::sync::{Arc, Mutex};
use std::time::{Duration, Instant};

type Executor = Box<dyn Fn(&Json) -> Execution>;

/// The point from which the calls of a batch count their time, where they share one.
type Batch = Arc<Mutex<Option<Instant>>>;

fn object(entries: Vec<(&str, Json)>) -> Json {
    Json::Object(entries.into_iter().map(|(k, v)| (k.to_string(), v)).collect())
}

fn wait(from: Instant, ms: i64) {
    while from.elapsed() < Duration::from_millis(ms as u64) {
        std::hint::spin_loop();
    }
}

fn registry_with_sleep_tools(n: usize, batch: &Batch) -> ToolRegistry<Executor> {
    let mut reg: ToolRegistry<Executor> = ToolRegistry::new();
    for i in 0..n {
        let batch = batch.clone();
        let executor: Executor = Box::new(move |args| {
            let ms = args.get_i64("ms").unwrap_or(200);
            let from = batch.lock().unwrap().unwrap_or_else(Instant::now);
            wait(from, ms);
            Some(Ok(ToolResult::ok(&format!("slept {ms}ms in tool {i}"))))
        });
        reg.register(Tool::new(
            &format!("sleep_{i}"),
            "sleep then report",
            s_required(
                object(vec![("ms", object(vec![("type", Json::text("integer"))]))]),
                &["ms"],
            ),
            executor,
        ));
    }
    reg
}

fn make_calls(n: usize) -> Vec<ToolCall> {
    (0..n)
        .map(|i| ToolCall {
            id: format!("call_{i}"),
            name: format!("sleep_{i}"),
            arguments: r#"{"ms": 300}"#.to_string(),
        })
        .collect()
}

/// Stands in for workers that all start at once: the calls share the start of their time.
fn at_once(
    batch: Batch,
) -> impl Fn(&ToolRegistry<Executor>, &[ToolCall]) -> Vec<Option<ChatMessage>> {
    move |registry, calls| {
        *batch.lock().unwrap() = Some(Instant::now());
        let came = calls.iter().map(|call| Some(execute_one(registry, call))).collect();
        *batch.lock().unwrap() = None;
        came
    }
}

fn no_pool(_: &ToolRegistry<Executor>, _: &[ToolCall]) -> Vec<Option<ChatMessage>> {
    panic!("no calls are run side by side here");
}

#[test]
fn sequential_is_slower_than_parallel() {
    let batch: Batch = Arc::new(Mutex::new(None));
    let reg = registry_with_sleep_tools(4, &batch);
    let calls = make_calls(4);
    let pool = at_once(batch.clone());

    let (seq, seq_stats) = execute_many(&reg, &calls, false, &pool);
    let (par, par_stats) = execute_many(&reg, &calls, true, &pool);

    assert_eq!(seq.len(), 4);
    assert_eq!(par.len(), 4);
    // 4 x 300ms sequential should be ~1200ms; parallel ~300ms.
    assert!(
        seq_stats.elapsed_ns as f64 / 1e6 > 900.0,
        "sequential too fast: {:?}",
        seq_stats
    );
    assert!(
        (par_stats.elapsed_ns as f64 / 1e6) < 800.0,
        "parallel too slow: {:?}",
        par_stats
    );
    assert_eq!((seq_stats.n_calls, seq_stats.parallel), (4, false));
    assert_eq!((par_stats.n_calls, par_stats.parallel), (4, true));
    // Results preserve order in both modes.
    for i in 0..4 {
        assert!(seq[i].content.as_ref().unwrap().contains(&format!("tool {i}")));
        assert!(par[i].content.as_ref().unwrap().contains(&format!("tool {i}")));
    }
}

#[test]
fn bad_json_arguments_does_not_crash() {
    let reg = registry_with_sleep_tools(1, &Arc::new(Mutex::new(None)));
    let bad = ToolCall { id: "x".into(), name: "sleep_0".into(), arguments: "not-json".into() };
    let msg = execute_one(&reg, &bad);
    assert!(msg.content.unwrap().contains("invalid JSON"));
}

#[test]
fn unknown_tool_reports_cleanly() {
    let reg: ToolRegistry<Executor> = ToolRegistry::new();
    let call = ToolCall { id: "y".into(), name: "nope".into(), arguments: "{}".into() };
    let msg = execute_one(&reg, &call);
    assert!(msg.content.unwrap().contains("unknown tool"));
}

#[test]
fn bad_arguments_are_quoted_with_the_error_of_the_parser() {
    let reg: ToolRegistry<Executor> = ToolRegistry::new();
    let bad = ToolCall { id: "x".into(), name: "any".into(), arguments: "not-json".into() };
    let expected = serde_json::from_str::<serde_json::Value>("not-json").unwrap_err().to_string();
    let msg = execute_one(&reg, &bad);
    assert_eq!(
        msg.content.unwrap(),
        format!("[invalid JSON arguments] {expected}: not-json")
    );
    assert_eq!(msg.tool_call_id, Some("x".to_string()));
    assert_eq!(msg.role, Role::Tool);
    assert_eq!(msg.tool_calls, None);
}

#[test]
fn unknown_tools_are_named() {
    let reg: ToolRegistry<Executor> = ToolRegistry::new();
    let call = ToolCall { id: "y".into(), name: "nope".into(), arguments: "{}".into() };
    assert_eq!(
        execute(&reg, &call).unwrap(),
        ChatMessage::tool_result("y", "[unknown tool] `nope` is not registered")
    );
}

fn registry_of(name: &str, executor: Executor) -> ToolRegistry<Executor> {
    let mut reg: ToolRegistry<Executor> = ToolRegistry::new();
    reg.register(Tool::new(name, "", Json::Null, executor));
    reg
}

#[test]
fn results_errors_and_panics_are_answered() {
    let call = |arguments: &str| ToolCall {
        id: "z".into(),
        name: "t".into(),
        arguments: arguments.into(),
    };

    let fails = registry_of("t", Box::new(|_| Some(Err("no luck".to_string()))));
    assert_eq!(
        execute_one(&fails, &call("null")),
        ChatMessage::tool_result("z", "[tool error] no luck")
    );

    let panics = registry_of("t", Box::new(|_| None));
    assert_eq!(
        execute_one(&panics, &call("[]")),
        ChatMessage::tool_result("z", "[tool error] tool `t` panicked")
    );

    // A result that reports a failure is answered by its text alone.
    let reports = registry_of("t", Box::new(|_| Some(Ok(ToolResult::err("exit Some(1): x")))));
    assert_eq!(execute_one(&reports, &call("1")), ChatMessage::tool_result("z", "exit Some(1): x"));

    // The arguments reach the executor as JSON.
    let echoes = registry_of(
        "t",
        Box::new(|args| Some(Ok(ToolResult::ok(args.get_str("say").unwrap_or("?"))))),
    );
    assert_eq!(
        execute_one(&echoes, &call(r#"{"say": "a\nb"}"#)),
        ChatMessage::tool_result("z", "a\nb")
    );
}

#[test]
fn a_tool_is_not_run_on_arguments_that_are_no_json() {
    let reg = registry_of("t", Box::new(|_| panic!("run")));
    let call = |name: &str| ToolCall {
        id: "x".into(),
        name: name.into(),
        arguments: "not-json".into(),
    };
    let known = execute_one(&reg, &call("t"));
    assert!(known.content.as_ref().unwrap().ends_with(": not-json"));
    assert_eq!(known.tool_call_id, Some("x".to_string()));
    // The arguments are looked at first.
    assert_eq!(execute_one(&reg, &call("other")), known);
}

#[test]
fn arguments_that_were_parsed_are_taken_as_they_are() {
    let reg = registry_of(
        "t",
        Box::new(|args| Some(Ok(ToolResult::ok(if *args == Json::Null { "null" } else { "else" })))),
    );
    let call = ToolCall { id: "i".into(), name: "t".into(), arguments: "ignored".into() };
    assert_eq!(answer(&reg, &call, Ok(Json::Null)), ChatMessage::tool_result("i", "null"));
    assert_eq!(
        answer(&reg, &call, Err("bad".to_string())),
        ChatMessage::tool_result("i", "[invalid JSON arguments] bad: ignored")
    );
    assert_eq!(report("i", Ok(ToolResult::ok("fine"))), ChatMessage::tool_result("i", "fine"));
}

#[test]
fn answers_are_in_the_order_of_the_calls() {
    let mut reg: ToolRegistry<Executor> = ToolRegistry::new();
    for name in ["a", "b"] {
        let executor: Executor = Box::new(move |_| Some(Ok(ToolResult::ok(name))));
        reg.register(Tool::new(name, "", Json::Null, executor));
    }
    let call = |id: &str, name: &str| ToolCall {
        id: id.into(),
        name: name.into(),
        arguments: "{}".into(),
    };
    let calls = vec![call("1", "b"), call("2", "missing"), call("3", "a"), call("4", "b")];
    let (answers, stats) = execute_many(&reg, &calls, false, &no_pool);
    let expected = vec![
        ChatMessage::tool_result("1", "b"),
        ChatMessage::tool_result("2", "[unknown tool] `missing` is not registered"),
        ChatMessage::tool_result("3", "a"),
        ChatMessage::tool_result("4", "b"),
    ];
    assert_eq!(answers, expected);
    assert_eq!(stats.n_calls, 4);

    let one_by_one = |registry: &ToolRegistry<Executor>, calls: &[ToolCall]| -> Vec<Option<ChatMessage>> {
        calls.iter().map(|c| Some(execute_one(registry, c))).collect()
    };
    let (side_by_side, _) = execute_many(&reg, &calls, true, &one_by_one);
    assert_eq!(side_by_side, expected);
}

#[test]
fn lost_workers_leave_a_remark() {
    let came = vec![Some(ChatMessage::tool_result("1", "a")), None];
    let expected = vec![
        ChatMessage::tool_result("1", "a"),
        ChatMessage::tool_result("?", "[executor] worker thread panicked"),
    ];
    assert_eq!(collect(came), expected);

    let reg: ToolRegistry<Executor> = ToolRegistry::new();
    let lost = |_: &ToolRegistry<Executor>, calls: &[ToolCall]| -> Vec<Option<ChatMessage>> {
        calls.iter().map(|_| None).collect()
    };
    let (answers, _) = execute_many(&reg, &make_calls(2), true, &lost);
    assert_eq!(answers.len(), 2);
    assert_eq!(answers[0], expected[1]);
}

#[test]
fn no_calls_have_no_answers() {
    let reg: ToolRegistry<Executor> = ToolRegistry::new();
    let (answers, stats) = execute_many(&reg, &[], false, &no_pool);
    assert_eq!(answers, Vec::new());
    assert_eq!(stats.n_calls, 0);
    assert!(!stats.parallel);
}
