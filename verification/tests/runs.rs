use agent_loop::agent::{
    answer_subagent, decide, run_subagent, Decision, ExecutionStep, IterationTrace, Next,
};
use agent_loop::chat::{ChatResponse, Choice, Outgoing, Reply};
use agent_loop::executor::{execute_one, ExecutionStats};
use agent_loop::json::{parse_json, Json};
use agent_loop::tools::Execution;
use agent_loop::trace::{print_times, render_traces};
use agent_loop::{
    Agent, AgentConfig, ChatClient, ChatMessage, HookEvent, HookPayload, Hooks, Tool, ToolCall,
    ToolRegistry, ToolResult,
};
use std::cell::RefCell;
use std::rc::Rc;

type Executor = Box<dyn Fn(&Json) -> Execution>;
type Callback = Box<dyn Fn(&HookPayload)>;

fn call(id: &str, name: &str, arguments: &str) -> ToolCall {
    ToolCall { id: id.into(), name: name.into(), arguments: arguments.into() }
}

fn says(message: ChatMessage, reason: Option<&str>) -> ChatResponse {
    ChatResponse {
        id: None,
        model: None,
        choices: vec![Choice {
            index: Some(0),
            message,
            finish_reason: reason.map(|r| r.to_string()),
        }],
        usage: None,
    }
}

fn wants(calls: Vec<ToolCall>) -> ChatResponse {
    says(ChatMessage::assistant_with_tool_calls(calls), Some("tool_calls"))
}

fn ends(text: &str) -> ChatResponse {
    says(ChatMessage::assistant(text), Some("stop"))
}

/// An endpoint that plays these responses one after the other, and notes what it was sent.
struct Endpoint {
    script: Vec<ChatResponse>,
    sent: RefCell<Vec<Json>>,
}

impl Endpoint {
    fn new(script: Vec<ChatResponse>) -> Endpoint {
        Endpoint { script, sent: RefCell::new(Vec::new()) }
    }

    /// The body of a reply: the number of a response, and a key that responses do not know.
    fn body(n: usize) -> String {
        format!(r#"{{"n": {n}, "extra": [true, 0.5]}}"#)
    }

    fn transport(&self) -> impl Fn(&Outgoing) -> Result<Reply, String> + '_ {
        move |sent| {
            let n = self.sent.borrow().len();
            self.sent.borrow_mut().push(sent.body.clone());
            if n < self.script.len() {
                Ok(Reply { success: true, status: "200 OK".into(), body: Endpoint::body(n) })
            } else {
                Err("no more replies".to_string())
            }
        }
    }

    fn decode(&self) -> impl Fn(&str) -> Result<ChatResponse, String> + '_ {
        move |body| {
            let n = parse_json(body).unwrap().get_i64("n").unwrap();
            Ok(self.script[n as usize].clone())
        }
    }

    fn requests(&self) -> usize {
        self.sent.borrow().len()
    }
}

fn registry() -> ToolRegistry<Executor> {
    let mut r: ToolRegistry<Executor> = ToolRegistry::new();
    let upper: Executor = Box::new(|args| match args.get_str("text") {
        Some(text) => Some(Ok(ToolResult::ok(&text.to_uppercase()))),
        None => Some(Err("missing `text`".to_string())),
    });
    r.register(Tool::new("upper", "shouts", Json::Object(Vec::new()), upper));
    r
}

fn agent(hooks: Hooks<Callback>) -> Agent<Executor, Callback> {
    let client = ChatClient::new("http://h", None);
    Agent::new(AgentConfig::new("m", "be brief", registry(), hooks, client))
}

fn one_by_one(registry: &ToolRegistry<Executor>, calls: &[ToolCall]) -> Vec<Option<ChatMessage>> {
    calls.iter().map(|c| Some(execute_one(registry, c))).collect()
}

fn show_ms(ns: u128) -> String {
    format!("{:.1}", ns as f64 / 1e6)
}

fn events(agent: &Agent<Executor, Callback>) -> Vec<&'static str> {
    agent.config.hooks.log_entries().iter().map(|e| e.event.as_str()).collect()
}

#[test]
fn configurations_start_out_careful() {
    let a = agent(Hooks::new());
    assert!(!a.config.parallel_tools);
    assert_eq!(a.config.max_iterations, 10);
    assert_eq!(a.config.model, "m");
    assert_eq!(a.config.system_prompt, "be brief");
    assert_eq!(a.transcript(&show_ms), "");
    assert_eq!(a.raw_request(0), None);
}

#[test]
fn a_turn_without_tools_is_one_exchange() {
    let endpoint = Endpoint::new(vec![ends("hello")]);
    let mut a = agent(Hooks::new().with_log());
    let outcome = a.run("hi", &endpoint.transport(), &endpoint.decode(), &one_by_one).unwrap();
    assert_eq!(outcome.final_text, "hello");
    assert_eq!(
        outcome.messages,
        vec![
            ChatMessage::system("be brief"),
            ChatMessage::user("hi"),
            ChatMessage::assistant("hello"),
        ]
    );
    assert_eq!(outcome.traces.len(), 1);
    assert_eq!(outcome.traces[0].iteration, 1);
    assert_eq!(outcome.traces[0].finish_reason, "stop");
    assert_eq!(outcome.traces[0].executed, Vec::new());
    assert_eq!(outcome.traces[0].stats, None);
    assert_eq!(outcome.traces[0].response, parse_json(&Endpoint::body(0)).unwrap());
    assert_eq!(events(&a), ["userpromptsubmit", "stop"]);
    assert_eq!(endpoint.requests(), 1);
    assert_eq!(
        endpoint.sent.borrow()[0],
        parse_json(
            r#"{"model": "m", "temperature": 0.2, "tool_choice": "auto",
                "messages": [{"role": "system", "content": "be brief"},
                             {"role": "user", "content": "hi"}],
                "tools": [{"type": "function", "function":
                    {"name": "upper", "description": "shouts", "parameters": {}}}]}"#
        )
        .unwrap()
    );
    assert_eq!(a.raw_request(0), Some(&endpoint.sent.borrow()[0]));
    assert_eq!(a.raw_request(1), None);
    assert_eq!(outcome.clone(), outcome);
}

#[test]
fn calls_are_run_and_answered_in_order() {
    let calls = vec![
        call("c1", "upper", r#"{"text": "a"}"#),
        call("c2", "lower", "{}"),
        call("c3", "upper", "nonsense"),
        call("c4", "upper", "{}"),
    ];
    let endpoint = Endpoint::new(vec![wants(calls.clone()), ends("done")]);
    let mut a = agent(Hooks::new().with_log());
    let outcome = a.run("go", &endpoint.transport(), &endpoint.decode(), &one_by_one).unwrap();
    let bad = parse_json("nonsense").unwrap_err();
    let answers = vec![
        ChatMessage::tool_result("c1", "A"),
        ChatMessage::tool_result("c2", "[unknown tool] `lower` is not registered"),
        ChatMessage::tool_result("c3", &format!("[invalid JSON arguments] {bad}: nonsense")),
        ChatMessage::tool_result("c4", "[tool error] missing `text`"),
    ];
    assert_eq!(
        outcome.messages[2],
        ChatMessage::assistant_with_tool_calls(calls.clone())
    );
    assert_eq!(outcome.messages[3..7], answers[..]);
    assert_eq!(outcome.messages[7], ChatMessage::assistant("done"));
    assert_eq!(outcome.messages.len(), 8);

    assert_eq!(outcome.traces.len(), 2);
    let steps: Vec<ExecutionStep> = calls
        .iter()
        .zip(&answers)
        .map(|(call, result)| ExecutionStep { call: call.clone(), result: result.clone() })
        .collect();
    assert_eq!(outcome.traces[0].executed, steps);
    assert_eq!(outcome.traces[0].finish_reason, "tool_calls");
    let stats = outcome.traces[0].stats.unwrap();
    assert_eq!((stats.n_calls, stats.parallel), (4, false));
    assert_eq!(outcome.traces[1].iteration, 2);
    assert_eq!(outcome.traces[1].executed, Vec::new());
    // Each trace holds the raw body, with what responses do not know.
    for n in 0..2 {
        assert_eq!(outcome.traces[n].response, parse_json(&Endpoint::body(n)).unwrap());
    }

    assert_eq!(
        events(&a),
        [
            "userpromptsubmit",
            "pretooluse",
            "pretooluse",
            "pretooluse",
            "pretooluse",
            "posttooluse",
            "posttooluse",
            "posttooluse",
            "posttooluse",
            "stop"
        ]
    );
    // The second request carries the whole history.
    let sent = endpoint.sent.borrow();
    match sent[1].get("messages").unwrap() {
        Json::Array(items) => {
            let expected: Vec<Json> =
                outcome.messages[..7].iter().map(|m| m.to_json()).collect();
            assert_eq!(*items, expected);
        }
        other => panic!("{other:?}"),
    }
}

#[test]
fn calls_can_be_run_side_by_side() {
    let calls = vec![
        call("c1", "upper", r#"{"text": "a"}"#),
        call("c2", "upper", r#"{"text": "b"}"#),
    ];
    let endpoint = Endpoint::new(vec![wants(calls), ends("done")]);
    let mut a = agent(Hooks::new());
    a.config.parallel_tools = true;
    let lost_second = |registry: &ToolRegistry<Executor>, calls: &[ToolCall]| {
        let mut came = one_by_one(registry, calls);
        came[1] = None;
        came
    };
    let outcome = a.run("go", &endpoint.transport(), &endpoint.decode(), &lost_second).unwrap();
    assert_eq!(outcome.messages[3], ChatMessage::tool_result("c1", "A"));
    assert_eq!(
        outcome.messages[4],
        ChatMessage::tool_result("?", "[executor] worker thread panicked")
    );
    assert!(outcome.traces[0].stats.unwrap().parallel);
}

#[test]
fn hooks_are_told_what_happens() {
    let told: Rc<RefCell<Vec<String>>> = Rc::new(RefCell::new(Vec::new()));
    let listen = || -> Callback {
        let told = told.clone();
        Box::new(move |p| {
            told.borrow_mut().push(match p {
                HookPayload::PreToolUse { tool, args } => format!("pre {tool} {args:?}"),
                HookPayload::PostToolUse { tool, output, is_error } => {
                    format!("post {tool} {output} {is_error}")
                }
                HookPayload::UserPromptSubmit { prompt } => format!("prompt {prompt}"),
                HookPayload::Stop { reason } => format!("stop {reason}"),
                HookPayload::SubAgentStart { name, prompt } => format!("start {name} {prompt}"),
                HookPayload::SubAgentStop { name, result } => format!("end {name} {result}"),
            })
        })
    };
    let mut hooks: Hooks<Callback> = Hooks::new();
    for event in HookEvent::ALL {
        hooks.register(event, listen());
    }
    let endpoint = Endpoint::new(vec![
        wants(vec![call("c1", "upper", r#"{"text": "x"}"#), call("c2", "none", "not json")]),
        ends("bye"),
    ]);
    let mut a = agent(hooks);
    a.run("go", &endpoint.transport(), &endpoint.decode(), &one_by_one).unwrap();
    let bad = parse_json("not json").unwrap_err();
    assert_eq!(
        *told.borrow(),
        [
            "prompt go".to_string(),
            r#"pre upper Object([("text", Text("x"))])"#.to_string(),
            "pre none Null".to_string(),
            "post upper X false".to_string(),
            format!("post none [invalid JSON arguments] {bad}: not json false"),
            "stop stop".to_string(),
        ]
    );

    told.borrow_mut().clear();
    let endpoint = Endpoint::new(vec![ends("sub done")]);
    let r = run_subagent(
        &mut a.config,
        "scout",
        "look",
        &endpoint.transport(),
        &endpoint.decode(),
    );
    assert_eq!(r, Ok("sub done".to_string()));
    assert_eq!(*told.borrow(), ["start scout look", "end scout sub done"]);
    assert_eq!(
        endpoint.sent.borrow()[0].get("messages"),
        Some(&Json::Array(vec![
            ChatMessage::system("be brief").to_json(),
            ChatMessage::user("look").to_json(),
        ]))
    );
}

#[test]
fn sub_agents_always_answer() {
    let fails = |_: &Outgoing| -> Result<Reply, String> { Err("offline".to_string()) };
    let decode = |_: &str| -> Result<ChatResponse, String> { Err("unused".to_string()) };
    let mut a = agent(Hooks::new().with_log());
    assert_eq!(
        run_subagent(&mut a.config, "s", "p", &fails, &decode),
        Ok("[sub-agent failed: offline]".to_string())
    );
    assert_eq!(events(&a), ["subagentstart", "subagentstop"]);
    let empty = ChatResponse { id: None, model: None, choices: Vec::new(), usage: None };
    assert_eq!(answer_subagent(Ok(empty)), "");
    assert_eq!(answer_subagent(Ok(wants(Vec::new()))), "");
    assert_eq!(answer_subagent(Ok(ends("x"))), "x");
}

#[test]
fn later_prompts_go_on_with_the_history() {
    let endpoint = Endpoint::new(vec![ends("one"), ends("two")]);
    let mut a = agent(Hooks::new().with_log());
    let first = a.run("a", &endpoint.transport(), &endpoint.decode(), &one_by_one).unwrap();
    let second = a.run("b", &endpoint.transport(), &endpoint.decode(), &one_by_one).unwrap();
    assert_eq!(second.messages[..3], first.messages[..]);
    assert_eq!(second.messages[3], ChatMessage::user("b"));
    assert_eq!(second.messages[4], ChatMessage::assistant("two"));
    assert_eq!(second.messages.len(), 5);
    assert_eq!(second.traces.len(), 2);
    assert_eq!(second.traces[..1], first.traces[..]);
    // Rounds are numbered anew in each run.
    assert_eq!(second.traces[1].iteration, 1);
    assert_eq!(events(&a), ["userpromptsubmit", "stop", "userpromptsubmit", "stop"]);
}

#[test]
fn runs_end_when_all_requests_are_spent() {
    let again = || wants(vec![call("c", "upper", r#"{"text": "x"}"#)]);
    let endpoint = Endpoint::new(vec![again(), again(), again(), again()]);
    let mut a = agent(Hooks::new().with_log());
    a.config.max_iterations = 3;
    assert_eq!(
        a.run("go", &endpoint.transport(), &endpoint.decode(), &one_by_one),
        Err("agent exceeded max_iterations (3) before finishing".to_string())
    );
    assert_eq!(endpoint.requests(), 3);
    assert_eq!(events(&a).len(), 7);
    assert!(a.raw_request(2).is_some());
    assert!(a.raw_request(3).is_none());

    a.config.max_iterations = 0;
    assert_eq!(
        a.run("go", &endpoint.transport(), &endpoint.decode(), &one_by_one),
        Err("agent exceeded max_iterations (0) before finishing".to_string())
    );
    assert_eq!(endpoint.requests(), 3);
}

#[test]
fn failed_exchanges_and_empty_responses_end_a_run() {
    let endpoint = Endpoint::new(Vec::new());
    let mut a = agent(Hooks::new().with_log());
    assert_eq!(
        a.run("go", &endpoint.transport(), &endpoint.decode(), &one_by_one),
        Err("no more replies".to_string())
    );
    let empty = ChatResponse { id: None, model: None, choices: Vec::new(), usage: None };
    let endpoint = Endpoint::new(vec![empty]);
    assert_eq!(
        a.run("go", &endpoint.transport(), &endpoint.decode(), &one_by_one),
        Err("empty choices in response".to_string())
    );
    assert_eq!(a.transcript(&show_ms), "");
    assert_eq!(events(&a), ["userpromptsubmit", "userpromptsubmit"]);
    // Both prompts are part of the history.
    assert_eq!(
        a.next_request().messages,
        vec![ChatMessage::system("be brief"), ChatMessage::user("go"), ChatMessage::user("go")]
    );
}

#[test]
fn the_calls_decide_whether_a_turn_is_over() {
    let c = || vec![call("c", "n", "{}")];
    let go = |m: ChatMessage, reason: Option<&str>| decide(&says(m, reason)).unwrap();
    // No calls: over, whatever the reason.
    assert_eq!(
        go(ChatMessage::assistant("x"), None),
        Decision::Stop { message: ChatMessage::assistant("x"), reason: String::new() }
    );
    assert_eq!(
        go(ChatMessage::assistant_with_tool_calls(Vec::new()), Some("tool_calls")),
        Decision::Stop {
            message: ChatMessage::assistant_with_tool_calls(Vec::new()),
            reason: "tool_calls".into()
        }
    );
    // Calls: they are run, unless the assistant says that it has stopped.
    let m = || ChatMessage::assistant_with_tool_calls(c());
    assert_eq!(
        go(m(), Some("length")),
        Decision::Go { message: m(), reason: "length".into(), calls: c() }
    );
    assert_eq!(go(m(), Some("stop")), Decision::Stop { message: m(), reason: "stop".into() });
    let empty = ChatResponse { id: None, model: None, choices: Vec::new(), usage: None };
    assert_eq!(decide(&empty), Err("empty choices in response".to_string()));
}

#[test]
fn a_run_can_be_driven_step_by_step() {
    let mut a = agent(Hooks::new().with_log());
    a.begin("go");
    let request = a.next_request().to_json_pretty();
    let response = wants(vec![call("c1", "upper", "{}"), call("c2", "upper", "{}")]);
    let raw = parse_json(r#"{"choices": [], "more": 1}"#).unwrap();
    let pending = match a.receive(1, request.clone(), raw.clone(), &response).unwrap() {
        Next::UseTools(pending) => pending,
        other => panic!("{other:?}"),
    };
    assert_eq!(pending.iteration, 1);
    assert_eq!(pending.request, request);
    assert_eq!(pending.response, raw);
    assert_eq!(pending.reason, "tool_calls");
    assert_eq!(pending.calls.len(), 2);
    let stats = ExecutionStats { n_calls: 2, parallel: true, elapsed_ns: 1_250_000 };
    // Answers are paired with calls as far as there are both.
    a.settle(pending, vec![ChatMessage::tool_result("c1", "r1")], stats);
    let outcome = match a.receive(2, request, Json::text("last"), &ends("fin")).unwrap() {
        Next::Finished(outcome) => outcome,
        other => panic!("{other:?}"),
    };
    assert_eq!(outcome.final_text, "fin");
    assert_eq!(outcome.messages.len(), 5);
    assert_eq!(outcome.traces[0].executed.len(), 1);
    assert_eq!(outcome.traces[0].stats, Some(stats));
    assert_eq!(outcome.traces[0].response, raw);
    assert_eq!(outcome.traces[1].response, Json::text("last"));
    assert_eq!(
        events(&a),
        ["userpromptsubmit", "pretooluse", "pretooluse", "posttooluse", "stop"]
    );
    assert_eq!(
        a.transcript(&show_ms),
        "── iteration 1 · finish=tool_calls ──────────────────────\n   \
         tools: 2 (parallel in 1.2 ms)\n   · [c1] upper {}\n       ⇠ r1\n\
         ── iteration 2 · finish=stop ──────────────────────\n"
    );
}

#[test]
fn transcripts_are_put_one_after_the_other() {
    let trace = |n: usize| IterationTrace {
        iteration: n,
        request: Json::Null,
        response: Json::Null,
        finish_reason: "length".into(),
        executed: Vec::new(),
        stats: Some(ExecutionStats { n_calls: 0, parallel: false, elapsed_ns: 0 }),
    };
    let times = |t: &[&str]| -> Vec<String> { t.iter().map(|s| s.to_string()).collect() };
    let both = vec![trace(1), trace(2)];
    assert_eq!(
        render_traces(&both, &times(&["0.5", "7.0"])),
        format!(
            "{}{}",
            render_traces(&vec![trace(1)], &times(&["0.5"])),
            render_traces(&vec![trace(2)], &times(&["7.0"]))
        )
    );
    assert_eq!(
        render_traces(&vec![trace(7)], &times(&["0.1"])),
        "── iteration 7 · finish=length ──────────────────────\n   tools: 0 (sequential in 0.1 ms)\n"
    );
    assert_eq!(both[0].clone(), both[0]);
    // Times are handed over in nanoseconds, where calls were run.
    let mut timed = vec![trace(1), trace(2)];
    timed[0].stats = Some(ExecutionStats { n_calls: 1, parallel: true, elapsed_ns: 150_000 });
    timed[1].stats = None;
    assert_eq!(print_times(&timed, &|ns: u128| format!("<{ns}>")), times(&["<150000>", ""]));
}

#[test]
fn a_body_that_no_value_can_hold_is_written_out_anew() {
    let transport = |_: &Outgoing| -> Result<Reply, String> {
        Ok(Reply { success: true, status: "200 OK".into(), body: r#"{"x": 1e400}"#.into() })
    };
    let decode = |_: &str| -> Result<ChatResponse, String> { Ok(ends("fine")) };
    let mut a = agent(Hooks::new().with_log());
    let outcome = a.run("go", &transport, &decode, &one_by_one).unwrap();
    assert_eq!(outcome.final_text, "fine");
    assert_eq!(outcome.traces[0].response, ends("fine").to_json());
    assert_eq!(events(&a), ["userpromptsubmit", "stop"]);
}

#[test]
fn a_run_that_may_send_nothing_sends_nothing() {
    let transport = |_: &Outgoing| -> Result<Reply, String> { panic!("sent") };
    let decode = |_: &str| -> Result<ChatResponse, String> { panic!("read") };
    let pool = |_: &ToolRegistry<Executor>, _: &[ToolCall]| -> Vec<Option<ChatMessage>> {
        panic!("run")
    };
    let mut hooks: Hooks<Callback> = Hooks::new().with_log();
    hooks.on_stop(Box::new(|_| panic!("stopped")));
    hooks.on_pre_tool_use(Box::new(|_| panic!("called")));
    let mut a = agent(hooks);
    a.config.max_iterations = 0;
    let spent = Err("agent exceeded max_iterations (0) before finishing".to_string());
    assert_eq!(a.run("one", &transport, &decode, &pool), spent);
    assert_eq!(a.run("two", &transport, &decode, &pool), spent);
    assert_eq!(
        a.next_request().messages,
        vec![ChatMessage::system("be brief"), ChatMessage::user("one"), ChatMessage::user("two")]
    );
    assert_eq!(a.transcript(&show_ms), "");
    assert_eq!(events(&a), ["userpromptsubmit", "userpromptsubmit"]);
}

#[test]
fn transcripts_go_on_from_run_to_run() {
    let again = || wants(vec![call("c", "upper", r#"{"text": "x"}"#)]);
    let endpoint = Endpoint::new(vec![again(), ends("one"), again(), ends("two")]);
    let mut a = agent(Hooks::new());
    let mut before = a.transcript(&show_ms);
    assert_eq!(before, "");
    for prompt in ["a", "b"] {
        a.run(prompt, &endpoint.transport(), &endpoint.decode(), &one_by_one).unwrap();
        let after = a.transcript(&show_ms);
        assert!(after.starts_with(&before) && after.len() > before.len());
        assert!(after[before.len()..].starts_with("── iteration 1 · finish=tool_calls "));
        before = after;
    }
    assert_eq!(before.matches("   tools: 1 (sequential in ").count(), 2);
    assert_eq!(before.matches("   · [c] upper {\"text\": \"x\"}\n       ⇠ X\n").count(), 2);
}

#[test]
fn configurations_can_be_copied() {
    let upper: fn(&Json) -> Execution = |_| Some(Ok(ToolResult::ok("up")));
    let quiet: fn(&HookPayload) = |_| {};
    let mut registry: ToolRegistry<fn(&Json) -> Execution> = ToolRegistry::new();
    registry.register(Tool::new("upper", "shouts", Json::Null, upper));
    let mut hooks: Hooks<fn(&HookPayload)> = Hooks::new().with_log();
    hooks.on_stop(quiet);
    let client = ChatClient::new("http://h", Some("k".into()));
    let mut config = AgentConfig::new("m", "be brief", registry, hooks, client);
    config.parallel_tools = true;
    config.max_iterations = 3;
    config.hooks.fire(HookEvent::Stop, &HookPayload::Stop { reason: "r".into() });
    let mut copy = config.clone();
    assert_eq!((copy.model.as_str(), copy.system_prompt.as_str()), ("m", "be brief"));
    assert_eq!(copy.client, config.client);
    assert_eq!((copy.parallel_tools, copy.max_iterations), (true, 3));
    assert_eq!(copy.registry.get("upper").unwrap().run(&Json::Null), Ok(ToolResult::ok("up")));
    assert_eq!(copy.hooks.count(), 1);
    assert_eq!(copy.hooks.log_entries(), config.hooks.log_entries());
    // From then on each has a log of its own.
    copy.hooks.fire(HookEvent::Stop, &HookPayload::Stop { reason: "r".into() });
    assert_eq!(copy.hooks.log_entries().len(), 2);
    assert_eq!(config.hooks.log_entries().len(), 1);
}
