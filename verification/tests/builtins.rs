use agent_loop::calc::{Class, Op, Pair, Sign};
use agent_loop::chat::{ChatMessage, Outgoing, ToolCall};
use agent_loop::executor::execute_one;
use agent_loop::json::{parse_json, Json};
use agent_loop::tools::bash_tools::{
    answer_run, answer_spawn, run_command, run_tool, timeout_secs, Ran,
};
use agent_loop::tools::calc_tools::{answer_calc, calc_tool, calculate, Calculator, Shown};
use agent_loop::tools::file_tools::{
    answer_list, answer_read, answer_write, list_files, list_tool, read_file, read_tool,
    write_file, write_tool, Files,
};
use agent_loop::tools::web_tools::{
    answer_fetch, answer_search, fetch, fetch_tool, search, search_request, search_tool,
    search_with, Fetched, Web,
};
use agent_loop::tools::{builtin_executor, required_text, run_builtin, Builtin, Execution};
use agent_loop::{ToolRegistry, ToolResult};
use std::collections::HashMap;
use std::sync::{Arc, Mutex};

type Executor = Box<dyn Fn(&Json) -> Execution>;

/// A world in memory: files by their paths, a shell that knows `echo`, and a web of one page.
#[derive(Clone, Default)]
struct World {
    files: Arc<Mutex<HashMap<String, String>>>,
    posted: Arc<Mutex<Vec<Outgoing>>>,
    key: Option<String>,
}

fn args(text: &str) -> Json {
    parse_json(text).unwrap()
}

fn echo(command: &str, _: i64) -> Result<Ran, String> {
    match command.strip_prefix("echo ") {
        Some(rest) => Ok(Ran {
            stdout: format!("{rest}\n").into_bytes(),
            stderr: Vec::new(),
            success: true,
            code: Some(0),
        }),
        None => Ok(Ran {
            stdout: Vec::new(),
            stderr: b"not found".to_vec(),
            success: false,
            code: Some(127),
        }),
    }
}

fn counted(op: &Op, v: &Vec<i64>) -> Result<i64, String> {
    match op {
        Op::Number(t) => t.parse().map_err(|_| "no integer".to_string()),
        Op::Add => Ok(v[0] + v[1]),
        Op::Divide => Ok(v[0] / v[1]),
        Op::Combine(Pair::Max) => Ok(v[0].max(v[1])),
        _ => Err("unsupported".to_string()),
    }
}

fn classify(n: &i64) -> Class {
    let sign = match n.signum() {
        -1 => Sign::Negative,
        0 => Sign::Zero,
        _ => Sign::Positive,
    };
    Class { sign, beyond_one: n.abs() > 1, whole: true }
}

/// Numbers from a thousand on are shown in words.
fn show(n: &i64) -> String {
    format!("{} thousand", n / 1000)
}

fn whole(n: &i64) -> Option<i64> {
    if *n < 1000 { Some(*n) } else { None }
}

type Integers = Calculator<
    fn(&i64) -> Class,
    fn(&i64) -> String,
    fn(&Op, &Vec<i64>) -> Result<i64, String>,
    fn(&i64) -> Option<i64>,
>;

fn integers() -> Integers {
    Calculator { classify, show, arithmetic: counted, whole }
}

fn page(url: &str) -> Option<Fetched> {
    match url {
        "http://ok" => Some(Fetched {
            success: true,
            status: "200 OK".to_string(),
            body: Some("hello".to_string()),
        }),
        "http://gone" => Some(Fetched {
            success: false,
            status: "404 Not Found".to_string(),
            body: Some("gone".to_string()),
        }),
        "http://torn" => Some(Fetched { success: true, status: "200 OK".to_string(), body: None }),
        _ => None,
    }
}

fn run_in(world: &World, which: Builtin, args: &Json) -> Result<ToolResult, String> {
    let w = world.clone();
    let x = world.clone();
    let y = world.clone();
    let z = world.clone();
    let k = world.clone();
    let files = Files {
        read: move |p: &str| w.files.lock().unwrap().get(p).cloned(),
        write: move |p: &str, c: &str| {
            x.files.lock().unwrap().insert(p.to_string(), c.to_string());
            !p.is_empty()
        },
        list: move |p: &str| {
            let prefix = format!("{p}/");
            let names: Vec<String> = y
                .files
                .lock()
                .unwrap()
                .keys()
                .filter_map(|k| k.strip_prefix(&prefix).map(|n| n.to_string()))
                .collect();
            if names.is_empty() { None } else { Some(names) }
        },
    };
    let web = Web {
        get: page,
        key: move || k.key.clone(),
        post: move |sent: &Outgoing| {
            z.posted.lock().unwrap().push(Outgoing {
                url: sent.url.clone(),
                authorization: sent.authorization.clone(),
                body: sent.body.clone(),
            });
            Some(Fetched {
                success: false,
                status: "500".to_string(),
                body: Some("results".to_string()),
            })
        },
    };
    run_builtin(which, args, &files, &echo, &web, &integers())
}

fn registry(world: &World) -> ToolRegistry<Executor> {
    let world = world.clone();
    ToolRegistry::with_builtins(&move |which: Builtin| -> Executor {
        let world = world.clone();
        Box::new(move |args| Some(run_in(&world, which, args)))
    })
}

#[test]
fn file_write_then_read_roundtrip() {
    let world = World::default();
    let registry = registry(&world);
    let path_s = "agent_loop_t_1/notes.txt";

    let write = registry.get("file_write").unwrap();
    let r = write.run(&args(&format!(r#"{{"path": "{path_s}", "content": "hello agent"}}"#)));
    assert!(r.is_ok() && !r.unwrap().is_error, "write failed");

    let read = registry.get("file_read").unwrap();
    let r = read.run(&args(&format!(r#"{{"path": "{path_s}"}}"#)));
    let res = r.unwrap();
    assert!(!res.is_error);
    assert_eq!(res.output, "hello agent");
}

#[test]
fn bash_runs_and_captures() {
    let registry = registry(&World::default());
    let b = registry.get("bash_run").unwrap();
    let r = b.run(&args(r#"{"command": "echo hello-from-bash"}"#)).unwrap();
    assert!(!r.is_error);
    assert!(r.output.contains("hello-from-bash"));
}

#[test]
fn every_tool_names_the_argument_that_is_missing() {
    let world = World::default();
    let missing = |which: Builtin, given: &str| run_in(&world, which, &args(given)).unwrap_err();
    assert_eq!(missing(Builtin::FileRead, "{}"), "missing `path`");
    assert_eq!(missing(Builtin::FileWrite, r#"{"content": "x"}"#), "missing `path`");
    assert_eq!(missing(Builtin::FileWrite, r#"{"path": "x"}"#), "missing `content`");
    assert_eq!(missing(Builtin::FileList, r#"{"path": 3}"#), "missing `path`");
    assert_eq!(missing(Builtin::BashRun, "[]"), "missing `command`");
    assert_eq!(missing(Builtin::WebFetch, "null"), "missing `url`");
    assert_eq!(missing(Builtin::WebSearch, r#"{"query": null}"#), "missing `query`");
    assert_eq!(missing(Builtin::Calc, r#""expression""#), "missing `expression`");
    assert_eq!(required_text(&args(r#"{"k": "v"}"#), "k"), Ok("v"));
}

#[test]
fn files_are_read_written_and_listed() {
    let read = |p: &str| if p == "a" { Some("text".to_string()) } else { None };
    assert_eq!(read_file(&args(r#"{"path": "a"}"#), &read), Ok(ToolResult::ok("text")));
    assert_eq!(read_file(&args(r#"{"path": "b"}"#), &read), Err("read b".to_string()));
    assert_eq!(answer_read("p", None), Err("read p".to_string()));

    let write = |p: &str, c: &str| p == "a" && c == "x";
    assert_eq!(
        write_file(&args(r#"{"path": "a", "content": "x"}"#), &write),
        Ok(ToolResult::ok("wrote a"))
    );
    assert_eq!(
        write_file(&args(r#"{"path": "b", "content": "x"}"#), &write),
        Err("write b".to_string())
    );
    assert_eq!(answer_write("p", true), Ok(ToolResult::ok("wrote p")));

    let list = |p: &str| -> Option<Vec<String>> {
        if p == "d" {
            Some(vec!["b".to_string(), "a10".to_string(), "é".to_string(), "B".to_string(), "a".to_string()])
        } else {
            None
        }
    };
    assert_eq!(
        list_files(&args(r#"{"path": "d"}"#), &list),
        Ok(ToolResult::ok("B\na\na10\nb\né"))
    );
    assert_eq!(list_files(&args(r#"{"path": "e"}"#), &list), Err("list e".to_string()));
    assert_eq!(answer_list("p", Some(Vec::new())), Ok(ToolResult::ok("")));
}

#[test]
fn listings_are_sorted_as_strings_are() {
    let mut names: Vec<String> = ["z", "", "ab", "a", "\u{10000}", "\u{ffff}", "a\u{0}", "ab"]
        .iter()
        .map(|s| s.to_string())
        .collect();
    let answer = answer_list("p", Some(names.clone())).unwrap();
    names.sort();
    assert_eq!(answer.output, names.join("\n"));
}

#[test]
fn commands_are_answered_with_all_that_they_wrote() {
    assert_eq!(answer_run("out", "", true, Some(0)), Ok(ToolResult::ok("out")));
    assert_eq!(answer_run("", "", true, Some(0)), Ok(ToolResult::ok("(no output)")));
    assert_eq!(
        answer_run("out", "err", true, Some(0)),
        Ok(ToolResult::ok("out\n[stderr]\nerr"))
    );
    assert_eq!(answer_run("", "err", true, Some(0)), Ok(ToolResult::ok("\n[stderr]\nerr")));
    assert_eq!(
        answer_run("out", "", false, Some(1)),
        Ok(ToolResult::err("exit Some(1): out"))
    );
    assert_eq!(
        answer_run("", "", false, None),
        Ok(ToolResult::err("exit None: (no output)"))
    );
    assert_eq!(
        answer_run("", "", false, Some(-15)),
        Ok(ToolResult::err("exit Some(-15): (no output)"))
    );
}

#[test]
fn bytes_that_are_no_text_are_replaced() {
    let bad = |_: &str, _: i64| -> Result<Ran, String> {
        Ok(Ran { stdout: vec![b'a', 0xff, b'b'], stderr: vec![0xc3], success: true, code: Some(0) })
    };
    assert_eq!(
        run_command(&args(r#"{"command": "x"}"#), &bad),
        Ok(ToolResult::ok("a\u{fffd}b\n[stderr]\n\u{fffd}"))
    );
    let none = |_: &str, _: i64| -> Result<Ran, String> { Err("no such file".to_string()) };
    assert_eq!(
        run_command(&args(r#"{"command": "x", "timeout_secs": 1}"#), &none),
        Ok(ToolResult::err("could not spawn bash: no such file"))
    );
    let world = World::default();
    assert_eq!(
        run_in(&world, Builtin::BashRun, &args(r#"{"command": "nope"}"#)),
        Ok(ToolResult::err("exit Some(127): \n[stderr]\nnot found"))
    );
}

#[test]
fn commands_are_run_under_their_timeout() {
    let told = |command: &str, secs: i64| -> Result<Ran, String> {
        Ok(Ran {
            stdout: format!("{command} for {secs}").into_bytes(),
            stderr: Vec::new(),
            success: true,
            code: Some(0),
        })
    };
    let run = |given: &str| run_command(&args(given), &told);
    assert_eq!(run(r#"{"command": "x"}"#), Ok(ToolResult::ok("x for 30")));
    assert_eq!(
        run(r#"{"command": "x", "timeout_secs": 7}"#),
        Ok(ToolResult::ok("x for 7"))
    );
    assert_eq!(timeout_secs(&args(r#"{"timeout_secs": "soon"}"#)), 30);
    assert_eq!(timeout_secs(&args(r#"{"timeout_secs": -1}"#)), -1);
    // Text in UTF-8 is answered as it is.
    let ran = Ran {
        stdout: "é →".as_bytes().to_vec(),
        stderr: Vec::new(),
        success: false,
        code: None,
    };
    assert_eq!(answer_spawn(&Ok(ran)), Ok(ToolResult::err("exit None: é →")));
}

#[test]
fn pages_are_fetched() {
    let get = |url: &str| fetch(&args(&format!(r#"{{"url": "{url}"}}"#)), &page);
    assert_eq!(get("http://ok"), Ok(ToolResult::ok("hello")));
    assert_eq!(get("http://gone"), Ok(ToolResult::err("HTTP 404 Not Found: gone")));
    assert_eq!(get("http://torn"), Ok(ToolResult::ok("")));
    assert_eq!(get("http://else"), Err("GET http://else".to_string()));
    assert_eq!(answer_fetch("u", None), Err("GET u".to_string()));
}

#[test]
fn searches_are_posted_under_the_key() {
    let mut world = World::default();
    world.key = Some("k1".to_string());
    let r = run_in(&world, Builtin::WebSearch, &args(r#"{"query": "rust"}"#));
    assert_eq!(r, Ok(ToolResult::ok("results")));
    let r = run_in(&world, Builtin::WebSearch, &args(r#"{"query": "rust", "max_results": 2}"#));
    assert_eq!(r, Ok(ToolResult::ok("results")));
    let posted = world.posted.lock().unwrap();
    assert_eq!(posted.len(), 2);
    assert_eq!(posted[0].url, "https://api.tavily.com/search");
    assert_eq!(posted[0].authorization, Some("Bearer k1".to_string()));
    assert_eq!(
        posted[0].body,
        args(r#"{"query": "rust", "max_results": 5, "search_depth": "basic"}"#)
    );
    assert_eq!(posted[1], search_request("k1", "rust", 2));
}

#[test]
fn searches_without_a_key_explain_themselves() {
    let remark = "web_search has no backend configured: TAVILY_API_KEY is not set. \
                  Suggest the agent use web_fetch instead to retrieve a specific URL.";
    let mut world = World::default();
    assert_eq!(
        run_in(&world, Builtin::WebSearch, &args(r#"{"query": "q"}"#)),
        Ok(ToolResult::ok(remark))
    );
    world.key = Some(String::new());
    assert_eq!(
        run_in(&world, Builtin::WebSearch, &args(r#"{"query": "q"}"#)),
        Ok(ToolResult::ok(remark))
    );
    assert!(world.posted.lock().unwrap().is_empty());
    let never = |_: &Outgoing| -> Option<Fetched> { panic!("sent") };
    let tool = search_tool(Web { get: page, key: || None, post: never });
    assert_eq!(tool.run(&args(r#"{"query": "q"}"#)), Ok(ToolResult::ok(remark)));
    assert_eq!(tool.run(&args("{}")), Err("missing `query`".to_string()));
    assert_eq!(search_with(&Some(String::new()), "q", 5, &never), Ok(ToolResult::ok(remark)));

    let nothing = |_: &Outgoing| -> Option<Fetched> { None };
    assert_eq!(
        search_with(&Some("k".to_string()), "q", 5, &nothing),
        Err("tavily request".to_string())
    );
    let web = Web { get: page, key: || Some("k".to_string()), post: nothing };
    assert_eq!(search(&args(r#"{"query": "q"}"#), &web), Err("tavily request".to_string()));
    assert_eq!(answer_search(None), Err("tavily request".to_string()));
}

#[test]
fn calculations_are_printed() {
    let calculator = integers();
    let run = |e: &str| {
        calculate(&Json::Object(vec![("expression".to_string(), Json::text(e))]), &calculator)
    };
    assert_eq!(run("20 + 22"), Ok(ToolResult::ok("42")));
    assert_eq!(run("max(2, 3)"), Ok(ToolResult::ok("3")));
    assert_eq!(run("2000 + 3000"), Ok(ToolResult::ok("5 thousand")));
    assert_eq!(
        run("1 / 0"),
        Err("failed to evaluate \"1 / 0\": division by zero".to_string())
    );
    // The expression is quoted with escapes.
    assert_eq!(
        run("\"a\"\n\u{7}"),
        Err(format!(
            "failed to evaluate {:?}: unexpected token at position 0",
            "\"a\"\n\u{7}"
        ))
    );
    assert_eq!(answer_calc("q", Ok(Shown::Whole(-7))), Ok(ToolResult::ok("-7")));
    assert_eq!(
        answer_calc("q", Ok(Shown::Whole(i64::MIN))),
        Ok(ToolResult::ok("-9223372036854775808"))
    );
    assert_eq!(
        answer_calc("q", Ok(Shown::Other("2.5".to_string()))),
        Ok(ToolResult::ok("2.5"))
    );
    assert_eq!(
        answer_calc("\"x\"", Err("why".to_string())),
        Err("failed to evaluate \"x\": why".to_string())
    );
    assert_eq!(
        run_in(&World::default(), Builtin::Calc, &args(r#"{"expression": "8/2"}"#)),
        Ok(ToolResult::ok("4"))
    );
}

#[test]
fn nothing_is_reached_without_arguments() {
    let none = args("{}");
    let read = read_tool(|_: &str| -> Option<String> { panic!("read") });
    assert_eq!(read.run(&none), Err("missing `path`".to_string()));
    let write = write_tool(|_: &str, _: &str| -> bool { panic!("written") });
    assert_eq!(write.run(&args(r#"{"path": "p"}"#)), Err("missing `content`".to_string()));
    let list = list_tool(|_: &str| -> Option<Vec<String>> { panic!("listed") });
    assert_eq!(list.run(&none), Err("missing `path`".to_string()));
    let run = run_tool(|_: &str, _: i64| -> Result<Ran, String> { panic!("run") });
    assert_eq!(run.run(&none), Err("missing `command`".to_string()));
    let fetch = fetch_tool(|_: &str| -> Option<Fetched> { panic!("fetched") });
    assert_eq!(fetch.run(&none), Err("missing `url`".to_string()));
}

#[test]
fn each_tool_carries_its_executor() {
    let read = read_tool(|p: &str| if p == "a" { Some("text".to_string()) } else { None });
    assert_eq!(read.name, "file_read");
    assert_eq!(read.run(&args(r#"{"path": "a"}"#)), Ok(ToolResult::ok("text")));

    let write = write_tool(|_: &str, _: &str| false);
    assert_eq!(write.name, "file_write");
    assert_eq!(
        write.run(&args(r#"{"path": "a", "content": ""}"#)),
        Err("write a".to_string())
    );

    let list = list_tool(|_: &str| Some(vec!["b".to_string(), "a".to_string()]));
    assert_eq!(list.name, "file_list");
    assert_eq!(list.run(&args(r#"{"path": "."}"#)), Ok(ToolResult::ok("a\nb")));

    let run = run_tool(echo);
    assert_eq!(run.name, "bash_run");
    assert_eq!(run.run(&args(r#"{"command": "echo x"}"#)), Ok(ToolResult::ok("x\n")));

    let fetch = fetch_tool(page);
    assert_eq!(fetch.name, "web_fetch");
    assert_eq!(fetch.run(&args(r#"{"url": "http://ok"}"#)), Ok(ToolResult::ok("hello")));

    let search = search_tool(Web {
        get: page,
        key: || Some("k".to_string()),
        post: |_: &Outgoing| -> Option<Fetched> { None },
    });
    assert_eq!(search.name, "web_search");
    assert_eq!(search.run(&args(r#"{"query": "q"}"#)), Err("tavily request".to_string()));

    let calc = calc_tool(integers());
    assert_eq!(calc.name, "calc");
    assert_eq!(calc.run(&args(r#"{"expression": "1+2"}"#)), Ok(ToolResult::ok("3")));
}

#[test]
fn executors_of_builtins_run_their_own_tool() {
    let executor = |which: Builtin| {
        builtin_executor(
            which,
            Files {
                read: |p: &str| Some(format!("read {p}")),
                write: |_: &str, _: &str| true,
                list: |_: &str| -> Option<Vec<String>> { None },
            },
            echo,
            Web { get: page, key: || None, post: |_: &Outgoing| -> Option<Fetched> { None } },
            integers(),
        )
    };
    let all = args(
        r#"{"path": "p", "content": "c", "command": "echo c", "url": "http://ok",
            "query": "q", "expression": "2+2"}"#,
    );
    assert_eq!(executor(Builtin::FileRead)(&all), Some(Ok(ToolResult::ok("read p"))));
    assert_eq!(executor(Builtin::FileWrite)(&all), Some(Ok(ToolResult::ok("wrote p"))));
    assert_eq!(executor(Builtin::FileList)(&all), Some(Err("list p".to_string())));
    assert_eq!(executor(Builtin::BashRun)(&all), Some(Ok(ToolResult::ok("c\n"))));
    assert_eq!(executor(Builtin::WebFetch)(&all), Some(Ok(ToolResult::ok("hello"))));
    assert_eq!(executor(Builtin::Calc)(&all), Some(Ok(ToolResult::ok("4"))));
    // A registry can hold them as they are.
    let registry = ToolRegistry::with_builtins(&executor);
    assert_eq!(registry.get("calc").unwrap().run(&all), Ok(ToolResult::ok("4")));
    // A call by name is answered by the tool of that name.
    let call = ToolCall {
        id: "c1".to_string(),
        name: "file_write".to_string(),
        arguments: r#"{"path": "q", "content": ""}"#.to_string(),
    };
    assert_eq!(execute_one(&registry, &call), ChatMessage::tool_result("c1", "wrote q"));
}
