use agent_loop::hooks::{HookEvent, HookLogEntry, HookPayload, Hooks};
use agent_loop::json::Json;
use std::sync::atomic::{AtomicUsize, Ordering};
use std::sync::{Arc, Mutex};

type Callback = Box<dyn Fn(&HookPayload)>;

fn stop() -> HookPayload {
    HookPayload::Stop { reason: "stop".into() }
}

fn line(event: HookEvent, message: &str) -> HookLogEntry {
    HookLogEntry { event, message: message.to_string() }
}

#[test]
fn fires_handlers_per_event() {
    let counter = Arc::new(AtomicUsize::new(0));
    let mut hooks: Hooks<Callback> = Hooks::new().with_log();
    let c = counter.clone();
    hooks.on_pre_tool_use(Box::new(move |_| {
        c.fetch_add(1, Ordering::SeqCst);
    }));
    let c2 = counter.clone();
    hooks.on_pre_tool_use(Box::new(move |_| {
        c2.fetch_add(1, Ordering::SeqCst);
    }));

    hooks.fire(
        HookEvent::PreToolUse,
        &HookPayload::PreToolUse { tool: "bash_run".into(), args: Json::Object(Vec::new()) },
    );
    // No handler, must be a no-op.
    hooks.fire(HookEvent::Stop, &HookPayload::Stop { reason: "stop".into() });

    assert_eq!(counter.load(Ordering::SeqCst), 2);
    assert_eq!(hooks.count(), 2);
}

#[test]
fn log_records_events() {
    let mut hooks: Hooks<Callback> = Hooks::new().with_log();
    hooks.on_user_prompt_submit(Box::new(|_| {}));
    hooks.fire(
        HookEvent::UserPromptSubmit,
        &HookPayload::UserPromptSubmit { prompt: "hi".into() },
    );
    hooks.fire(
        HookEvent::UserPromptSubmit,
        &HookPayload::UserPromptSubmit { prompt: "again".into() },
    );
    let entries = hooks.log_entries();
    assert_eq!(entries.len(), 2);
    assert_eq!(entries[0].event, HookEvent::UserPromptSubmit);
}

#[test]
fn all_event_names_are_distinct() {
    let names: std::collections::HashSet<_> = HookEvent::ALL.iter().map(|e| e.as_str()).collect();
    assert_eq!(names.len(), 6);
}

#[test]
fn events_have_their_names() {
    let names: Vec<&str> = HookEvent::ALL.iter().map(|e| e.as_str()).collect();
    assert_eq!(
        names,
        ["pretooluse", "posttooluse", "userpromptsubmit", "stop", "subagentstart", "subagentstop"]
    );
}

#[test]
fn callbacks_run_in_the_order_of_registration_and_see_the_payload() {
    let seen: Arc<Mutex<Vec<String>>> = Arc::new(Mutex::new(Vec::new()));
    let mut hooks: Hooks<Callback> = Hooks::default();
    for name in ["first", "second"] {
        let seen = seen.clone();
        hooks.on_post_tool_use(Box::new(move |p| {
            if let HookPayload::PostToolUse { tool, output, is_error } = p {
                seen.lock().unwrap().push(format!("{name}: {tool} {output} {is_error}"));
            }
        }));
    }
    hooks.fire(
        HookEvent::PostToolUse,
        &HookPayload::PostToolUse { tool: "t".into(), output: "o".into(), is_error: true },
    );
    assert_eq!(*seen.lock().unwrap(), ["first: t o true", "second: t o true"]);
    assert!(hooks.log_entries().is_empty());
}

#[test]
fn each_registration_observes_its_own_event() {
    let payloads = [
        HookPayload::PreToolUse { tool: "t".into(), args: Json::Null },
        HookPayload::PostToolUse { tool: "t".into(), output: "o".into(), is_error: false },
        HookPayload::UserPromptSubmit { prompt: "p".into() },
        stop(),
        HookPayload::SubAgentStart { name: "n".into(), prompt: "p".into() },
        HookPayload::SubAgentStop { name: "n".into(), result: "r".into() },
    ];
    let fired: Arc<Mutex<Vec<&str>>> = Arc::new(Mutex::new(Vec::new()));
    let note = |text: &'static str| -> Callback {
        let fired = fired.clone();
        Box::new(move |_| fired.lock().unwrap().push(text))
    };
    let mut hooks: Hooks<Callback> = Hooks::new();
    hooks.on_pre_tool_use(note("pre"));
    hooks.on_post_tool_use(note("post"));
    hooks.on_user_prompt_submit(note("prompt"));
    hooks.on_stop(note("stop"));
    hooks.on_sub_agent_start(note("start"));
    hooks.on_sub_agent_stop(note("end"));
    hooks.register(HookEvent::Stop, note("stop again"));
    for (event, payload) in HookEvent::ALL.iter().zip(&payloads) {
        assert_eq!(payload.event(), *event);
        assert_eq!(payload.clone().event(), *event);
        hooks.fire(*event, payload);
    }
    assert_eq!(
        *fired.lock().unwrap(),
        ["pre", "post", "prompt", "stop", "stop again", "start", "end"]
    );
    assert_eq!(hooks.count(), 7);
}

#[test]
fn a_payload_of_another_event_is_ignored() {
    let counter = Arc::new(AtomicUsize::new(0));
    let c = counter.clone();
    let mut hooks: Hooks<Callback> = Hooks::new().with_log();
    hooks.on_pre_tool_use(Box::new(move |_| {
        c.fetch_add(1, Ordering::SeqCst);
    }));
    hooks.fire(HookEvent::PreToolUse, &stop());
    assert_eq!(counter.load(Ordering::SeqCst), 0);
    assert!(hooks.log_entries().is_empty());
}

#[test]
fn notes_come_before_the_line_of_their_event() {
    let mut hooks: Hooks<Callback> = Hooks::new()
        .with_log()
        .log_hook(HookEvent::Stop, "one".to_string())
        .log_hook(HookEvent::Stop, "two".to_string());
    assert_eq!(hooks.count(), 2);
    hooks.fire(HookEvent::Stop, &stop());
    hooks.fire(
        HookEvent::UserPromptSubmit,
        &HookPayload::UserPromptSubmit { prompt: "p".into() },
    );
    let expected = vec![
        line(HookEvent::Stop, "one"),
        line(HookEvent::Stop, "two"),
        line(HookEvent::Stop, "stop"),
        line(HookEvent::UserPromptSubmit, "userpromptsubmit"),
    ];
    assert_eq!(hooks.log_entries(), expected);
    assert_eq!(hooks.log_entries()[0].clone(), expected[0]);
}

#[test]
fn notes_stay_with_the_log_that_they_were_made_for() {
    // No log yet: the note is never written.
    let mut hooks: Hooks<Callback> =
        Hooks::new().log_hook(HookEvent::Stop, "early".to_string()).with_log();
    hooks.fire(HookEvent::Stop, &stop());
    assert_eq!(hooks.log_entries(), vec![line(HookEvent::Stop, "stop")]);

    // A new log: the note went with the old one.
    let mut hooks: Hooks<Callback> = Hooks::new()
        .with_log()
        .log_hook(HookEvent::Stop, "old".to_string())
        .with_log()
        .log_hook(HookEvent::Stop, "new".to_string());
    hooks.fire(HookEvent::Stop, &stop());
    assert_eq!(
        hooks.log_entries(),
        vec![line(HookEvent::Stop, "new"), line(HookEvent::Stop, "stop")]
    );
}

#[test]
fn copies_call_the_same_callbacks() {
    let counter = Arc::new(AtomicUsize::new(0));
    let c = counter.clone();
    let add = move |_: &HookPayload| {
        c.fetch_add(1, Ordering::SeqCst);
    };
    let mut hooks = Hooks::new().with_log().log_hook(HookEvent::Stop, "note".to_string());
    hooks.on_stop(add);
    hooks.fire(HookEvent::Stop, &stop());
    let mut copy = hooks.clone();
    assert_eq!(copy.count(), hooks.count());
    assert_eq!(copy.log_entries(), hooks.log_entries());
    copy.fire(HookEvent::Stop, &stop());
    assert_eq!(counter.load(Ordering::SeqCst), 2);
    assert_eq!(
        copy.log_entries(),
        vec![
            line(HookEvent::Stop, "note"),
            line(HookEvent::Stop, "stop"),
            line(HookEvent::Stop, "note"),
            line(HookEvent::Stop, "stop"),
        ]
    );
    assert_eq!(hooks.log_entries().len(), 2);
}
