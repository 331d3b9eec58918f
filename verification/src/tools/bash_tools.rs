//! The tool that runs shell commands.
use vstd::prelude::*;
use vstd::utf8::{decode_utf8, valid_utf8};
use crate::json::{entry_views, push_entry, Json, JsonView};
use crate::text::{render_signed, signed_decimal};
use crate::tools::{
    failure, gives_only, object_schema, property, property_schema, required_text,
    required_text_spec, run_view, s_required, strs, success, Execution, Tool, ToolResult,
    ToolResultView, ToolView,
};

verus! {

// ---------------------------------------------------------------------------
// Description
// ---------------------------------------------------------------------------

/// The description of the tool that runs a shell command.
pub open spec fn run_description() -> ToolView {
    ToolView {
        name: "bash_run"@,
        description: "Run a shell command through /bin/bash and capture its stdout. If the command exits non-zero, stdout/stderr are returned and the tool is marked as errored."@,
        parameters: object_schema(
            JsonView::Object(
                seq![
                    (
                        "command"@,
                        property_schema("string"@, "The shell command to run."@),
                    ),
                    (
                        "timeout_secs"@,
                        property_schema("integer"@, "Optional per-command timeout in seconds (default 30)."@),
                    ),
                ],
            ),
            seq!["command"@],
        ),
    }
}

/// The tool that runs a shell command, with this executor.
pub fn run_tool_with<F>(executor: F) -> (tool: Tool<F>)
    ensures
        tool@ == run_description(),
        tool.executor == executor,
{
    let mut properties: Vec<(String, Json)> = Vec::new();
    push_entry(&mut properties, "command", property("string", "The shell command to run."));
    push_entry(&mut properties, "timeout_secs", property("integer", "Optional per-command timeout in seconds (default 30)."));
    let required: [&str; 1] = ["command"];
    proof {
        let expected = run_description().parameters->Object_0;
        assert(entry_views(properties@) =~= expected[1].1->Object_0);
        assert(strs(required@) =~= seq!["command"@]);
    }
    Tool::new(
        "bash_run",
        "Run a shell command through /bin/bash and capture its stdout. If the command exits non-zero, stdout/stderr are returned and the tool is marked as errored.",
        s_required(Json::object(properties), &required),
        executor,
    )
}

// ---------------------------------------------------------------------------
// Execution
// ---------------------------------------------------------------------------

/// What a command left behind.
#[derive(Debug, PartialEq, Eq)]
pub struct Ran {
    pub stdout: Vec<u8>,
    pub stderr: Vec<u8>,
    /// Whether the exit status is one of success.
    pub success: bool,
    /// The exit code; there is none where a signal ended the command, as one does that has
    /// taken too long.
    pub code: Option<i32>,
}

/// What `String::from_utf8_lossy` makes of bytes.
pub uninterp spec fn lossy_text(bytes: Seq<u8>) -> Seq<char>;

/// Calls `String::from_utf8_lossy`. Claims that the text depends on the bytes alone, and that
/// bytes that are valid UTF-8 are decoded as such.
#[verifier::external_body]
fn decode_lossy(bytes: &Vec<u8>) -> (text: String)
    ensures
        text@ == lossy_text(bytes@),
        valid_utf8(bytes@) ==> text@ == decode_utf8(bytes@),
{
    String::from_utf8_lossy(bytes).into_owned()
}

/// The text of bytes that a command wrote: what they encode, where they are valid UTF-8.
pub open spec fn written_text(bytes: Seq<u8>) -> Seq<char> {
    if valid_utf8(bytes) {
        decode_utf8(bytes)
    } else {
        lossy_text(bytes)
    }
}

/// The output of a command, with a marker before what it wrote to its error stream, or a
/// remark that there is none.
pub open spec fn shell_output(stdout: Seq<char>, stderr: Seq<char>) -> Seq<char> {
    if stderr.len() > 0 {
        stdout + "\n[stderr]\n"@ + stderr
    } else if stdout.len() > 0 {
        stdout
    } else {
        "(no output)"@
    }
}

/// An exit code in print.
pub open spec fn shown_code(code: Option<i32>) -> Seq<char> {
    match code {
        Some(code) => "Some("@ + signed_decimal(code as int) + ")"@,
        None => "None"@,
    }
}

/// What running a command is answered.
pub open spec fn shell_result(
    stdout: Seq<char>,
    stderr: Seq<char>,
    ok: bool,
    code: Option<i32>,
) -> Result<ToolResultView, Seq<char>> {
    if ok {
        success(shell_output(stdout, stderr))
    } else {
        failure("exit "@ + shown_code(code) + ": "@ + shell_output(stdout, stderr))
    }
}

/// What running a command is answered, where `stdout` and `stderr` are the texts that it
/// wrote.
pub fn answer_run(stdout: &str, stderr: &str, ok: bool, code: Option<i32>) -> (r: Result<
    ToolResult,
    String,
>)
    ensures
        run_view(r) == shell_result(stdout@, stderr@, ok, code),
{
    let full = if stderr.is_empty() {
        stdout.to_owned()
    } else {
        let mut full = stdout.to_owned();
        full.append("\n[stderr]\n");
        full.append(stderr);
        full
    };
    proof {
        reveal_strlit("\n[stderr]\n");
    }
    let body = if full.as_str().is_empty() {
        "(no output)".to_owned()
    } else {
        full
    };
    assert(body@ =~= shell_output(stdout@, stderr@));
    if ok {
        Ok(ToolResult { output: body, is_error: false })
    } else {
        let mut text = "exit ".to_owned();
        match code {
            Some(code) => {
                text.append("Some(");
                text.append(render_signed(code as i64).as_str());
                text.append(")");
            },
            None => {
                text.append("None");
            },
        }
        text.append(": ");
        text.append(body.as_str());
        assert(text@ =~= "exit "@ + shown_code(code) + ": "@ + body@);
        Ok(ToolResult { output: text, is_error: true })
    }
}

/// What a command that could or could not be started is answered.
pub open spec fn spawn_result(came: Result<Ran, String>) -> Result<ToolResultView, Seq<char>> {
    match came {
        Ok(ran) => shell_result(
            written_text(ran.stdout@),
            written_text(ran.stderr@),
            ran.success,
            ran.code,
        ),
        Err(e) => failure("could not spawn bash: "@ + e@),
    }
}

/// What a command that could or could not be started is answered.
pub fn answer_spawn(came: &Result<Ran, String>) -> (r: Result<ToolResult, String>)
    ensures
        run_view(r) == spawn_result(*came),
{
    match came {
        Ok(ran) => {
            let stdout = decode_lossy(&ran.stdout);
            let stderr = decode_lossy(&ran.stderr);
            answer_run(stdout.as_str(), stderr.as_str(), ran.success, ran.code)
        },
        Err(e) => Ok(
            ToolResult {
                output: "could not spawn bash: ".to_owned().concat(e.as_str()),
                is_error: true,
            },
        ),
    }
}

/// How many seconds a command may take.
pub open spec fn timeout_spec(args: JsonView) -> i64 {
    match args.int_field("timeout_secs"@) {
        Some(n) => n,
        None => 30,
    }
}

/// How many seconds a command may take: what the arguments say, or thirty.
pub fn timeout_secs(args: &Json) -> (n: i64)
    ensures
        n == timeout_spec(args@),
{
    match args.get_i64("timeout_secs") {
        Some(n) => n,
        None => 30,
    }
}

/// Whether `r` may be the answer to a call that runs a command: the command is among the
/// arguments, and the answer is that to what came of handing it, with its timeout, to
/// `shell`.
pub open spec fn runs<B: Fn(&str, i64) -> Result<Ran, String>>(
    shell: B,
    args: JsonView,
    r: Result<ToolResult, String>,
) -> bool {
    match required_text_spec(args, "command"@) {
        Ok(command) => exists|c: &str, came: Result<Ran, String>|
            #![trigger call_ensures(shell, (c, timeout_spec(args)), came)]
            c@ == command && call_ensures(shell, (c, timeout_spec(args)), came) && run_view(r)
                == spawn_result(came),
        Err(e) => run_view(r) == Err::<ToolResultView, Seq<char>>(e),
    }
}

/// Whether `shell` accepts the command among the arguments of a call with its timeout, if
/// there is one.
pub open spec fn can_run<B: Fn(&str, i64) -> Result<Ran, String>>(shell: B, args: JsonView) -> bool {
    match required_text_spec(args, "command"@) {
        Ok(command) => forall|c: &str|
            c@ == command ==> #[trigger] call_requires(shell, (c, timeout_spec(args))),
        Err(_) => true,
    }
}

/// Runs a call that runs a command.
pub fn run_command<B: Fn(&str, i64) -> Result<Ran, String>>(args: &Json, shell: &B) -> (r: Result<
    ToolResult,
    String,
>)
    requires
        can_run(*shell, args@),
    ensures
        runs(*shell, args@, r),
{
    match required_text(args, "command") {
        Ok(command) => {
            let secs = timeout_secs(args);
            let came = shell(command, secs);
            assert(call_ensures(*shell, (command, timeout_spec(args@)), came));
            answer_spawn(&came)
        },
        Err(e) => Err(e),
    }
}

/// The executor of the tool that runs a shell command.
pub fn run_executor<B: Fn(&str, i64) -> Result<Ran, String>>(shell: B) -> (executor: impl Fn(&Json) -> Execution)
    ensures
        gives_only(
            executor,
            |args: JsonView| can_run(shell, args),
            |args: JsonView, r: Result<ToolResult, String>| runs(shell, args, r),
        ),
{
    move |args: &Json| -> (came: Execution)
        requires
            can_run(shell, args@),
        ensures
            came is Some,
            runs(shell, args@, came->0),
        { Some(run_command(args, &shell)) }
}

/// The tool that runs a shell command.
pub fn run_tool<B: Fn(&str, i64) -> Result<Ran, String>>(shell: B) -> (tool: Tool<impl Fn(&Json) -> Execution>)
    ensures
        tool@ == run_description(),
        gives_only(
            tool.executor,
            |args: JsonView| can_run(shell, args),
            |args: JsonView, r: Result<ToolResult, String>| runs(shell, args, r),
        ),
{
    run_tool_with(run_executor(shell))
}

} // verus!
