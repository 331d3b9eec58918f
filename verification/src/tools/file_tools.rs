//! Tools that read, write and list files.
use vstd::prelude::*;
use crate::json::{entry_views, push_entry, Json, JsonView};
use crate::text::{in_order, join, joined, sort, texts};
use crate::tools::{
    gives_only, object_schema, property, property_schema, required_text, required_text_spec,
    run_view, s_required, strs, success, takes_argument, Execution, Tool, ToolResult,
    ToolResultView, ToolView,
};

verus! {

// ---------------------------------------------------------------------------
// Descriptions
// ---------------------------------------------------------------------------

/// The description of the tool that reads a file.
pub open spec fn read_description() -> ToolView {
    ToolView {
        name: "file_read"@,
        description: "Read the full contents of a text file at the given absolute or relative path. Returns file contents, or an error if the file does not exist or is not readable."@,
        parameters: object_schema(
            JsonView::Object(
                seq![
                    (
                        "path"@,
                        property_schema("string"@, "Absolute or workspace-relative path of the file to read."@),
                    ),
                ],
            ),
            seq!["path"@],
        ),
    }
}

/// The tool that reads a file, with this executor.
pub fn read_tool_with<F>(executor: F) -> (tool: Tool<F>)
    ensures
        tool@ == read_description(),
        tool.executor == executor,
{
    let mut properties: Vec<(String, Json)> = Vec::new();
    push_entry(&mut properties, "path", property("string", "Absolute or workspace-relative path of the file to read."));
    let required: [&str; 1] = ["path"];
    proof {
        let expected = read_description().parameters->Object_0;
        assert(entry_views(properties@) =~= expected[1].1->Object_0);
        assert(strs(required@) =~= seq!["path"@]);
    }
    Tool::new(
        "file_read",
        "Read the full contents of a text file at the given absolute or relative path. Returns file contents, or an error if the file does not exist or is not readable.",
        s_required(Json::object(properties), &required),
        executor,
    )
}

/// The description of the tool that writes a file.
pub open spec fn write_description() -> ToolView {
    ToolView {
        name: "file_write"@,
        description: "Write the given text content to a file at the given path, overwriting it. Creates parent directories automatically. Returns the path written."@,
        parameters: object_schema(
            JsonView::Object(
                seq![
                    (
                        "content"@,
                        property_schema("string"@, "Full text content to write to the file."@),
                    ),
                    (
                        "path"@,
                        property_schema("string"@, "Path of the file to write."@),
                    ),
                ],
            ),
            seq!["path"@, "content"@],
        ),
    }
}

/// The tool that writes a file, with this executor.
pub fn write_tool_with<F>(executor: F) -> (tool: Tool<F>)
    ensures
        tool@ == write_description(),
        tool.executor == executor,
{
    let mut properties: Vec<(String, Json)> = Vec::new();
    push_entry(&mut properties, "content", property("string", "Full text content to write to the file."));
    push_entry(&mut properties, "path", property("string", "Path of the file to write."));
    let required: [&str; 2] = ["path", "content"];
    proof {
        let expected = write_description().parameters->Object_0;
        assert(entry_views(properties@) =~= expected[1].1->Object_0);
        assert(strs(required@) =~= seq!["path"@, "content"@]);
    }
    Tool::new(
        "file_write",
        "Write the given text content to a file at the given path, overwriting it. Creates parent directories automatically. Returns the path written.",
        s_required(Json::object(properties), &required),
        executor,
    )
}

/// The description of the tool that lists a directory.
pub open spec fn list_description() -> ToolView {
    ToolView {
        name: "file_list"@,
        description: "List the names of entries inside a directory. Returns one entry name per line."@,
        parameters: object_schema(
            JsonView::Object(
                seq![
                    (
                        "path"@,
                        property_schema("string"@, "Directory to list."@),
                    ),
                ],
            ),
            seq!["path"@],
        ),
    }
}

/// The tool that lists a directory, with this executor.
pub fn list_tool_with<F>(executor: F) -> (tool: Tool<F>)
    ensures
        tool@ == list_description(),
        tool.executor == executor,
{
    let mut properties: Vec<(String, Json)> = Vec::new();
    push_entry(&mut properties, "path", property("string", "Directory to list."));
    let required: [&str; 1] = ["path"];
    proof {
        let expected = list_description().parameters->Object_0;
        assert(entry_views(properties@) =~= expected[1].1->Object_0);
        assert(strs(required@) =~= seq!["path"@]);
    }
    Tool::new(
        "file_list",
        "List the names of entries inside a directory. Returns one entry name per line.",
        s_required(Json::object(properties), &required),
        executor,
    )
}

// ---------------------------------------------------------------------------
// Execution
// ---------------------------------------------------------------------------

/// How files are reached.
pub struct Files<R, W, L> {
    /// Reads the file at a path, if it can.
    pub read: R,
    /// Writes a text to the file at a path, with the directories above it, and says
    /// whether it could.
    pub write: W,
    /// Lists the names in the directory at a path, in any order, if it can.
    pub list: L,
}

/// What reading a file is answered.
pub open spec fn read_result(path: Seq<char>, contents: Option<Seq<char>>) -> Result<
    ToolResultView,
    Seq<char>,
> {
    match contents {
        Some(contents) => success(contents),
        None => Err("read "@ + path),
    }
}

/// What reading a file is answered, where `contents` is what was found at the path.
pub fn answer_read(path: &str, contents: Option<String>) -> (r: Result<ToolResult, String>)
    ensures
        run_view(r) == read_result(
            path@,
            match contents {
                Some(contents) => Some(contents@),
                None => None,
            },
        ),
{
    match contents {
        Some(contents) => Ok(ToolResult { output: contents, is_error: false }),
        None => Err("read ".to_owned().concat(path)),
    }
}

/// Whether `r` may be the answer to a call that reads a file: the path is among the
/// arguments, and the answer is that to what `read` found there.
pub open spec fn reads<R: Fn(&str) -> Option<String>>(
    read: R,
    args: JsonView,
    r: Result<ToolResult, String>,
) -> bool {
    match required_text_spec(args, "path"@) {
        Ok(path) => exists|p: &str, found: Option<String>|
            #![trigger call_ensures(read, (p,), found)]
            p@ == path && call_ensures(read, (p,), found) && run_view(r) == read_result(
                path,
                match found {
                    Some(contents) => Some(contents@),
                    None => None,
                },
            ),
        Err(e) => run_view(r) == Err::<ToolResultView, Seq<char>>(e),
    }
}

/// Runs a call that reads a file.
pub fn read_file<R: Fn(&str) -> Option<String>>(args: &Json, read: &R) -> (r: Result<
    ToolResult,
    String,
>)
    requires
        takes_argument(*read, args@, "path"@),
    ensures
        reads(*read, args@, r),
{
    match required_text(args, "path") {
        Ok(path) => {
            let found = read(path);
            let ghost came = found;
            assert(call_ensures(*read, (path,), came));
            answer_read(path, found)
        },
        Err(e) => Err(e),
    }
}

/// What writing a file is answered.
pub open spec fn write_result(path: Seq<char>, done: bool) -> Result<ToolResultView, Seq<char>> {
    if done {
        success("wrote "@ + path)
    } else {
        Err("write "@ + path)
    }
}

/// What writing a file is answered, where `done` says whether it could be written.
pub fn answer_write(path: &str, done: bool) -> (r: Result<ToolResult, String>)
    ensures
        run_view(r) == write_result(path@, done),
{
    if done {
        Ok(ToolResult::ok("wrote ".to_owned().concat(path).as_str()))
    } else {
        Err("write ".to_owned().concat(path))
    }
}

/// Whether `r` may be the answer to a call that writes a file: path and content are among
/// the arguments, and the answer is that to whether `write` could write the one to the
/// other.
pub open spec fn writes<W: Fn(&str, &str) -> bool>(
    write: W,
    args: JsonView,
    r: Result<ToolResult, String>,
) -> bool {
    match required_text_spec(args, "path"@) {
        Ok(path) => match required_text_spec(args, "content"@) {
            Ok(content) => exists|p: &str, c: &str, done: bool|
                #![trigger call_ensures(write, (p, c), done)]
                p@ == path && c@ == content && call_ensures(write, (p, c), done) && run_view(r)
                    == write_result(path, done),
            Err(e) => run_view(r) == Err::<ToolResultView, Seq<char>>(e),
        },
        Err(e) => run_view(r) == Err::<ToolResultView, Seq<char>>(e),
    }
}

/// Whether `write` accepts the path and the content among the arguments of a call, if both
/// are there.
pub open spec fn can_write<W: Fn(&str, &str) -> bool>(write: W, args: JsonView) -> bool {
    match required_text_spec(args, "path"@) {
        Ok(path) => match required_text_spec(args, "content"@) {
            Ok(content) => forall|p: &str, c: &str|
                p@ == path && c@ == content ==> #[trigger] call_requires(write, (p, c)),
            Err(_) => true,
        },
        Err(_) => true,
    }
}

/// Runs a call that writes a file.
pub fn write_file<W: Fn(&str, &str) -> bool>(args: &Json, write: &W) -> (r: Result<
    ToolResult,
    String,
>)
    requires
        can_write(*write, args@),
    ensures
        writes(*write, args@, r),
{
    match required_text(args, "path") {
        Ok(path) => match required_text(args, "content") {
            Ok(content) => {
                let done = write(path, content);
                assert(call_ensures(*write, (path, content), done));
                answer_write(path, done)
            },
            Err(e) => Err(e),
        },
        Err(e) => Err(e),
    }
}

/// Whether `r` is what listing a directory is answered: the names in ascending order, one
/// per line.
pub open spec fn is_listing(
    path: Seq<char>,
    names: Option<Seq<Seq<char>>>,
    r: Result<ToolResultView, Seq<char>>,
) -> bool {
    match names {
        Some(names) => exists|sorted: Seq<Seq<char>>| #[trigger]
            in_order(sorted) && sorted.to_multiset() == names.to_multiset() && r == success(
                joined(sorted, "\n"@),
            ),
        None => r == Err::<ToolResultView, Seq<char>>("list "@ + path),
    }
}

/// What listing a directory is answered, where `names` are those found in it.
pub fn answer_list(path: &str, names: Option<Vec<String>>) -> (r: Result<ToolResult, String>)
    ensures
        is_listing(
            path@,
            match names {
                Some(names) => Some(texts(names@)),
                None => None,
            },
            run_view(r),
        ),
{
    match names {
        Some(names) => {
            let sorted = sort(names);
            Ok(ToolResult { output: join(&sorted, "\n"), is_error: false })
        },
        None => Err("list ".to_owned().concat(path)),
    }
}

/// Whether `r` may be the answer to a call that lists a directory: the path is among the
/// arguments, and the answer is that to what `list` found there.
pub open spec fn lists<L: Fn(&str) -> Option<Vec<String>>>(
    list: L,
    args: JsonView,
    r: Result<ToolResult, String>,
) -> bool {
    match required_text_spec(args, "path"@) {
        Ok(path) => exists|p: &str, found: Option<Vec<String>>|
            #![trigger call_ensures(list, (p,), found)]
            p@ == path && call_ensures(list, (p,), found) && is_listing(
                path,
                match found {
                    Some(names) => Some(texts(names@)),
                    None => None,
                },
                run_view(r),
            ),
        Err(e) => run_view(r) == Err::<ToolResultView, Seq<char>>(e),
    }
}

/// Runs a call that lists a directory.
pub fn list_files<L: Fn(&str) -> Option<Vec<String>>>(args: &Json, list: &L) -> (r: Result<
    ToolResult,
    String,
>)
    requires
        takes_argument(*list, args@, "path"@),
    ensures
        lists(*list, args@, r),
{
    match required_text(args, "path") {
        Ok(path) => {
            let found = list(path);
            let ghost came = found;
            assert(call_ensures(*list, (path,), came));
            answer_list(path, found)
        },
        Err(e) => Err(e),
    }
}

/// The executor of the tool that reads a file.
pub fn read_executor<R: Fn(&str) -> Option<String>>(read: R) -> (executor: impl Fn(&Json) -> Execution)
    ensures
        gives_only(
            executor,
            |args: JsonView| takes_argument(read, args, "path"@),
            |args: JsonView, r: Result<ToolResult, String>| reads(read, args, r),
        ),
{
    move |args: &Json| -> (came: Execution)
        requires
            takes_argument(read, args@, "path"@),
        ensures
            came is Some,
            reads(read, args@, came->0),
        { Some(read_file(args, &read)) }
}

/// The tool that reads a file.
pub fn read_tool<R: Fn(&str) -> Option<String>>(read: R) -> (tool: Tool<impl Fn(&Json) -> Execution>)
    ensures
        tool@ == read_description(),
        gives_only(
            tool.executor,
            |args: JsonView| takes_argument(read, args, "path"@),
            |args: JsonView, r: Result<ToolResult, String>| reads(read, args, r),
        ),
{
    read_tool_with(read_executor(read))
}

/// The executor of the tool that writes a file.
pub fn write_executor<W: Fn(&str, &str) -> bool>(write: W) -> (executor: impl Fn(&Json) -> Execution)
    ensures
        gives_only(
            executor,
            |args: JsonView| can_write(write, args),
            |args: JsonView, r: Result<ToolResult, String>| writes(write, args, r),
        ),
{
    move |args: &Json| -> (came: Execution)
        requires
            can_write(write, args@),
        ensures
            came is Some,
            writes(write, args@, came->0),
        { Some(write_file(args, &write)) }
}

/// The tool that writes a file.
pub fn write_tool<W: Fn(&str, &str) -> bool>(write: W) -> (tool: Tool<impl Fn(&Json) -> Execution>)
    ensures
        tool@ == write_description(),
        gives_only(
            tool.executor,
            |args: JsonView| can_write(write, args),
            |args: JsonView, r: Result<ToolResult, String>| writes(write, args, r),
        ),
{
    write_tool_with(write_executor(write))
}

/// The executor of the tool that lists a directory.
pub fn list_executor<L: Fn(&str) -> Option<Vec<String>>>(list: L) -> (executor: impl Fn(&Json) -> Execution)
    ensures
        gives_only(
            executor,
            |args: JsonView| takes_argument(list, args, "path"@),
            |args: JsonView, r: Result<ToolResult, String>| lists(list, args, r),
        ),
{
    move |args: &Json| -> (came: Execution)
        requires
            takes_argument(list, args@, "path"@),
        ensures
            came is Some,
            lists(list, args@, came->0),
        { Some(list_files(args, &list)) }
}

/// The tool that lists a directory.
pub fn list_tool<L: Fn(&str) -> Option<Vec<String>>>(list: L) -> (tool: Tool<impl Fn(&Json) -> Execution>)
    ensures
        tool@ == list_description(),
        gives_only(
            tool.executor,
            |args: JsonView| takes_argument(list, args, "path"@),
            |args: JsonView, r: Result<ToolResult, String>| lists(list, args, r),
        ),
{
    list_tool_with(list_executor(list))
}

/// What was written is read back: where a call that writes a file had an answer, and what is
/// found at the path since is what was to be written, the write is confirmed, and a call
/// that reads the file is answered with the text.
pub proof fn what_was_written_is_read_back<
    W: Fn(&str, &str) -> bool,
    R: Fn(&str) -> Option<String>,
>(
    write: W,
    read: R,
    path: Seq<char>,
    content: Seq<char>,
    put: JsonView,
    ask: JsonView,
    wrote: Result<ToolResult, String>,
    got: Result<ToolResult, String>,
)
    requires
        put.text_field("path"@) == Some(path),
        put.text_field("content"@) == Some(content),
        ask.text_field("path"@) == Some(path),
        writes(write, put, wrote),
        wrote is Ok,
        forall|p: &str, found: Option<String>| #[trigger]
            call_ensures(read, (p,), found) && p@ == path ==> found is Some && (found->0)@
                == content,
        reads(read, ask, got),
    ensures
        run_view(wrote) == success("wrote "@ + path),
        run_view(got) == success(content),
{
}

} // verus!
