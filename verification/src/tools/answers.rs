//! What calls of the built-in tools do with their arguments, and what they are answered.
use vstd::prelude::*;
use vstd::utf8::{decode_utf8, valid_utf8};
use crate::calc::{Class, Op};
use crate::chat::{text_view, Outgoing};
use crate::json::laws::{keys_differ, laid_out, lemma_laid_out, texts_and_integers_are_found_by_key};
use crate::json::{Json, JsonView, NumberView};
use crate::text::{dictionary_order_is_total, in_order, joined, precedes, signed_decimal, texts};
use crate::tools::bash_tools::{
    answer_run, answer_spawn, run_command, runs, spawn_result, timeout_secs, timeout_spec, Ran,
};
use crate::tools::calc_tools::{
    answer_calc, calc_result, calculate, calculates, debug_text, may_be_value, shows, Calculator,
    Shown,
};
use crate::tools::file_tools::{
    answer_list, answer_read, answer_write, is_listing, list_files, lists, read_file, reads,
    write_file, writes, Files,
};
use crate::tools::web_tools::{
    answer_fetch, answer_search, fetch, fetch_result, fetches, search, search_outgoing,
    search_request, search_result, search_with, searched, searches, Fetched, Web,
};
use crate::tools::{required_text, run_builtin, run_view, success, Builtin, ToolResult};
use crate::wire::fields::has_only;

verus! {

// ---------------------------------------------------------------------------
// Arguments
// ---------------------------------------------------------------------------

/// A required argument is the text that stands under its key; where none does, the error
/// names the key.
pub proof fn required_arguments_are_texts(args: Json, key: &str, r: Result<&str, String>)
    requires
        call_ensures(required_text, (&args, key), r),
    ensures
        match args@.field(key@) {
            Some(JsonView::Text(text)) => r is Ok && (r->Ok_0)@ == text,
            _ => r is Err && (r->Err_0)@ == "missing `"@ + key@ + "`"@,
        },
{
    texts_and_integers_are_found_by_key(args@, key@);
}

// ---------------------------------------------------------------------------
// Commands
// ---------------------------------------------------------------------------

/// Whatever the exit status, the answer to a command ends with all that it wrote: what it
/// wrote to its output, and behind a marker what it wrote to its error stream. It is an error
/// just where the status is none of success.
pub proof fn all_that_was_written_is_told(
    stdout: &str,
    stderr: &str,
    ok: bool,
    code: Option<i32>,
    r: Result<ToolResult, String>,
)
    requires
        call_ensures(answer_run, (stdout, stderr, ok, code), r),
    ensures
        r is Ok,
        (r->Ok_0).is_error == !ok,
        stderr@.len() > 0 ==> (stdout@ + "\n[stderr]\n"@ + stderr@).is_suffix_of(
            (r->Ok_0).output@,
        ),
        stderr@.len() == 0 && stdout@.len() > 0 ==> stdout@.is_suffix_of((r->Ok_0).output@),
        stderr@.len() == 0 && stdout@.len() == 0 ==> "(no output)"@.is_suffix_of(
            (r->Ok_0).output@,
        ),
        ok && stderr@.len() > 0 ==> (r->Ok_0).output@.len() == stdout@.len()
            + "\n[stderr]\n"@.len() + stderr@.len(),
        ok && stderr@.len() == 0 && stdout@.len() > 0 ==> (r->Ok_0).output@.len() == stdout@.len(),
        ok && stderr@.len() == 0 && stdout@.len() == 0 ==> (r->Ok_0).output@.len()
            == "(no output)"@.len(),
        !ok ==> "exit "@.is_prefix_of((r->Ok_0).output@),
{
    let output = (r->Ok_0).output@;
    if !ok {
        assert("exit "@ =~= output.subrange(0, "exit "@.len() as int));
    }
    let full = if stderr@.len() > 0 {
        stdout@ + "\n[stderr]\n"@ + stderr@
    } else if stdout@.len() > 0 {
        stdout@
    } else {
        "(no output)"@
    };
    assert(full =~= output.subrange(output.len() - full.len(), output.len() as int));
}

/// The answers to a command that succeeds and to one that fails and writes the same differ
/// only in what the latter has in front: the exit code.
pub proof fn failures_only_add_the_code(
    stdout: &str,
    stderr: &str,
    code: Option<i32>,
    other: Option<i32>,
    fine: Result<ToolResult, String>,
    failed: Result<ToolResult, String>,
)
    requires
        call_ensures(answer_run, (stdout, stderr, true, other), fine),
        call_ensures(answer_run, (stdout, stderr, false, code), failed),
    ensures
        fine is Ok && failed is Ok,
        !(fine->Ok_0).is_error && (failed->Ok_0).is_error,
        (failed->Ok_0).output@ == "exit "@ + (match code {
            Some(n) => "Some("@ + signed_decimal(n as int) + ")"@,
            None => "None"@,
        }) + ": "@ + (fine->Ok_0).output@,
{
}

/// What a command wrote is told as text, and a command that could not be started is an error
/// that says why.
pub proof fn commands_are_answered(came: Result<Ran, String>, r: Result<ToolResult, String>)
    requires
        call_ensures(answer_spawn, (&came,), r),
    ensures
        r is Ok,
        match came {
            Ok(ran) => {
                let output = (r->Ok_0).output@;
                let out = decode_utf8(ran.stdout@);
                let err = decode_utf8(ran.stderr@);
                &&& (r->Ok_0).is_error == !ran.success
                &&& valid_utf8(ran.stdout@) && valid_utf8(ran.stderr@) ==> {
                    &&& err.len() > 0 ==> (out + "\n[stderr]\n"@ + err).is_suffix_of(output)
                    &&& err.len() == 0 && out.len() > 0 ==> out.is_suffix_of(output)
                    &&& err.len() == 0 && out.len() == 0 ==> "(no output)"@.is_suffix_of(output)
                    &&& ran.success && err.len() > 0 ==> output == out + "\n[stderr]\n"@ + err
                    &&& ran.success && err.len() == 0 && out.len() > 0 ==> output == out
                    &&& ran.success && err.len() == 0 && out.len() == 0 ==> output
                        == "(no output)"@
                }
                &&& !ran.success ==> ("exit "@ + (match ran.code {
                    Some(n) => "Some("@ + signed_decimal(n as int) + ")"@,
                    None => "None"@,
                }) + ": "@).is_prefix_of(output)
            },
            Err(e) => (r->Ok_0).is_error && (r->Ok_0).output@ == "could not spawn bash: "@ + e@,
        },
{
    if let Ok(ran) = came {
        let output = (r->Ok_0).output@;
        if !ran.success {
            let front = "exit "@ + (match ran.code {
                Some(n) => "Some("@ + signed_decimal(n as int) + ")"@,
                None => "None"@,
            }) + ": "@;
            assert(front =~= output.subrange(0, front.len() as int));
        }
        if valid_utf8(ran.stdout@) && valid_utf8(ran.stderr@) {
            let out = decode_utf8(ran.stdout@);
            let err = decode_utf8(ran.stderr@);
            let full = if err.len() > 0 {
                out + "\n[stderr]\n"@ + err
            } else if out.len() > 0 {
                out
            } else {
                "(no output)"@
            };
            assert(full =~= output.subrange(output.len() - full.len(), output.len() as int));
        }
    }
}

/// A command may take as many seconds as the arguments say, whatever integer that is, and
/// thirty where they say nothing.
pub proof fn timeouts_are_as_asked_for(args: Json, n: i64)
    requires
        call_ensures(timeout_secs, (&args,), n),
    ensures
        match args@.field("timeout_secs"@) {
            Some(JsonView::Number(NumberView::Int(m))) => n == m,
            _ => n == 30,
        },
{
    texts_and_integers_are_found_by_key(args@, "timeout_secs"@);
}

/// The command among the arguments is what is run, with its timeout, and what came of it is
/// answered. Without a command nothing is run.
pub proof fn the_command_is_run<B: Fn(&str, i64) -> Result<Ran, String>>(
    args: Json,
    shell: B,
    r: Result<ToolResult, String>,
)
    requires
        call_ensures(run_command::<B>, (&args, &shell), r),
    ensures
        match args@.field("command"@) {
            Some(JsonView::Text(command)) => exists|
                c: &str,
                secs: i64,
                came: Result<Ran, String>,
            |
                {
                    &&& c@ == command
                    &&& match args@.field("timeout_secs"@) {
                        Some(JsonView::Number(NumberView::Int(m))) => secs == m,
                        _ => secs == 30,
                    }
                    &&& #[trigger] call_ensures(shell, (c, secs), came)
                    &&& r is Ok
                    &&& match came {
                        Ok(ran) => (r->Ok_0).is_error == !ran.success,
                        Err(e) => (r->Ok_0).is_error && (r->Ok_0).output@
                            == "could not spawn bash: "@ + e@,
                    }
                    &&& run_view(r) == spawn_result(came)
                },
            _ => r is Err && (r->Err_0)@ == "missing `"@ + "command"@ + "`"@,
        },
{
    texts_and_integers_are_found_by_key(args@, "command"@);
    texts_and_integers_are_found_by_key(args@, "timeout_secs"@);
    assert(runs(shell, args@, r));
    if let Some(JsonView::Text(command)) = args@.field("command"@) {
        let (c, came) = choose|c: &str, came: Result<Ran, String>|
            #![trigger call_ensures(shell, (c, timeout_spec(args@)), came)]
            c@ == command && call_ensures(shell, (c, timeout_spec(args@)), came)
                && run_view(r) == spawn_result(came);
        assert(call_ensures(shell, (c, timeout_spec(args@)), came));
    }
}

// ---------------------------------------------------------------------------
// The web
// ---------------------------------------------------------------------------

/// What is posted for a search holds just the query, the number of results that is asked for,
/// whatever it is, and how deep to search; it goes to the search service, under the key.
pub proof fn searches_ask_for_what_is_wanted(key: &str, query: &str, max: i64, sent: Outgoing)
    requires
        call_ensures(search_request, (key, query, max), sent),
    ensures
        sent.url@ == "https://api.tavily.com/search"@,
        sent.authorization is Some && (sent.authorization->0)@ == "Bearer "@ + key@,
        sent.body@.field("max_results"@) == Some(JsonView::Number(NumberView::Int(max))),
        sent.body@.field("query"@) == Some(JsonView::Text(query@)),
        sent.body@.field("search_depth"@) == Some(JsonView::Text("basic"@)),
        has_only(sent.body@, seq!["max_results"@, "query"@, "search_depth"@]),
{
    lemma_search_body(key@, query@, max);
}

/// What the body of a search holds.
proof fn lemma_search_body(key: Seq<char>, query: Seq<char>, max: i64)
    ensures
        ({
            let body = search_outgoing(key, query, max).body;
            &&& body.field("max_results"@) == Some(JsonView::Number(NumberView::Int(max)))
            &&& body.field("query"@) == Some(JsonView::Text(query))
            &&& body.field("search_depth"@) == Some(JsonView::Text("basic"@))
            &&& has_only(body, seq!["max_results"@, "query"@, "search_depth"@])
        }),
{
    let body = search_outgoing(key, query, max).body;
    let keys = seq!["max_results"@, "query"@, "search_depth"@];
    reveal_strlit("max_results");
    reveal_strlit("query");
    reveal_strlit("search_depth");
    assert("max_results"@.len() != "query"@.len() && "query"@.len() != "search_depth"@.len()
        && "max_results"@.len() != "search_depth"@.len());
    let parts: Seq<(Seq<char>, Option<JsonView>)> = seq![
        ("max_results"@, Some(JsonView::Number(NumberView::Int(max)))),
        ("query"@, Some(JsonView::Text(query))),
        ("search_depth"@, Some(JsonView::Text("basic"@))),
    ];
    assert(keys_differ(parts));
    reveal_with_fuel(laid_out, 4);
    assert(laid_out(parts) =~= body->Object_0);
    lemma_laid_out(parts, parts[0].0);
    lemma_laid_out(parts, parts[1].0);
    lemma_laid_out(parts, parts[2].0);
    assert forall|k: Seq<char>| !keys.contains(k) implies (#[trigger] body.field(k)) is None by {
        assert forall|i: int| 0 <= i < parts.len() implies (#[trigger] parts[i]).0 != k by {
            assert(keys[i] == parts[i].0);
        }
        lemma_laid_out(parts, k);
    }
}

/// A search for the query among the arguments asks for as many results as they say under
/// `max_results`, whatever integer that is, and for five where they say nothing. It is
/// answered with the body of what came back, whatever its status. Without a key nothing is
/// posted, and the answer says so; without a query nothing is done.
pub proof fn searches_are_as_asked_for<
    G,
    K: Fn() -> Option<String>,
    P: Fn(&Outgoing) -> Option<Fetched>,
>(args: Json, web: Web<G, K, P>, r: Result<ToolResult, String>)
    requires
        call_ensures(search::<G, K, P>, (&args, &web), r),
    ensures
        match args@.field("query"@) {
            Some(JsonView::Text(query)) => exists|key: Option<String>| #[trigger]
                call_ensures(web.key, (), key) && (if key is Some && (key->0)@.len() > 0 {
                    exists|sent: Outgoing, came: Option<Fetched>| #[trigger]
                        call_ensures(web.post, (&sent,), came) && {
                            &&& sent.url@ == "https://api.tavily.com/search"@
                            &&& sent.authorization is Some && (sent.authorization->0)@
                                == "Bearer "@ + (key->0)@
                            &&& sent.body@.field("query"@) == Some(JsonView::Text(query))
                            &&& sent.body@.field("max_results"@) == Some(
                                match args@.field("max_results"@) {
                                    Some(JsonView::Number(NumberView::Int(n))) => JsonView::Number(
                                        NumberView::Int(n),
                                    ),
                                    _ => JsonView::Number(NumberView::Int(5)),
                                },
                            )
                            &&& sent.body@.field("search_depth"@) == Some(
                                JsonView::Text("basic"@),
                            )
                            &&& has_only(
                                sent.body@,
                                seq!["max_results"@, "query"@, "search_depth"@],
                            )
                            &&& match came {
                                Some(fetched) => {
                                    &&& r is Ok && !(r->Ok_0).is_error
                                    &&& match fetched.body {
                                        Some(body) => (r->Ok_0).output@ == body@,
                                        None => (r->Ok_0).output@.len() == 0,
                                    }
                                },
                                None => r is Err && (r->Err_0)@ == "tavily request"@,
                            }
                        }
                } else {
                    r is Ok && !(r->Ok_0).is_error && (r->Ok_0).output@
                        == "web_search has no backend configured: TAVILY_API_KEY is not set. Suggest the agent use web_fetch instead to retrieve a specific URL."@
                }),
            _ => r is Err && (r->Err_0)@ == "missing `"@ + "query"@ + "`"@,
        },
{
    texts_and_integers_are_found_by_key(args@, "query"@);
    texts_and_integers_are_found_by_key(args@, "max_results"@);
    assert(searches(web, args@, r));
    if let Some(JsonView::Text(query)) = args@.field("query"@) {
        let max = match args@.field("max_results"@) {
            Some(JsonView::Number(NumberView::Int(n))) => n,
            _ => 5i64,
        };
        let key = choose|key: Option<String>| #[trigger]
            call_ensures(web.key, (), key) && searched(
                web.post,
                text_view(key),
                query,
                max,
                r,
            );
        assert(call_ensures(web.key, (), key));
        if key is Some && (key->0)@.len() > 0 {
            let k = (key->0)@;
            let (sent, came) = choose|sent: Outgoing, came: Option<Fetched>|
                #![trigger call_ensures(web.post, (&sent,), came)]
                sent@ == search_outgoing(k, query, max) && call_ensures(
                    web.post,
                    (&sent,),
                    came,
                ) && run_view(r) == search_result(came);
            lemma_search_body(k, query, max);
            assert(call_ensures(web.post, (&sent,), came));
            assert(sent@.body == sent.body@);
        }
    }
}

/// A search under a key that was found asks for just as many results as it is told to. Where
/// there is no key, or an empty one, nothing is posted, and the answer says so.
pub proof fn searches_need_a_key<P: Fn(&Outgoing) -> Option<Fetched>>(
    key: Option<String>,
    query: &str,
    max: i64,
    post: P,
    r: Result<ToolResult, String>,
)
    requires
        call_ensures(search_with::<P>, (&key, query, max, &post), r),
    ensures
        key is Some && (key->0)@.len() > 0 ==> exists|sent: Outgoing, came: Option<Fetched>|
            #[trigger]
            call_ensures(post, (&sent,), came) && {
                &&& sent.url@ == "https://api.tavily.com/search"@
                &&& sent.authorization is Some && (sent.authorization->0)@ == "Bearer "@ + (
                key->0)@
                &&& sent.body@.field("query"@) == Some(JsonView::Text(query@))
                &&& sent.body@.field("max_results"@) == Some(
                    JsonView::Number(NumberView::Int(max)),
                )
                &&& match came {
                    Some(fetched) => {
                        &&& r is Ok && !(r->Ok_0).is_error
                        &&& match fetched.body {
                            Some(body) => (r->Ok_0).output@ == body@,
                            None => (r->Ok_0).output@.len() == 0,
                        }
                    },
                    None => r is Err && (r->Err_0)@ == "tavily request"@,
                }
            },
        key is None || (key->0)@.len() == 0 ==> r is Ok && !(r->Ok_0).is_error && (
        r->Ok_0).output@
            == "web_search has no backend configured: TAVILY_API_KEY is not set. Suggest the agent use web_fetch instead to retrieve a specific URL."@,
{
    assert(searched(post, text_view(key), query@, max, r));
    if key is Some && (key->0)@.len() > 0 {
        let k = (key->0)@;
        let (sent, came) = choose|sent: Outgoing, came: Option<Fetched>|
            #![trigger call_ensures(post, (&sent,), came)]
            sent@ == search_outgoing(k, query@, max) && call_ensures(post, (&sent,), came)
                && run_view(r) == search_result(came);
        lemma_search_body(k, query@, max);
        assert(call_ensures(post, (&sent,), came));
        assert(sent@.body == sent.body@);
    }
}

/// Two searches that differ in nothing but `max_results` post what differs in nothing else.
pub proof fn searches_differ_in_what_is_asked_for(
    key: &str,
    query: &str,
    m: i64,
    n: i64,
    a: Outgoing,
    b: Outgoing,
)
    requires
        call_ensures(search_request, (key, query, m), a),
        call_ensures(search_request, (key, query, n), b),
    ensures
        a.url@ == b.url@,
        a.authorization is Some && b.authorization is Some && (a.authorization->0)@
            == (b.authorization->0)@,
        a.body@.field("query"@) == b.body@.field("query"@),
        a.body@.field("max_results"@) == b.body@.field("max_results"@) <==> m == n,
{
    searches_ask_for_what_is_wanted(key, query, m, a);
    searches_ask_for_what_is_wanted(key, query, n, b);
}

/// A page is got from the URL among the arguments. A status of success is answered with the
/// body; any other is an error that gives the status and the body. Where nothing came back,
/// the error names the URL.
pub proof fn pages_are_fetched<G: Fn(&str) -> Option<Fetched>>(
    args: Json,
    get: G,
    r: Result<ToolResult, String>,
)
    requires
        call_ensures(fetch::<G>, (&args, &get), r),
    ensures
        match args@.field("url"@) {
            Some(JsonView::Text(url)) => exists|u: &str, came: Option<Fetched>| #[trigger]
                call_ensures(get, (u,), came) && u@ == url && (match came {
                    Some(fetched) => {
                        let body = match fetched.body {
                            Some(text) => text@,
                            None => Seq::empty(),
                        };
                        &&& r is Ok
                        &&& (r->Ok_0).is_error == !fetched.success
                        &&& fetched.success ==> (r->Ok_0).output@ == body
                        &&& !fetched.success ==> (r->Ok_0).output@ == "HTTP "@ + fetched.status@
                            + ": "@ + body
                    },
                    None => r is Err && (r->Err_0)@ == "GET "@ + url,
                }),
            _ => r is Err && (r->Err_0)@ == "missing `"@ + "url"@ + "`"@,
        },
{
    texts_and_integers_are_found_by_key(args@, "url"@);
    assert(fetches(get, args@, r));
    if let Some(JsonView::Text(url)) = args@.field("url"@) {
        let (u, came) = choose|u: &str, came: Option<Fetched>|
            #![trigger call_ensures(get, (u,), came)]
            u@ == url && call_ensures(get, (u,), came) && run_view(r)
                == fetch_result(url, came);
        assert(call_ensures(get, (u,), came));
    }
}

/// What came back for a page or for a search is answered in the same way by itself.
pub proof fn what_came_back_is_answered(
    url: &str,
    came: Option<Fetched>,
    page: Result<ToolResult, String>,
    found: Result<ToolResult, String>,
)
    requires
        call_ensures(answer_fetch, (url, came), page),
        call_ensures(answer_search, (came,), found),
    ensures
        match came {
            Some(fetched) => {
                let body = match fetched.body {
                    Some(text) => text@,
                    None => Seq::empty(),
                };
                &&& page is Ok && found is Ok
                &&& (page->Ok_0).is_error == !fetched.success
                &&& !(found->Ok_0).is_error
                &&& (found->Ok_0).output@ == body
                &&& body.is_suffix_of((page->Ok_0).output@)
                &&& fetched.success ==> (page->Ok_0).output@ == body
                &&& !fetched.success ==> (page->Ok_0).output@ == "HTTP "@ + fetched.status@ + ": "@
                    + body
            },
            None => {
                &&& page is Err && (page->Err_0)@ == "GET "@ + url@
                &&& found is Err && (found->Err_0)@ == "tavily request"@
            },
        },
{
    if let Some(fetched) = came {
        let body = match fetched.body {
            Some(text) => text@,
            None => Seq::empty(),
        };
        let output = (page->Ok_0).output@;
        assert(body =~= output.subrange(output.len() - body.len(), output.len() as int));
    }
}

// ---------------------------------------------------------------------------
// Files
// ---------------------------------------------------------------------------

/// A file is read at the path among the arguments, and answered with what is found there as
/// it is. Where nothing is, the error names the path.
pub proof fn files_are_read<R: Fn(&str) -> Option<String>>(
    args: Json,
    read: R,
    r: Result<ToolResult, String>,
)
    requires
        call_ensures(read_file::<R>, (&args, &read), r),
    ensures
        match args@.field("path"@) {
            Some(JsonView::Text(path)) => exists|p: &str, found: Option<String>| #[trigger]
                call_ensures(read, (p,), found) && p@ == path && (match found {
                    Some(contents) => r is Ok && !(r->Ok_0).is_error && (r->Ok_0).output@
                        == contents@,
                    None => r is Err && (r->Err_0)@ == "read "@ + path,
                }),
            _ => r is Err && (r->Err_0)@ == "missing `"@ + "path"@ + "`"@,
        },
{
    texts_and_integers_are_found_by_key(args@, "path"@);
    assert(reads(read, args@, r));
}

/// A text is written to the path among the arguments, just as it stands under `content`. The
/// answer names the path, and so does the error where it could not be written. The path is
/// asked for first.
pub proof fn files_are_written<W: Fn(&str, &str) -> bool>(
    args: Json,
    write: W,
    r: Result<ToolResult, String>,
)
    requires
        call_ensures(write_file::<W>, (&args, &write), r),
    ensures
        match (args@.field("path"@), args@.field("content"@)) {
            (Some(JsonView::Text(path)), Some(JsonView::Text(content))) => exists|
                p: &str,
                c: &str,
                done: bool,
            | #[trigger]
                call_ensures(write, (p, c), done) && p@ == path && c@ == content && (if done {
                    r is Ok && !(r->Ok_0).is_error && (r->Ok_0).output@ == "wrote "@ + path
                } else {
                    r is Err && (r->Err_0)@ == "write "@ + path
                }),
            (Some(JsonView::Text(path)), _) => r is Err && (r->Err_0)@ == "missing `"@ + "content"@
                + "`"@,
            _ => r is Err && (r->Err_0)@ == "missing `"@ + "path"@ + "`"@,
        },
{
    texts_and_integers_are_found_by_key(args@, "path"@);
    texts_and_integers_are_found_by_key(args@, "content"@);
    assert(writes(write, args@, r));
}

/// Whether a text lists names: each of them as often as it is there, in ascending order, one
/// per line.
pub open spec fn lists_names(text: Seq<char>, names: Seq<Seq<char>>) -> bool {
    exists|sorted: Seq<Seq<char>>|
        {
            &&& #[trigger] sorted.to_multiset() == names.to_multiset()
            &&& forall|i: int, k: int|
                0 <= i < k < sorted.len() ==> (#[trigger] sorted[i]) == (#[trigger] sorted[k])
                    || precedes(sorted[i], sorted[k])
            &&& text == joined(sorted, "\n"@)
        }
}

/// A listing lists the names.
proof fn lemma_listing(path: Seq<char>, names: Seq<Seq<char>>, r: Result<ToolResult, String>)
    requires
        is_listing(path, Some(names), run_view(r)),
    ensures
        r is Ok,
        !(r->Ok_0).is_error,
        lists_names((r->Ok_0).output@, names),
{
    let sorted = choose|sorted: Seq<Seq<char>>| #[trigger]
        in_order(sorted) && sorted.to_multiset() == names.to_multiset() && run_view(r)
            == success(joined(sorted, "\n"@));
    assert forall|i: int, k: int| 0 <= i < k < sorted.len() implies (#[trigger] sorted[i])
        == (#[trigger] sorted[k]) || precedes(sorted[i], sorted[k]) by {
        dictionary_order_is_total(sorted[i], sorted[k]);
    }
}

/// A directory is listed at the path among the arguments: every name that is found there, in
/// ascending order, one per line. Where it cannot be, the error names the path.
pub proof fn directories_are_listed<L: Fn(&str) -> Option<Vec<String>>>(
    args: Json,
    list: L,
    r: Result<ToolResult, String>,
)
    requires
        call_ensures(list_files::<L>, (&args, &list), r),
    ensures
        match args@.field("path"@) {
            Some(JsonView::Text(path)) => exists|p: &str, found: Option<Vec<String>>| #[trigger]
                call_ensures(list, (p,), found) && p@ == path && (match found {
                    Some(names) => r is Ok && !(r->Ok_0).is_error && lists_names(
                        (r->Ok_0).output@,
                        texts(names@),
                    ),
                    None => r is Err && (r->Err_0)@ == "list "@ + path,
                }),
            _ => r is Err && (r->Err_0)@ == "missing `"@ + "path"@ + "`"@,
        },
{
    texts_and_integers_are_found_by_key(args@, "path"@);
    assert(lists(list, args@, r));
    if let Some(JsonView::Text(path)) = args@.field("path"@) {
        let (p, found) = choose|p: &str, found: Option<Vec<String>>|
            #![trigger call_ensures(list, (p,), found)]
            p@ == path && call_ensures(list, (p,), found) && is_listing(
                path,
                match found {
                    Some(names) => Some(texts(names@)),
                    None => None,
                },
                run_view(r),
            );
        assert(call_ensures(list, (p,), found));
        if let Some(names) = found {
            lemma_listing(path, texts(names@), r);
        }
    }
}

/// What was found in files and directories is answered in the same way by itself.
pub proof fn what_was_found_is_answered(
    path: &str,
    contents: Option<String>,
    done: bool,
    names: Option<Vec<String>>,
    read: Result<ToolResult, String>,
    written: Result<ToolResult, String>,
    listed: Result<ToolResult, String>,
)
    requires
        call_ensures(answer_read, (path, contents), read),
        call_ensures(answer_write, (path, done), written),
        call_ensures(answer_list, (path, names), listed),
    ensures
        match contents {
            Some(text) => read is Ok && !(read->Ok_0).is_error && (read->Ok_0).output@ == text@,
            None => read is Err && (read->Err_0)@ == "read "@ + path@,
        },
        if done {
            written is Ok && !(written->Ok_0).is_error && (written->Ok_0).output@ == "wrote "@
                + path@
        } else {
            written is Err && (written->Err_0)@ == "write "@ + path@
        },
        match names {
            Some(names) => listed is Ok && !(listed->Ok_0).is_error && lists_names(
                (listed->Ok_0).output@,
                texts(names@),
            ),
            None => listed is Err && (listed->Err_0)@ == "list "@ + path@,
        },
{
    if let Some(names) = names {
        lemma_listing(path@, texts(names@), listed);
    }
}

// ---------------------------------------------------------------------------
// Calculations
// ---------------------------------------------------------------------------

/// A calculation is answered with the digits of a whole value, or with any other as it is
/// shown; where there is no value, the error quotes the expression and says why.
pub proof fn calculations_are_answered(
    quoted: &str,
    value: Result<Shown, String>,
    r: Result<ToolResult, String>,
)
    requires
        call_ensures(answer_calc, (quoted, value), r),
    ensures
        match value {
            Ok(Shown::Whole(n)) => r is Ok && !(r->Ok_0).is_error && (r->Ok_0).output@
                == signed_decimal(n as int),
            Ok(Shown::Other(text)) => r is Ok && !(r->Ok_0).is_error && (r->Ok_0).output@ == text@,
            Err(e) => r is Err && (r->Err_0)@ == "failed to evaluate "@ + quoted@ + ": "@ + e@,
        },
{
}

/// The expression among the arguments is what is evaluated. Its value is printed in digits
/// where it is to be printed as an integer, and else as it is shown.
pub proof fn expressions_are_calculated<
    N,
    C: Fn(&N) -> Class,
    T: Fn(&N) -> String,
    A: Fn(&Op, &Vec<N>) -> Result<N, String>,
    I: Fn(&N) -> Option<i64>,
>(args: Json, calculator: Calculator<C, T, A, I>, r: Result<ToolResult, String>)
    requires
        call_ensures(calculate::<N, C, T, A, I>, (&args, &calculator), r),
    ensures
        match args@.field("expression"@) {
            Some(JsonView::Text(expression)) => exists|value: Result<N, String>| #[trigger]
                may_be_value::<N, C, T, A, I>(calculator, expression, value) && (match value {
                    Ok(n) => {
                        ||| exists|i: i64| #[trigger]
                            call_ensures(calculator.whole, (&n,), Some(i)) && r is Ok
                                && !(r->Ok_0).is_error && (r->Ok_0).output@ == signed_decimal(
                                i as int,
                            )
                        ||| call_ensures(calculator.whole, (&n,), None) && exists|text: String|
                            #[trigger]
                            call_ensures(calculator.show, (&n,), text) && r is Ok
                                && !(r->Ok_0).is_error && (r->Ok_0).output@ == text@
                    },
                    Err(e) => r is Err && (r->Err_0)@ == "failed to evaluate "@ + debug_text(
                        expression,
                    ) + ": "@ + e@,
                }),
            _ => r is Err && (r->Err_0)@ == "missing `"@ + "expression"@ + "`"@,
        },
{
    texts_and_integers_are_found_by_key(args@, "expression"@);
    assert(calculates::<N, C, T, A, I>(calculator, args@, r));
    if let Some(JsonView::Text(expression)) = args@.field("expression"@) {
        let (value, shown) = choose|value: Result<N, String>, shown: Result<Shown, String>|
            #![trigger may_be_value(calculator, expression, value),
                shows(calculator.show, calculator.whole, value, shown)]
            may_be_value(calculator, expression, value) && shows(
                calculator.show,
                calculator.whole,
                value,
                shown,
            ) && run_view(r) == calc_result(
                debug_text(expression),
                shown,
            );
        assert(may_be_value::<N, C, T, A, I>(calculator, expression, value));
    }
}

// ---------------------------------------------------------------------------
// Which tool is run
// ---------------------------------------------------------------------------

/// A call of a built-in tool does what that tool does, by what is handed in for it.
pub proof fn builtins_do_what_they_are_for<
    R: Fn(&str) -> Option<String>,
    W: Fn(&str, &str) -> bool,
    L: Fn(&str) -> Option<Vec<String>>,
    B: Fn(&str, i64) -> Result<Ran, String>,
    G: Fn(&str) -> Option<Fetched>,
    K: Fn() -> Option<String>,
    P: Fn(&Outgoing) -> Option<Fetched>,
    N,
    C: Fn(&N) -> Class,
    T: Fn(&N) -> String,
    A: Fn(&Op, &Vec<N>) -> Result<N, String>,
    I: Fn(&N) -> Option<i64>,
>(
    which: Builtin,
    args: Json,
    files: Files<R, W, L>,
    shell: B,
    web: Web<G, K, P>,
    calculator: Calculator<C, T, A, I>,
    r: Result<ToolResult, String>,
)
    requires
        call_ensures(
            run_builtin::<R, W, L, B, G, K, P, N, C, T, A, I>,
            (which, &args, &files, &shell, &web, &calculator),
            r,
        ),
    ensures
        which == Builtin::FileRead ==> reads(files.read, args@, r),
        which == Builtin::FileWrite ==> writes(files.write, args@, r),
        which == Builtin::FileList ==> lists(files.list, args@, r),
        which == Builtin::BashRun ==> runs(shell, args@, r),
        which == Builtin::WebFetch ==> fetches(web.get, args@, r),
        which == Builtin::WebSearch ==> searches(web, args@, r),
        which == Builtin::Calc ==> calculates::<N, C, T, A, I>(calculator, args@, r),
{
}

} // verus!
