//! Tools that fetch pages and search the web.
use vstd::prelude::*;
use crate::chat::{nonempty, text_or_empty, text_view, Outgoing, OutgoingView};
use crate::json::{entry_views, push_entry, Json, JsonNumber, JsonView, NumberView};
use crate::tools::{
    failure, gives_only, object_schema, property, property_schema, required_text,
    required_text_spec, run_view, s_required, strs, success, takes_argument, Execution, Tool,
    ToolResult, ToolResultView, ToolView,
};

verus! {

// ---------------------------------------------------------------------------
// Descriptions
// ---------------------------------------------------------------------------

/// The description of the tool that fetches a page.
pub open spec fn fetch_description() -> ToolView {
    ToolView {
        name: "web_fetch"@,
        description: "Perform an HTTP GET request to the given URL and return the response body as text. Useful for retrieving web pages, APIs, and other remote content the agent cannot see by itself."@,
        parameters: object_schema(
            JsonView::Object(
                seq![
                    (
                        "url"@,
                        property_schema("string"@, "The absolute URL to fetch (https or http)."@),
                    ),
                ],
            ),
            seq!["url"@],
        ),
    }
}

/// The tool that fetches a page, with this executor.
pub fn fetch_tool_with<F>(executor: F) -> (tool: Tool<F>)
    ensures
        tool@ == fetch_description(),
        tool.executor == executor,
{
    let mut properties: Vec<(String, Json)> = Vec::new();
    push_entry(&mut properties, "url", property("string", "The absolute URL to fetch (https or http)."));
    let required: [&str; 1] = ["url"];
    proof {
        let expected = fetch_description().parameters->Object_0;
        assert(entry_views(properties@) =~= expected[1].1->Object_0);
        assert(strs(required@) =~= seq!["url"@]);
    }
    Tool::new(
        "web_fetch",
        "Perform an HTTP GET request to the given URL and return the response body as text. Useful for retrieving web pages, APIs, and other remote content the agent cannot see by itself.",
        s_required(Json::object(properties), &required),
        executor,
    )
}

/// The description of the tool that searches the web.
pub open spec fn search_description() -> ToolView {
    ToolView {
        name: "web_search"@,
        description: "Search the web for the given query and return a short list of result titles and URLs. Requires the TAVILY_API_KEY environment variable; when it is absent the tool explains that and the agent should fall back to web_fetch."@,
        parameters: object_schema(
            JsonView::Object(
                seq![
                    (
                        "max_results"@,
                        property_schema("integer"@, "Optional number of results to return (default 5)."@),
                    ),
                    (
                        "query"@,
                        property_schema("string"@, "The search query."@),
                    ),
                ],
            ),
            seq!["query"@],
        ),
    }
}

/// The tool that searches the web, with this executor.
pub fn search_tool_with<F>(executor: F) -> (tool: Tool<F>)
    ensures
        tool@ == search_description(),
        tool.executor == executor,
{
    let mut properties: Vec<(String, Json)> = Vec::new();
    push_entry(&mut properties, "max_results", property("integer", "Optional number of results to return (default 5)."));
    push_entry(&mut properties, "query", property("string", "The search query."));
    let required: [&str; 1] = ["query"];
    proof {
        let expected = search_description().parameters->Object_0;
        assert(entry_views(properties@) =~= expected[1].1->Object_0);
        assert(strs(required@) =~= seq!["query"@]);
    }
    Tool::new(
        "web_search",
        "Search the web for the given query and return a short list of result titles and URLs. Requires the TAVILY_API_KEY environment variable; when it is absent the tool explains that and the agent should fall back to web_fetch.",
        s_required(Json::object(properties), &required),
        executor,
    )
}

// ---------------------------------------------------------------------------
// Execution
// ---------------------------------------------------------------------------

/// How the web is reached.
pub struct Web<G, K, P> {
    /// Gets what is at a URL, if anything comes back.
    pub get: G,
    /// The key for the search service, if one is configured.
    pub key: K,
    /// Posts a JSON body, if anything comes back.
    pub post: P,
}

/// What came back from the web.
#[derive(Debug, PartialEq, Eq)]
pub struct Fetched {
    /// Whether the status is one of success.
    pub success: bool,
    /// The status in print.
    pub status: String,
    /// The body, if it could be read.
    pub body: Option<String>,
}

/// What fetching a page is answered.
pub open spec fn fetch_result(url: Seq<char>, came: Option<Fetched>) -> Result<
    ToolResultView,
    Seq<char>,
> {
    match came {
        Some(fetched) => {
            let text = text_or_empty(text_view(fetched.body));
            if fetched.success {
                success(text)
            } else {
                failure("HTTP "@ + fetched.status@ + ": "@ + text)
            }
        },
        None => Err("GET "@ + url),
    }
}

/// The body, or nothing at all where it could not be read.
fn body_of(fetched: Fetched) -> (text: String)
    ensures
        text@ == text_or_empty(text_view(fetched.body)),
{
    match fetched.body {
        Some(text) => text,
        None => String::new(),
    }
}

/// What fetching a page is answered, where `came` is what came back for its URL.
pub fn answer_fetch(url: &str, came: Option<Fetched>) -> (r: Result<ToolResult, String>)
    ensures
        run_view(r) == fetch_result(url@, came),
{
    match came {
        Some(fetched) => if fetched.success {
            Ok(ToolResult { output: body_of(fetched), is_error: false })
        } else {
            let mut text = "HTTP ".to_owned();
            text.append(fetched.status.as_str());
            text.append(": ");
            text.append(body_of(fetched).as_str());
            Ok(ToolResult { output: text, is_error: true })
        },
        None => Err("GET ".to_owned().concat(url)),
    }
}

/// Whether `r` may be the answer to a call that fetches a page: the URL is among the
/// arguments, and the answer is that to what `get` got there.
pub open spec fn fetches<G: Fn(&str) -> Option<Fetched>>(
    get: G,
    args: JsonView,
    r: Result<ToolResult, String>,
) -> bool {
    match required_text_spec(args, "url"@) {
        Ok(url) => exists|u: &str, came: Option<Fetched>|
            #![trigger call_ensures(get, (u,), came)]
            u@ == url && call_ensures(get, (u,), came) && run_view(r) == fetch_result(url, came),
        Err(e) => run_view(r) == Err::<ToolResultView, Seq<char>>(e),
    }
}

/// Runs a call that fetches a page.
pub fn fetch<G: Fn(&str) -> Option<Fetched>>(args: &Json, get: &G) -> (r: Result<ToolResult, String>)
    requires
        takes_argument(*get, args@, "url"@),
    ensures
        fetches(*get, args@, r),
{
    match required_text(args, "url") {
        Ok(url) => {
            let came = get(url);
            let ghost back = came;
            assert(call_ensures(*get, (url,), back));
            answer_fetch(url, came)
        },
        Err(e) => Err(e),
    }
}

/// How many results a search asks for.
pub open spec fn wanted(args: JsonView) -> i64 {
    match args.int_field("max_results"@) {
        Some(n) => n,
        None => 5,
    }
}

/// What is posted for a search.
pub open spec fn search_outgoing(key: Seq<char>, query: Seq<char>, max: i64) -> OutgoingView {
    OutgoingView {
        url: "https://api.tavily.com/search"@,
        authorization: Some("Bearer "@ + key),
        body: JsonView::Object(
            seq![
                ("max_results"@, JsonView::Number(NumberView::Int(max))),
                ("query"@, JsonView::Text(query)),
                ("search_depth"@, JsonView::Text("basic"@)),
            ],
        ),
    }
}

/// What is posted for a search.
pub fn search_request(key: &str, query: &str, max: i64) -> (sent: Outgoing)
    ensures
        sent@ == search_outgoing(key@, query@, max),
{
    let mut entries: Vec<(String, Json)> = Vec::new();
    push_entry(&mut entries, "max_results", Json::Number(JsonNumber::Int(max)));
    push_entry(&mut entries, "query", Json::text(query));
    push_entry(&mut entries, "search_depth", Json::text("basic"));
    assert(entry_views(entries@) =~= search_outgoing(key@, query@, max).body->Object_0);
    Outgoing {
        url: "https://api.tavily.com/search".to_owned(),
        authorization: Some("Bearer ".to_owned().concat(key)),
        body: Json::object(entries),
    }
}

/// What a search is answered: the body of what came back, whatever its status.
pub open spec fn search_result(came: Option<Fetched>) -> Result<ToolResultView, Seq<char>> {
    match came {
        Some(fetched) => success(text_or_empty(text_view(fetched.body))),
        None => Err("tavily request"@),
    }
}

/// What a search is answered, where `came` is what came back for it.
pub fn answer_search(came: Option<Fetched>) -> (r: Result<ToolResult, String>)
    ensures
        run_view(r) == search_result(came),
{
    match came {
        Some(fetched) => Ok(ToolResult { output: body_of(fetched), is_error: false }),
        None => Err("tavily request".to_owned()),
    }
}

/// What a search is answered where no key is configured.
pub open spec fn no_backend() -> Seq<char> {
    "web_search has no backend configured: TAVILY_API_KEY is not set. Suggest the agent use web_fetch instead to retrieve a specific URL."@
}

/// Whether `r` may be the answer to a search for `query` under the key that was found: a
/// remark where there is none, else the answer to what `post` got for the search.
pub open spec fn searched<P: Fn(&Outgoing) -> Option<Fetched>>(
    post: P,
    key: Option<Seq<char>>,
    query: Seq<char>,
    max: i64,
    r: Result<ToolResult, String>,
) -> bool {
    match nonempty(key) {
        Some(key) => exists|sent: Outgoing, came: Option<Fetched>|
            #![trigger call_ensures(post, (&sent,), came)]
            sent@ == search_outgoing(key, query, max) && call_ensures(post, (&sent,), came)
                && run_view(r) == search_result(came),
        None => run_view(r) == success(no_backend()),
    }
}

/// Whether `post` accepts the search for `query` under the key that was found. Nothing is
/// asked of it where there is none, so that nothing can be sent then.
pub open spec fn can_post<P: Fn(&Outgoing) -> Option<Fetched>>(
    post: P,
    key: Option<Seq<char>>,
    query: Seq<char>,
    max: i64,
) -> bool {
    match nonempty(key) {
        Some(key) => forall|sent: Outgoing|
            sent@ == search_outgoing(key, query, max) ==> #[trigger] call_requires(
                post,
                (&sent,),
            ),
        None => true,
    }
}

/// Searches for `query` under the key that was found. Without a key nothing is sent.
pub fn search_with<P: Fn(&Outgoing) -> Option<Fetched>>(
    key: &Option<String>,
    query: &str,
    max: i64,
    post: &P,
) -> (r: Result<ToolResult, String>)
    requires
        can_post(*post, text_view(*key), query@, max),
    ensures
        searched(*post, text_view(*key), query@, max, r),
{
    match key {
        Some(key) => if !key.as_str().is_empty() {
            let sent = search_request(key.as_str(), query, max);
            let came = post(&sent);
            let ghost back = came;
            assert(call_ensures(*post, (&sent,), back));
            return answer_search(came);
        },
        None => {},
    }
    Ok(
        ToolResult::ok(
            "web_search has no backend configured: TAVILY_API_KEY is not set. Suggest the agent use web_fetch instead to retrieve a specific URL.",
        ),
    )
}

/// Whether `r` may be the answer to a call that searches the web: the query is among the
/// arguments, and the answer is that to the search under what `key` found.
pub open spec fn searches<
    G,
    K: Fn() -> Option<String>,
    P: Fn(&Outgoing) -> Option<Fetched>,
>(web: Web<G, K, P>, args: JsonView, r: Result<ToolResult, String>) -> bool {
    match required_text_spec(args, "query"@) {
        Ok(query) => exists|key: Option<String>| #[trigger]
            call_ensures(web.key, (), key) && searched(
                web.post,
                text_view(key),
                query,
                wanted(args),
                r,
            ),
        Err(e) => run_view(r) == Err::<ToolResultView, Seq<char>>(e),
    }
}

/// Whether what a call that searches the web hands over is accepted: where there is a query,
/// `key` can be asked for, and `post` accepts the search under each key that may be found.
pub open spec fn can_search<
    G,
    K: Fn() -> Option<String>,
    P: Fn(&Outgoing) -> Option<Fetched>,
>(web: Web<G, K, P>, args: JsonView) -> bool {
    match required_text_spec(args, "query"@) {
        Ok(query) => {
            &&& call_requires(web.key, ())
            &&& forall|key: Option<String>| #[trigger]
                call_ensures(web.key, (), key) ==> can_post(
                    web.post,
                    text_view(key),
                    query,
                    wanted(args),
                )
        },
        Err(_) => true,
    }
}

/// Runs a call that searches the web.
pub fn search<
    G,
    K: Fn() -> Option<String>,
    P: Fn(&Outgoing) -> Option<Fetched>,
>(args: &Json, web: &Web<G, K, P>) -> (r: Result<ToolResult, String>)
    requires
        can_search(*web, args@),
    ensures
        searches(*web, args@, r),
{
    match required_text(args, "query") {
        Ok(query) => {
            let max = match args.get_i64("max_results") {
                Some(n) => n,
                None => 5,
            };
            let key = (web.key)();
            assert(call_ensures(web.key, (), key));
            search_with(&key, query, max, &web.post)
        },
        Err(e) => Err(e),
    }
}

/// The executor of the tool that fetches a page.
pub fn fetch_executor<G: Fn(&str) -> Option<Fetched>>(get: G) -> (executor: impl Fn(&Json) -> Execution)
    ensures
        gives_only(
            executor,
            |args: JsonView| takes_argument(get, args, "url"@),
            |args: JsonView, r: Result<ToolResult, String>| fetches(get, args, r),
        ),
{
    move |args: &Json| -> (came: Execution)
        requires
            takes_argument(get, args@, "url"@),
        ensures
            came is Some,
            fetches(get, args@, came->0),
        { Some(fetch(args, &get)) }
}

/// The tool that fetches a page.
pub fn fetch_tool<G: Fn(&str) -> Option<Fetched>>(get: G) -> (tool: Tool<impl Fn(&Json) -> Execution>)
    ensures
        tool@ == fetch_description(),
        gives_only(
            tool.executor,
            |args: JsonView| takes_argument(get, args, "url"@),
            |args: JsonView, r: Result<ToolResult, String>| fetches(get, args, r),
        ),
{
    fetch_tool_with(fetch_executor(get))
}

/// The executor of the tool that searches the web.
pub fn search_executor<
    G,
    K: Fn() -> Option<String>,
    P: Fn(&Outgoing) -> Option<Fetched>,
>(web: Web<G, K, P>) -> (executor: impl Fn(&Json) -> Execution)
    ensures
        gives_only(
            executor,
            |args: JsonView| can_search(web, args),
            |args: JsonView, r: Result<ToolResult, String>| searches(web, args, r),
        ),
{
    move |args: &Json| -> (came: Execution)
        requires
            can_search(web, args@),
        ensures
            came is Some,
            searches(web, args@, came->0),
        { Some(search(args, &web)) }
}

/// The tool that searches the web.
pub fn search_tool<
    G,
    K: Fn() -> Option<String>,
    P: Fn(&Outgoing) -> Option<Fetched>,
>(web: Web<G, K, P>) -> (tool: Tool<impl Fn(&Json) -> Execution>)
    ensures
        tool@ == search_description(),
        gives_only(
            tool.executor,
            |args: JsonView| can_search(web, args),
            |args: JsonView, r: Result<ToolResult, String>| searches(web, args, r),
        ),
{
    search_tool_with(search_executor(web))
}

} // verus!
