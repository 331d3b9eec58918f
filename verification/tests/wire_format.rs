use agent_loop::chat::{
    default_model, pretty, render_messages, simple_request, ChatClient, ChatMessage, ChatRequest,
    ChatResponse, ChatTool, Choice, Outgoing, Reply, Role, ToolCall, Usage,
};
use agent_loop::json::{parse_json, Json, JsonNumber};
use agent_loop::wire::{
    keep_body, read_raw_reply, read_reply, Exchange, WireFunction, WireToolCall,
};

fn json(text: &str) -> Json {
    parse_json(text).unwrap()
}

fn call(id: &str, name: &str, arguments: &str) -> ToolCall {
    ToolCall { id: id.into(), name: name.into(), arguments: arguments.into() }
}

#[test]
fn messages_are_made_for_each_role() {
    let m = ChatMessage::system("s");
    assert_eq!((m.role, m.content.as_deref()), (Role::System, Some("s")));
    let m = ChatMessage::user("u");
    assert_eq!((m.role, m.content.as_deref()), (Role::User, Some("u")));
    let m = ChatMessage::assistant("a");
    assert_eq!((m.role, m.content.as_deref()), (Role::Assistant, Some("a")));
    assert_eq!((m.tool_calls, m.tool_call_id), (None, None));
    let m = ChatMessage::assistant_with_tool_calls(vec![call("1", "n", "{}")]);
    assert_eq!((m.role, m.content, m.tool_call_id), (Role::Assistant, None, None));
    assert_eq!(m.tool_calls, Some(vec![call("1", "n", "{}")]));
    let m = ChatMessage::tool_result("1", "r");
    assert_eq!((m.role, m.content.as_deref()), (Role::Tool, Some("r")));
    assert_eq!((m.tool_calls.clone(), m.tool_call_id.as_deref()), (None, Some("1")));
    assert_eq!(m.clone(), m);
}

#[test]
fn roles_have_their_names() {
    let names: Vec<&str> =
        [Role::System, Role::User, Role::Assistant, Role::Tool].iter().map(|r| r.as_str()).collect();
    assert_eq!(names, ["system", "user", "assistant", "tool"]);
}

#[test]
fn calls_nest_their_function_on_the_wire() {
    let c = call("c1", "calc", r#"{"expression": "1"}"#);
    assert_eq!(
        c.to_json(),
        json(
            r#"{"id": "c1", "type": "function",
                "function": {"name": "calc", "arguments": "{\"expression\": \"1\"}"}}"#
        )
    );
    assert_eq!(
        c.to_wire(),
        WireToolCall {
            id: "c1".into(),
            function: Some(WireFunction {
                name: "calc".into(),
                arguments: r#"{"expression": "1"}"#.into()
            }),
            name: None,
            arguments: None,
        }
    );
    assert_eq!(ToolCall::from_wire(c.to_wire()), Ok(c));
}

#[test]
fn flat_calls_are_understood() {
    let flat = |name: Option<&str>, arguments: Option<&str>| WireToolCall {
        id: "i".into(),
        function: None,
        name: name.map(|s| s.into()),
        arguments: arguments.map(|s| s.into()),
    };
    assert_eq!(ToolCall::from_wire(flat(Some("n"), Some("{}"))), Ok(call("i", "n", "{}")));
    assert_eq!(ToolCall::from_wire(flat(Some("n"), None)), Ok(call("i", "n", "")));
    assert_eq!(
        ToolCall::from_wire(flat(None, Some("{}"))),
        Err("tool call missing function.name".to_string())
    );
    // What is nested wins.
    let both = WireToolCall {
        id: "i".into(),
        function: Some(WireFunction { name: "f".into(), arguments: "1".into() }),
        name: Some("n".into()),
        arguments: Some("2".into()),
    };
    assert_eq!(ToolCall::from_wire(both), Ok(call("i", "f", "1")));
}

#[test]
fn absent_parts_of_messages_are_left_out() {
    assert_eq!(ChatMessage::user("hi").to_json(), json(r#"{"role": "user", "content": "hi"}"#));
    assert_eq!(
        ChatMessage::tool_result("c1", "out").to_json(),
        json(r#"{"role": "tool", "content": "out", "tool_call_id": "c1"}"#)
    );
    assert_eq!(
        ChatMessage::assistant_with_tool_calls(vec![call("c1", "n", "{}")]).to_json(),
        json(
            r#"{"role": "assistant", "tool_calls":
                [{"id": "c1", "type": "function", "function": {"name": "n", "arguments": "{}"}}]}"#
        )
    );
}

#[test]
fn requests_say_what_is_posted() {
    let plain = simple_request("m", "be brief", "hello");
    assert_eq!(
        plain.to_json_pretty(),
        json(
            r#"{"model": "m", "temperature": 0.2, "messages":
                [{"role": "system", "content": "be brief"}, {"role": "user", "content": "hello"}]}"#
        )
    );
    let full = ChatRequest {
        model: "m".into(),
        messages: Vec::new(),
        tools: Some(vec![ChatTool::function("n", "d", json(r#"{"type": "object"}"#))]),
        tool_choice: Some(Json::text("auto")),
        temperature: None,
    };
    assert_eq!(
        full.to_json_pretty(),
        json(
            r#"{"model": "m", "messages": [], "tool_choice": "auto", "tools":
                [{"type": "function", "function":
                    {"name": "n", "description": "d", "parameters": {"type": "object"}}}]}"#
        )
    );
    assert_eq!(full.clone(), full);
    assert_eq!(plain.clone().to_json_pretty(), plain.to_json_pretty());
}

fn response() -> ChatResponse {
    ChatResponse {
        id: Some("r1".into()),
        model: None,
        choices: vec![Choice {
            index: Some(0),
            message: ChatMessage::assistant("done"),
            finish_reason: Some("stop".into()),
        }],
        usage: Some(Usage {
            prompt_tokens: Some(3),
            completion_tokens: None,
            total_tokens: Some(-1),
        }),
    }
}

#[test]
fn absent_parts_of_responses_are_null() {
    assert_eq!(
        response().to_json(),
        json(
            r#"{"id": "r1", "model": null, "choices":
                [{"index": 0, "finish_reason": "stop",
                  "message": {"role": "assistant", "content": "done"}}],
                "usage": {"prompt_tokens": 3, "completion_tokens": null, "total_tokens": -1}}"#
        )
    );
    let bare = ChatResponse { id: None, model: None, choices: Vec::new(), usage: None };
    assert_eq!(
        bare.to_json(),
        json(r#"{"id": null, "model": null, "choices": [], "usage": null}"#)
    );
    assert_eq!(response().clone(), response());
}

#[test]
fn clients_know_where_to_post() {
    let c = ChatClient::new("http://localhost:11434/v1//", None);
    assert_eq!(c.base_url, "http://localhost:11434/v1");
    assert_eq!(c.chat_api_url(), "http://localhost:11434/v1/chat/completions");
    assert_eq!(c.authorization(), None);
    assert_eq!(ChatClient::new("///", None).base_url, "");
    assert_eq!(ChatClient::new(&c.base_url, None), c.clone());

    let c = ChatClient::from_env(None, Some("sk".into()));
    assert_eq!(c.base_url, "https://api.openai.com/v1");
    assert_eq!(c.authorization(), Some("Bearer sk".to_string()));
    let c = ChatClient::from_env(Some("http://h/".into()), Some(String::new()));
    assert_eq!(c, ChatClient { base_url: "http://h".into(), api_key: None });
    // A key that is given outright is taken as it is.
    assert_eq!(ChatClient::new("h", Some(String::new())).api_key, Some(String::new()));

    assert_eq!(default_model(None), "gpt-4o-mini");
    assert_eq!(default_model(Some("llama3.1".into())), "llama3.1");
}

fn reply(success: bool, status: &str, body: &str) -> Reply {
    Reply { success, status: status.into(), body: body.into() }
}

#[test]
fn replies_are_read_or_quoted() {
    let decode = |body: &str| -> Result<ChatResponse, String> {
        if body == "good" { Ok(response()) } else { Err("bad".to_string()) }
    };
    assert_eq!(read_reply(&reply(true, "200 OK", "good"), &decode), Ok(response()));
    assert_eq!(
        read_reply(&reply(true, "200 OK", "<html>"), &decode),
        Err("failed to parse response: bad\n<html>".to_string())
    );
    // The body of a refusal is not read.
    let never = |_: &str| -> Result<ChatResponse, String> { panic!("read") };
    assert_eq!(
        read_reply(&reply(false, "401 Unauthorized", "good"), &never),
        Err("endpoint returned 401 Unauthorized: good".to_string())
    );

    assert_eq!(read_raw_reply(&reply(true, "200 OK", "[1, 2]")), Ok(json("[1,2]")));
    let e = serde_json::from_str::<serde_json::Value>("[1,").unwrap_err();
    assert_eq!(
        read_raw_reply(&reply(true, "200 OK", "[1,")),
        Err(format!("invalid json: {e}\n[1,"))
    );
    assert_eq!(
        read_raw_reply(&reply(false, "500", "[1]")),
        Err("endpoint returned 500: [1]".to_string())
    );
}

#[test]
fn exchanges_send_the_request_and_read_the_reply() {
    let client = ChatClient::new("http://h/v1/", Some("sk".into()));
    let request = simple_request("m", "s", "u");
    let expected = Outgoing {
        url: "http://h/v1/chat/completions".into(),
        authorization: Some("Bearer sk".into()),
        body: request.to_json_pretty(),
    };
    assert_eq!(client.outgoing(&request), expected);

    let transport = |sent: &Outgoing| -> Result<Reply, String> {
        if *sent == expected { Ok(reply(true, "200 OK", "{\"a\": 1}")) } else { Err("lost".into()) }
    };
    let decode = |_: &str| -> Result<ChatResponse, String> { Ok(response()) };
    assert_eq!(client.complete(&request, &transport, &decode), Ok(response()));
    assert_eq!(client.complete_raw(&request, &transport), Ok(json(r#"{"a": 1}"#)));
    assert_eq!(
        client.exchange(&request, &transport, &decode),
        Ok(Exchange { response: response(), raw: json(r#"{"a": 1}"#) })
    );
    let refuse = |_: &str| -> Result<ChatResponse, String> { Err("bad".to_string()) };
    assert_eq!(
        client.exchange(&request, &transport, &refuse),
        Err("failed to parse response: bad\n{\"a\": 1}".to_string())
    );

    let other = ChatClient::new("http://other", None);
    assert_eq!(other.complete(&request, &transport, &decode), Err("lost".to_string()));
    assert_eq!(other.complete_raw(&request, &transport), Err("lost".to_string()));
    assert_eq!(other.exchange(&request, &transport, &decode), Err("lost".to_string()));
}

#[test]
fn bodies_are_kept_whole() {
    let body = r#"{"choices": [], "system_fingerprint": "fp", "usage": null}"#;
    assert_eq!(
        keep_body(body, Ok(response())),
        Ok(Exchange { response: response(), raw: json(body) })
    );
    // A body that holds what no value can is written out anew.
    let huge = r#"{"choices": [], "ignored": 1e400}"#;
    assert!(parse_json(huge).is_err());
    assert_eq!(
        keep_body(huge, Ok(response())),
        Ok(Exchange { response: response(), raw: response().to_json() })
    );
    assert_eq!(keep_body(body, Err("why".to_string())), Err("why".to_string()));
}

#[test]
fn conversations_are_rendered_line_by_line() {
    let mut both = ChatMessage::assistant_with_tool_calls(vec![
        call("1", "calc", "{}"),
        call("2", "bash_run", "{}"),
    ]);
    both.content = Some("on it ".into());
    let messages = vec![
        ChatMessage::system("s"),
        ChatMessage::user("u"),
        ChatMessage::assistant_with_tool_calls(vec![call("0", "file_read", "{}")]),
        both,
        ChatMessage::assistant_with_tool_calls(Vec::new()),
        ChatMessage::tool_result("1", "2"),
    ];
    assert_eq!(
        render_messages(&messages),
        "[system] s\n[user] u\n[assistant] → tools: file_read\n\
         [assistant] on it → tools: calc, bash_run\n[assistant] → tools: \n[tool] 2\n"
    );
    assert_eq!(render_messages(&[]), "");
    // Two conversations in a row are rendered in a row, one line for each message.
    let text = render_messages(&messages);
    assert_eq!(
        format!("{}{}", render_messages(&messages[..2]), render_messages(&messages[2..])),
        text
    );
    assert_eq!(text.matches('\n').count(), messages.len());
}

#[test]
fn json_is_parsed_and_printed() {
    assert_eq!(
        json(r#"{"b": [1, -2, 18446744073709551615, 0.5, true, null], "a": "x"}"#),
        Json::Object(vec![
            ("a".to_string(), Json::text("x")),
            (
                "b".to_string(),
                Json::Array(vec![
                    Json::Number(JsonNumber::Int(1)),
                    Json::Number(JsonNumber::Int(-2)),
                    Json::Number(JsonNumber::Big(u64::MAX)),
                    Json::Number(JsonNumber::Float("0.5".parse().unwrap())),
                    Json::Bool(true),
                    Json::Null,
                ])
            ),
        ])
    );
    assert_eq!(
        pretty(&json(r#"{"b": [1, 0.2], "a": {}}"#)),
        "{\n  \"a\": {},\n  \"b\": [\n    1,\n    0.2\n  ]\n}"
    );
    // The keys of what is printed are in order, and the last of two entries is kept.
    let twice = Json::Object(vec![
        ("k".to_string(), Json::Null),
        ("a".to_string(), Json::Number(JsonNumber::Big(3))),
        ("k".to_string(), Json::Bool(true)),
    ]);
    assert_eq!(pretty(&twice), "{\n  \"a\": 3,\n  \"k\": true\n}");
    // A number is printed as it was read, to the last digit.
    assert_eq!(pretty(&json("0.1")), "0.1");
    assert_eq!(pretty(&json("-1.7976931348623157e308")), "-1.7976931348623157e+308");
    for text in ["1.2345678901234567e-70", "5e-324", "123456.789e3"] {
        let value: serde_json::Value = serde_json::from_str(text).unwrap();
        assert_eq!(pretty(&json(text)), serde_json::to_string_pretty(&value).unwrap());
    }
    // An integer is one however it is held.
    let held = Json::Number(JsonNumber::Float("3".parse().unwrap()));
    assert_eq!(held.as_i64(), Some(3));
    assert_eq!(pretty(&held), "3");
    let e = serde_json::from_str::<serde_json::Value>("{").unwrap_err().to_string();
    assert_eq!(parse_json("{"), Err(e));
}

#[test]
fn one_decimal_is_read_as_it_is_written() {
    for ones in '0'..='9' {
        for tenths in '0'..='9' {
            let text = format!("{ones}.{tenths}");
            match json(&text) {
                Json::Number(JsonNumber::Float(n)) => {
                    assert_eq!(n.to_string(), text);
                    assert_eq!((n.as_i64(), n.as_u64()), (None, None));
                }
                other => panic!("{other:?}"),
            }
        }
    }
}

#[test]
fn parsed_values_have_one_form() {
    let value = json(r#"{"b": {"z": 1, "": 2, "é": 3}, "a": 1, "b": {"y": 0}, "B": [9223372036854775808]}"#);
    match &value {
        Json::Object(entries) => {
            let keys: Vec<&str> = entries.iter().map(|(k, _)| k.as_str()).collect();
            assert_eq!(keys, ["B", "a", "b"]);
            assert_eq!(entries[0].1, Json::Array(vec![Json::Number(JsonNumber::Big(1 << 63))]));
            assert_eq!(entries[2].1, json(r#"{"y": 0}"#));
        }
        other => panic!("{other:?}"),
    }
    assert_eq!(pretty(&json(r#"{"é": 1, "z": 2, "Z": 3, "": 4}"#)),
        "{\n  \"\": 4,\n  \"Z\": 3,\n  \"z\": 2,\n  \"é\": 1\n}");
}

#[test]
fn printing_and_parsing_give_a_value_back() {
    let value = json(
        r#"{"": "é\n\"", "n": -9223372036854775808, "o": {"deep": [[], {}, [false]]}, "z": 1e3}"#,
    );
    assert_eq!(parse_json(&pretty(&value)), Ok(value.clone()));
}

#[test]
fn values_are_looked_up_by_key() {
    let v = json(r#"{"s": "text", "i": 7, "f": 7.0, "b": 18446744073709551615}"#);
    assert_eq!(v.get_str("s"), Some("text"));
    assert_eq!(v.get_str("i"), None);
    assert_eq!(v.get_i64("i"), Some(7));
    assert_eq!(v.get_i64("f"), None);
    assert_eq!(v.get_i64("b"), None);
    assert_eq!(v.get_i64("missing"), None);
    assert_eq!(v.get("missing"), None);
    assert_eq!(Json::Null.get("s"), None);
    assert_eq!(Json::Array(Vec::new()).get_str("s"), None);
}
