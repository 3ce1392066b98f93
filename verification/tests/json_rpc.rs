//! JSON-RPC over standard input and output, and over the proxy.

use mentisdbd::proxy;
use mentisdbd::proxy::{daemon_reply, proxy_jsonrpc_to_daemon, proxy_request, ProxyStep};
use mentisdbd::rpc::{
    canonical_tool_name, get_text, get_text_param, handle_request, handle_stdio_jsonrpc,
    reply_to_step, request_params, resources_list_reply, resources_read_reply, tools_call_reply,
    tools_list_reply, ServiceOutcome, StdioStep, ToolDefinition, ToolResult,
};
use mentisdbd::stdio::{
    frame_reply, request_line, run_stdio_mode_local, run_stdio_mode_proxy, session_step,
    SessionEvent, SessionStep,
};
use serde_json::Value;

const SKILL: &str = "---\nname: mentisdb\n---\n\n# \"MentisDB\" ⚡\n";

fn parsed(text: &str) -> Value {
    serde_json::from_str(text).unwrap()
}

fn reply_to(line: &str) -> String {
    match handle_stdio_jsonrpc(line, "9.9.9") {
        StdioStep::Reply(reply) => reply,
        _ => panic!("{line} should be answered at once"),
    }
}

fn is_silent(line: &str) -> bool {
    matches!(handle_stdio_jsonrpc(line, "9.9.9"), StdioStep::Silent)
}

#[test]
fn tool_names_get_the_prefix_once() {
    assert_eq!(canonical_tool_name("head"), "mentisdb_head");
    assert_eq!(canonical_tool_name("mentisdb_head"), "mentisdb_head");
    assert_eq!(canonical_tool_name("  head\t"), "mentisdb_head");
    assert_eq!(canonical_tool_name(" mentisdb_head "), "mentisdb_head");
    assert_eq!(canonical_tool_name(""), "mentisdb_");
    assert_eq!(canonical_tool_name("mentisdb"), "mentisdb_mentisdb");
    assert_eq!(canonical_tool_name("\u{3000}köpf\u{a0}"), "mentisdb_köpf");
    assert_eq!(canonical_tool_name(&canonical_tool_name(" x y ")), "mentisdb_x y");
}

#[test]
fn ping_is_answered_under_its_id() {
    assert_eq!(
        reply_to(r#"{"jsonrpc":"2.0","id":7,"method":"ping"}"#),
        r#"{"id":7,"jsonrpc":"2.0","result":{}}"#
    );
    assert_eq!(
        reply_to(r#"{"jsonrpc":"2.0","id":"a\nb","method":"ping"}"#),
        r#"{"id":"a\nb","jsonrpc":"2.0","result":{}}"#
    );
    assert_eq!(
        reply_to(r#"{"jsonrpc":"2.0","id":null,"method":"ping"}"#),
        r#"{"id":null,"jsonrpc":"2.0","result":{}}"#
    );
    assert_eq!(
        reply_to(r#"{"jsonrpc":"2.0","id":{"k":[1,2.5,true]},"method":"ping"}"#),
        r#"{"id":{"k":[1,2.5,true]},"jsonrpc":"2.0","result":{}}"#
    );
}

#[test]
fn initialize_introduces_the_server() {
    let reply = parsed(&reply_to(r#"{"jsonrpc":"2.0","id":1,"method":"initialize","params":{}}"#));
    let result = reply.get("result").unwrap();
    assert_eq!(
        result.to_string(),
        concat_text(&[
            r#"{"capabilities":{"resources":{"listChanged":false,"subscribe":false},"#,
            r#""tools":{"listChanged":false}},"#,
            r#""instructions":"MentisDB is an append-only semantic memory server. READ THIS FIRST: "#,
            r#"call `resources/read` for `mentisdb://skill/core` immediately after initialize to "#,
            r#"load the embedded MentisDB operating skill.","#,
            r#""protocolVersion":"2025-06-18","serverInfo":{"name":"mentisdb","version":"9.9.9"}}"#,
        ])
    );
    assert_eq!(reply.get("id"), Some(&Value::from(1)));
    assert!(reply.get("error").is_none());
}

fn concat_text(parts: &[&str]) -> String {
    parts.concat()
}

#[test]
fn an_unknown_method_is_refused() {
    assert_eq!(
        reply_to(r#"{"jsonrpc":"2.0","id":3,"method":"prompts/list"}"#),
        r#"{"error":{"code":-32603,"message":"Method not found: prompts/list"},"id":3,"jsonrpc":"2.0"}"#
    );
}

#[test]
fn what_is_no_request_gets_no_reply() {
    assert!(is_silent("not json"));
    assert!(is_silent(""));
    assert!(is_silent("[]"));
    assert!(is_silent(r#"{"id":1,"method":"ping"}"#));
    assert!(is_silent(r#"{"jsonrpc":"1.0","id":1,"method":"ping"}"#));
    assert!(is_silent(r#"{"jsonrpc":2.0,"id":1,"method":"ping"}"#));
    assert!(is_silent(r#"{"jsonrpc":"2.0","method":"notifications/initialized"}"#));
    assert!(is_silent(r#"{"jsonrpc":"2.0","id":1}"#));
    assert!(is_silent(r#"{"jsonrpc":"2.0","id":1,"method":5}"#));
    assert!(is_silent(r#"{"jsonrpc":"2.0","id":1,"method":"ping"} trailing"#));
}

#[test]
fn a_tool_call_keeps_its_arguments() {
    let line = r#"{"jsonrpc":"2.0","id":5,"method":"tools/call","params":{"name":" head ","arguments":{"chain_key":"x"}}}"#;
    match handle_stdio_jsonrpc(line, "9.9.9") {
        StdioStep::CallTool { id, tool, arguments } => {
            assert_eq!(id, Value::from(5));
            assert_eq!(tool, "mentisdb_head");
            assert_eq!(arguments.to_string(), r#"{"chain_key":"x"}"#);
        }
        _ => panic!("expected a tool call"),
    }
}

#[test]
fn a_tool_call_without_parameters_is_still_made() {
    match handle_stdio_jsonrpc(r#"{"jsonrpc":"2.0","id":5,"method":"tools/call"}"#, "9.9.9") {
        StdioStep::CallTool { tool, arguments, .. } => {
            assert_eq!(tool, "mentisdb_");
            assert_eq!(arguments.to_string(), "{}");
        }
        _ => panic!("expected a tool call"),
    }
    let line = r#"{"jsonrpc":"2.0","id":5,"method":"tools/call","params":{"name":3,"arguments":null}}"#;
    match handle_stdio_jsonrpc(line, "9.9.9") {
        StdioStep::CallTool { tool, arguments, .. } => {
            assert_eq!(tool, "mentisdb_");
            assert_eq!(arguments, Value::Null);
        }
        _ => panic!("expected a tool call"),
    }
}

#[test]
fn listings_and_reads_go_to_the_service() {
    match handle_stdio_jsonrpc(r#"{"jsonrpc":"2.0","id":"t","method":"tools/list"}"#, "9.9.9") {
        StdioStep::ListTools { id } => assert_eq!(id, Value::from("t")),
        _ => panic!("expected a listing of tools"),
    }
    match handle_stdio_jsonrpc(r#"{"jsonrpc":"2.0","id":"r","method":"resources/list"}"#, "9.9.9") {
        StdioStep::ListResources { id } => assert_eq!(id, Value::from("r")),
        _ => panic!("expected a listing of resources"),
    }
    let line = r#"{"jsonrpc":"2.0","id":8,"method":"resources/read","params":{"uri":"mentisdb://skill/core"}}"#;
    match handle_request(&parsed(line), "9.9.9") {
        StdioStep::ReadResource { id, uri } => {
            assert_eq!(id, Value::from(8));
            assert_eq!(uri, "mentisdb://skill/core");
        }
        _ => panic!("expected a read"),
    }
}

#[test]
fn parameters_are_read_with_their_defaults() {
    let request = parsed(r#"{"params":{"uri":"u","n":1},"method":"m"}"#);
    let params = request_params(&request);
    assert_eq!(params.to_string(), r#"{"n":1,"uri":"u"}"#);
    assert_eq!(get_text(&params, "uri"), Some("u"));
    assert_eq!(get_text(&params, "n"), None);
    assert_eq!(get_text(&params, "x"), None);
    assert_eq!(get_text_param(&params, "uri"), "u");
    assert_eq!(get_text_param(&params, "n"), "");
    assert_eq!(request_params(&params), Value::Null);
}

#[test]
fn tools_are_listed_with_their_schemas() {
    let tools = vec![
        ToolDefinition {
            name: "mentisdb_head".to_string(),
            description: "The \"head\"".to_string(),
            parameters_schema: parsed(r#"{"type":"object"}"#),
        },
        ToolDefinition {
            name: "mentisdb_append".to_string(),
            description: String::new(),
            parameters_schema: Value::Null,
        },
    ];
    assert_eq!(
        tools_list_reply(Value::from(2), Ok(tools)),
        r#"{"id":2,"jsonrpc":"2.0","result":{"tools":[{"description":"The \"head\"","inputSchema":{"type":"object"},"name":"mentisdb_head"},{"description":"","inputSchema":null,"name":"mentisdb_append"}]}}"#
    );
    assert_eq!(
        tools_list_reply(Value::from(2), Ok(vec![])),
        r#"{"id":2,"jsonrpc":"2.0","result":{"tools":[]}}"#
    );
    assert_eq!(
        tools_list_reply(Value::from(2), Err("down".to_string())),
        r#"{"error":{"code":-32603,"message":"down"},"id":2,"jsonrpc":"2.0"}"#
    );
}

#[test]
fn tool_output_is_text() {
    let text = ToolResult { success: true, output: Value::from("line one\nline two") };
    assert_eq!(
        tools_call_reply(Value::from(4), Ok(text)),
        r#"{"id":4,"jsonrpc":"2.0","result":{"content":[{"text":"line one\nline two","type":"text"}],"isError":false}}"#
    );
    let object = ToolResult { success: false, output: parsed(r#"{"b":1,"a":[null]}"#) };
    assert_eq!(
        tools_call_reply(Value::from(4), Ok(object)),
        r#"{"id":4,"jsonrpc":"2.0","result":{"content":[{"text":"{\"a\":[null],\"b\":1}","type":"text"}],"isError":true}}"#
    );
    assert_eq!(
        tools_call_reply(Value::from(4), Err("no such tool".to_string())),
        r#"{"error":{"code":-32603,"message":"no such tool"},"id":4,"jsonrpc":"2.0"}"#
    );
}

#[test]
fn resources_are_listed_as_given() {
    let resources = vec![parsed(r#"{"uri":"mentisdb://skill/core"}"#)];
    assert_eq!(
        resources_list_reply(Value::from(6), Ok(resources)),
        r#"{"id":6,"jsonrpc":"2.0","result":{"resources":[{"uri":"mentisdb://skill/core"}]}}"#
    );
    assert_eq!(
        resources_list_reply(Value::from(6), Err("down".to_string())),
        r#"{"error":{"code":-32603,"message":"down"},"id":6,"jsonrpc":"2.0"}"#
    );
}

#[test]
fn a_resource_is_read_under_its_uri() {
    assert_eq!(
        resources_read_reply(Value::from(6), "u", Ok("# text".to_string())),
        r##"{"id":6,"jsonrpc":"2.0","result":{"contents":[{"text":"# text","uri":"u"}]}}"##
    );
    assert_eq!(
        resources_read_reply(Value::from(6), "u", Err("unknown".to_string())),
        r#"{"error":{"code":-32603,"message":"unknown"},"id":6,"jsonrpc":"2.0"}"#
    );
}

#[test]
fn a_written_reply_is_one_line() {
    let reply = reply_to(r#"{"jsonrpc":"2.0","id":"a\nb","method":"x\r\ny"}"#);
    let frame = frame_reply(&reply);
    assert_eq!(frame, format!("{reply}\n"));
    assert_eq!(frame.lines().count(), 1);
    assert_eq!(frame.matches('\n').count(), 1);
}

#[test]
fn blank_lines_are_skipped() {
    assert_eq!(request_line("  {\"a\":1}\t\r"), Some("{\"a\":1}"));
    assert_eq!(request_line(""), None);
    assert_eq!(request_line(" \t\u{2003}"), None);
}

#[test]
fn the_proxy_serves_the_skill_itself() {
    let line = r#"{"jsonrpc":"2.0","id":11,"method":"resources/read","params":{"uri":"mentisdb://skill/core"}}"#;
    match proxy_jsonrpc_to_daemon("127.0.0.1:9471", line, SKILL) {
        ProxyStep::Reply(reply) => {
            let reply = parsed(&reply);
            assert_eq!(reply.get("id"), Some(&Value::from(11)));
            assert_eq!(reply.get("jsonrpc"), Some(&Value::from("2.0")));
            let entry = reply.get("result").unwrap().get("contents").unwrap().get(0).unwrap();
            assert_eq!(entry.get("uri"), Some(&Value::from("mentisdb://skill/core")));
            assert_eq!(entry.get("mimeType"), Some(&Value::from("text/markdown")));
            assert_eq!(entry.get("text"), Some(&Value::from(SKILL)));
        }
        _ => panic!("expected a reply"),
    }
}

#[test]
fn the_proxy_forwards_what_it_does_not_serve() {
    let line = r#"{"jsonrpc":"2.0", "id":1, "method":"tools/list"}"#;
    match proxy_request(&parsed(line), "127.0.0.1:9471", line, SKILL) {
        ProxyStep::Forward { url, body } => {
            assert_eq!(url, "http://127.0.0.1:9471/");
            assert_eq!(body, line);
        }
        _ => panic!("expected a forward"),
    }
    match proxy_jsonrpc_to_daemon("h:1", r#"{"method":"notifications/initialized"}"#, SKILL) {
        ProxyStep::Forward { url, body } => {
            assert_eq!(url, "http://h:1/");
            assert_eq!(body, r#"{"method":"notifications/initialized"}"#);
        }
        _ => panic!("expected a forward"),
    }
}

#[test]
fn the_proxy_drops_what_is_no_request() {
    assert!(matches!(proxy_jsonrpc_to_daemon("h:1", "{", SKILL), ProxyStep::Silent));
    assert!(matches!(proxy_jsonrpc_to_daemon("h:1", r#"{"id":1}"#, SKILL), ProxyStep::Silent));
    assert!(matches!(proxy_jsonrpc_to_daemon("h:1", r#"{"method":1}"#, SKILL), ProxyStep::Silent));
    assert!(matches!(
        proxy_jsonrpc_to_daemon("h:1", r#"{"method":"resources/read"}"#, SKILL),
        ProxyStep::Silent
    ));
}

fn unwrapped(body: &str) -> Option<String> {
    daemon_reply(Some(body.to_string()))
}

#[test]
fn a_plain_body_is_the_reply() {
    assert_eq!(unwrapped("{\"id\":1}\n"), Some("{\"id\":1}\n".to_string()));
    assert_eq!(unwrapped(""), Some(String::new()));
    assert_eq!(daemon_reply(None), None);
}

#[test]
fn an_event_stream_is_unwrapped() {
    assert_eq!(
        unwrapped("event: message\ndata: {\"id\":1}\n\n"),
        Some("{\"id\":1}".to_string())
    );
    assert_eq!(
        unwrapped("event: message\r\ndata: {\"id\":1}\r\n\r\n"),
        Some("{\"id\":1}".to_string())
    );
    assert_eq!(
        unwrapped("event: a\ndata: hello\ndata: {\"id\":2}\ndata: {\"id\":3}"),
        Some("{\"id\":2}".to_string())
    );
    assert_eq!(unwrapped("event: a\n  data: {}"), Some("{}".to_string()));
}

#[test]
fn an_event_stream_without_an_object_has_no_reply() {
    assert_eq!(unwrapped("event: ping\n\n"), None);
    assert_eq!(unwrapped("event: a\ndata:{\"id\":1}\n"), None);
    assert_eq!(unwrapped("event: a\ndata: [1]\n"), None);
    assert_eq!(unwrapped("event: a\ndata: \n{\"id\":1}"), None);
    assert_eq!(unwrapped("{\"text\":\"event: x\"}"), None);
}

#[test]
fn a_line_is_answered_without_its_outer_space() {
    let line = "{\"jsonrpc\":\"2.0\",\"id\":7,\"method\":\"ping\"}";
    match run_stdio_mode_local(&format!(" \t{line}\r"), "9.9.9") {
        StdioStep::Reply(reply) => {
            assert_eq!(reply, "{\"id\":7,\"jsonrpc\":\"2.0\",\"result\":{}}");
            assert_eq!(reply, reply_to(line));
        }
        _ => panic!("a ping should be answered at once"),
    }
    match run_stdio_mode_local(
        " {\"jsonrpc\":\"2.0\",\"id\":null,\"method\":\"resources/read\",\"params\":{\"uri\":\"u\"}}",
        "9.9.9",
    ) {
        StdioStep::ReadResource { id, uri } => {
            assert_eq!(id, Value::Null);
            assert_eq!(uri, "u");
        }
        _ => panic!("a resource should be read from the service"),
    }
    for blank in ["", "   ", "\t\r", "not json", "[]"] {
        assert!(matches!(run_stdio_mode_local(blank, "9.9.9"), StdioStep::Silent));
    }
}

#[test]
fn a_line_is_forwarded_without_its_outer_space() {
    let line = "{\"method\": \"tools/list\", \"id\": 1}";
    match run_stdio_mode_proxy("127.0.0.1:9471", &format!("  {line} \r"), SKILL) {
        ProxyStep::Forward { url, body } => {
            assert_eq!(url, "http://127.0.0.1:9471/");
            assert_eq!(body, line);
        }
        _ => panic!("a listing should be forwarded"),
    }
    match run_stdio_mode_proxy("h:1", "{\"method\":\"resources/read\",\"id\":\"x\"}\t", SKILL) {
        ProxyStep::Reply(reply) => {
            let reply = parsed(&reply);
            assert_eq!(reply["id"], "x");
            assert_eq!(reply["result"]["contents"][0]["text"], SKILL);
        }
        _ => panic!("a resource should be read here"),
    }
    for blank in ["", "  ", "{", "{\"id\":1}"] {
        assert!(matches!(run_stdio_mode_proxy("h:1", blank, SKILL), ProxyStep::Silent));
    }
}

#[test]
fn a_framed_reply_is_read_back() {
    let output = parsed("{\"lines\":[\"a\\nb\",-3,18446744073709551615,true,null],\"q\":\"\\\"\"}");
    let reply = tools_call_reply(
        parsed("{\"deep\":[1,[2]]}"),
        Ok(ToolResult { success: true, output: output.clone() }),
    );
    let frame = frame_reply(&reply);
    let lines: Vec<&str> = frame.split('\n').collect();
    assert_eq!(lines, vec![reply.as_str(), ""]);
    let read = parsed(lines[0]);
    assert_eq!(read["id"], parsed("{\"deep\":[1,[2]]}"));
    assert_eq!(read["result"]["isError"], false);
    assert_eq!(parsed(read["result"]["content"][0]["text"].as_str().unwrap()), output);
}

#[test]
fn a_reply_nested_to_the_limit_is_read_back() {
    let nested = |depth: usize| format!("{}{}", "[".repeat(depth), "]".repeat(depth));
    let reply_for = |depth: usize| {
        resources_read_reply(parsed(&nested(depth)), "u", Ok("text".to_string()))
    };
    assert!(serde_json::from_str::<Value>(&reply_for(126)).is_ok());
    assert_eq!(parsed(&reply_for(126))["id"], parsed(&nested(126)));
    assert!(serde_json::from_str::<Value>(&reply_for(127)).is_err());
}

/// Runs a session: the events in order, and what is written until it ends.
fn session(events: Vec<SessionEvent>) -> (String, Option<Result<(), String>>) {
    let mut written = String::new();
    for event in events {
        match session_step(event) {
            SessionStep::ReadOn => {}
            SessionStep::Write(frame) => written.push_str(&frame),
            SessionStep::Finished => return (written, Some(Ok(()))),
            SessionStep::Failed(error) => return (written, Some(Err(error))),
        }
    }
    (written, None)
}

#[test]
fn a_local_session_writes_its_replies_in_order() {
    let service = |step: &StdioStep| match step {
        StdioStep::Silent | StdioStep::Reply(_) => ServiceOutcome::NotAsked,
        StdioStep::ListTools { .. } => ServiceOutcome::Tools(Err("no tools".to_string())),
        StdioStep::CallTool { tool, .. } => ServiceOutcome::Tool(Ok(ToolResult {
            success: true,
            output: Value::from(tool.as_str()),
        })),
        StdioStep::ListResources { .. } => ServiceOutcome::Resources(Ok(vec![Value::from("r")])),
        StdioStep::ReadResource { uri, .. } => ServiceOutcome::Resource(Ok(format!("<{uri}>"))),
    };
    let lines = [
        r#"{"jsonrpc":"2.0","id":1,"method":"tools/list"}"#,
        "   ",
        r#"{"jsonrpc":"2.0","method":"notifications/initialized"}"#,
        r#" {"jsonrpc":"2.0","id":2,"method":"tools/call","params":{"name":"head"}} "#,
        "no json",
        r#"{"jsonrpc":"2.0","id":3,"method":"ping"}"#,
        r#"{"jsonrpc":"2.0","id":4,"method":"resources/list"}"#,
        r#"{"jsonrpc":"2.0","id":5,"method":"resources/read","params":{"uri":"u"}}"#,
    ];
    let mut events: Vec<SessionEvent> = lines
        .iter()
        .map(|line| {
            let step = run_stdio_mode_local(line, "9.9.9");
            let outcome = service(&step);
            SessionEvent::Dealt(reply_to_step(step, outcome))
        })
        .collect();
    events.push(SessionEvent::EndOfInput);
    events.push(SessionEvent::Dealt(Some("late".to_string())));
    let (written, end) = session(events);
    assert_eq!(end, Some(Ok(())));
    assert_eq!(
        written,
        concat_text(&[
            "{\"error\":{\"code\":-32603,\"message\":\"no tools\"},\"id\":1,\"jsonrpc\":\"2.0\"}\n",
            "{\"id\":2,\"jsonrpc\":\"2.0\",\"result\":{\"content\":[{\"text\":\"mentisdb_head\",\"type\":\"text\"}],\"isError\":false}}\n",
            "{\"id\":3,\"jsonrpc\":\"2.0\",\"result\":{}}\n",
            "{\"id\":4,\"jsonrpc\":\"2.0\",\"result\":{\"resources\":[\"r\"]}}\n",
            "{\"id\":5,\"jsonrpc\":\"2.0\",\"result\":{\"contents\":[{\"text\":\"<u>\",\"uri\":\"u\"}]}}\n",
        ])
    );
}

#[test]
fn a_proxied_session_goes_on_past_a_failed_forward() {
    let exchange = [
        (r#"{"id":1,"method":"ping"}"#, Some("{\"id\":1}")),
        ("", Some("never asked")),
        (r#"{"id":2,"method":"ping"}"#, None),
        (r#"{"id":3,"method":"ping"}"#, Some("event: message\ndata: {\"id\":3}\n\n")),
        (r#"{"id":4,"method":"ping"}"#, Some("event: message\n\n")),
        (r#"{"id":5,"method":"ping"}"#, Some("{\"id\":5}")),
    ];
    let mut events: Vec<SessionEvent> = exchange
        .iter()
        .map(|(line, body)| {
            let step = run_stdio_mode_proxy("h:1", line, SKILL);
            SessionEvent::Dealt(proxy::reply_to_step(step, body.map(str::to_string)))
        })
        .collect();
    events.push(SessionEvent::EndOfInput);
    assert_eq!(
        session(events),
        ("{\"id\":1}\n{\"id\":3}\n{\"id\":5}\n".to_string(), Some(Ok(())))
    );
}

#[test]
fn a_failure_ends_a_session_with_its_error() {
    let events = || vec![SessionEvent::Dealt(Some("a".to_string())), SessionEvent::Dealt(None)];
    assert_eq!(session(events()), ("a\n".to_string(), None));
    let mut failing = events();
    failing.push(SessionEvent::Failed("pipe closed".to_string()));
    failing.push(SessionEvent::EndOfInput);
    assert_eq!(session(failing), ("a\n".to_string(), Some(Err("pipe closed".to_string()))));
}

#[test]
fn an_outcome_of_another_question_is_no_reply() {
    let step = StdioStep::ListTools { id: Value::from(1) };
    assert_eq!(reply_to_step(step, ServiceOutcome::Resource(Ok("x".to_string()))), None);
    let step = StdioStep::Reply("r".to_string());
    assert_eq!(reply_to_step(step, ServiceOutcome::NotAsked), Some("r".to_string()));
    assert_eq!(reply_to_step(StdioStep::Silent, ServiceOutcome::NotAsked), None);
}

#[test]
fn listings_nested_to_the_limit_are_read_back() {
    let nested = |depth: usize| parsed(&format!("{}{}", "[".repeat(depth), "]".repeat(depth)));
    let tools = |depth: usize| {
        let tool = ToolDefinition {
            name: "n".to_string(),
            description: "d".to_string(),
            parameters_schema: nested(depth),
        };
        tools_list_reply(Value::from(1), Ok(vec![tool]))
    };
    assert_eq!(parsed(&tools(123))["result"]["tools"][0]["inputSchema"], nested(123));
    assert!(serde_json::from_str::<Value>(&tools(124)).is_err());
    let resources = |depth: usize| resources_list_reply(Value::from(1), Ok(vec![nested(depth)]));
    assert_eq!(parsed(&resources(124))["result"]["resources"][0], nested(124));
    assert!(serde_json::from_str::<Value>(&resources(125)).is_err());
}
