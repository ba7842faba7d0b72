use axum::http::HeaderMap;
use serde_json::Value;
use std::time::Duration;
use vstd::hash_map::StringHashMap;
use zeroclaw_a2a::config::{A2aConfig, A2aPeerConfig};
use zeroclaw_a2a::delegate::{
    call_discover, call_send, call_status, finish_call, read_sent, A2aDelegateTool, CallKind,
    HttpOutcome, PeerCall, ToolResult, ToolStep,
};
use zeroclaw_a2a::json::{Json, JsonObject};
use zeroclaw_a2a::rpc::{complete_message_send, handle_rpc, JsonRpcRequest, RpcStep};
use zeroclaw_a2a::tasks::TaskStore;

fn parse(text: &str) -> Json {
    Json::parse(text).unwrap()
}

fn value(text: &str) -> Value {
    serde_json::from_str(text).unwrap()
}

fn peer(endpoint: &str) -> A2aPeerConfig {
    A2aPeerConfig {
        endpoint: endpoint.into(),
        bearer_token: Some("tok".into()),
        description: Some("AI knowledge".into()),
    }
}

fn tool(allow_local_peers: bool) -> A2aDelegateTool {
    let mut peers = StringHashMap::new();
    peers.insert("aiops".to_string(), peer("https://peer.test/base//"));
    peers.insert("here".to_string(), peer("http://127.0.0.1:42620"));
    A2aDelegateTool::new(A2aConfig { allow_local_peers, peers, ..Default::default() })
}

fn finished(step: ToolStep) -> ToolResult {
    match step {
        ToolStep::Finish(result) => result,
        ToolStep::Call(call) => panic!("a call to {}", call.url),
    }
}

fn called(step: ToolStep) -> PeerCall {
    match step {
        ToolStep::Finish(result) => panic!("finished: {:?}", result.error),
        ToolStep::Call(call) => call,
    }
}

fn assert_error(result: ToolResult, message: &str) {
    assert!(!result.success);
    assert_eq!(result.output, "");
    assert_eq!(result.error.as_deref(), Some(message));
}

#[test]
fn tool_rejects_unregistered_peer() {
    let tool = A2aDelegateTool::new(A2aConfig::default());
    let args = Json::Object(
        JsonObject::new().with("peer", Json::text("nobody")).with("task", Json::text("hello")),
    );
    let result = finished(tool.execute(Ok(()), &args));
    assert!(!result.success);
    assert!(result.error.unwrap().contains("not registered"));
}

#[test]
fn refused_calls_say_why() {
    let refuse = |args: &str| finished(tool(false).execute(Ok(()), &parse(args)));
    assert_error(
        finished(tool(true).execute(Err("read-only mode".into()), &parse(r#"{"peer":"aiops"}"#))),
        "read-only mode",
    );
    assert_error(refuse("{}"), "missing 'peer' parameter");
    assert_error(refuse(r#"{"peer":7}"#), "missing 'peer' parameter");
    assert_error(
        refuse(r#"{"peer":"evil.test"}"#),
        "peer 'evil.test' not registered. Add [a2a.peers.evil.test] to config.toml.",
    );
    assert_error(
        refuse(r#"{"peer":"here","task":"x"}"#),
        "peer endpoint resolves to a local/private host. Set [a2a] allow_local_peers = true to permit same-host A2A.",
    );
    assert_error(refuse(r#"{"peer":"aiops"}"#), "missing 'task' parameter for send");
    assert_error(
        refuse(r#"{"peer":"aiops","action":"status"}"#),
        "missing 'task_id' parameter for status",
    );
    assert_error(refuse(r#"{"peer":"aiops","action":"Send"}"#), "unknown action 'Send'");
}

#[test]
fn local_peers_are_called_where_allowed() {
    let args = parse(r#"{"peer":"here","task":"x"}"#);
    let call = called(tool(true).execute(Ok(()), &args));
    assert_eq!(call.url, "http://127.0.0.1:42620/a2a/v1/rpc");
}

#[test]
fn a_send_is_prepared() {
    for args in [
        r#"{"peer":"aiops","task":"hello"}"#,
        r#"{"peer":"aiops","task":"hello","action":"send"}"#,
        r#"{"peer":"aiops","task":"hello","action":null,"url":"http://evil.test"}"#,
    ] {
        let call = called(tool(false).execute(Ok(()), &parse(args)));
        assert_eq!(call.kind, CallKind::Send);
        assert_eq!(call.url, "https://peer.test/base/a2a/v1/rpc");
        assert_eq!(call.bearer_token.as_deref(), Some("tok"));
        let body = call.body.unwrap().into_value();
        let id = body["id"].as_str().unwrap();
        assert_eq!(uuid::Uuid::parse_str(id).unwrap().get_version_num(), 4);
        assert_eq!(
            body,
            value(&format!(
                r#"{{"jsonrpc":"2.0","id":"{id}","method":"message/send","params":{{"message":{{"role":"user","parts":[{{"kind":"text","text":"hello"}}]}}}}}}"#
            ))
        );
    }
}

#[test]
fn the_other_calls_are_prepared() {
    let args = parse(r#"{"peer":"aiops","action":"discover"}"#);
    let call = called(tool(false).execute(Ok(()), &args));
    assert_eq!(call.kind, CallKind::Discover);
    assert_eq!(call.url, "https://peer.test/base/.well-known/agent.json");
    assert!(call.bearer_token.is_none());
    assert!(call.body.is_none());

    let args = parse(r#"{"peer":"aiops","action":"status","task_id":"t1"}"#);
    let call = called(tool(false).execute(Ok(()), &args));
    assert_eq!(call.kind, CallKind::Status);
    assert_eq!(call.url, "https://peer.test/base/a2a/v1/rpc");
    assert_eq!(call.bearer_token.as_deref(), Some("tok"));
    let body = call.body.unwrap().into_value();
    assert_eq!(body["method"], "tasks/get");
    assert_eq!(body["params"], value(r#"{"id":"t1"}"#));
}

#[test]
fn answers_to_a_send_are_read() {
    let text = r#"{"result":{"id":"t1","status":{"state":"completed"},"artifacts":[{"parts":[{"text":"the answer"}]}]}}"#;
    let result = read_sent(&Some("desc".into()), text, &parse(text));
    assert!(result.success);
    assert_eq!(result.output, "peer=desc task_id=t1 state=completed\nthe answer");
    assert!(result.error.is_none());

    let call = call_send(&peer("http://p.test"), "x", "r1");
    let read = |status: u16, text: &str| {
        finish_call(&call, HttpOutcome::Answered { status, text: text.into() }).unwrap()
    };
    assert_eq!(read(200, text).output, "peer=AI knowledge task_id=t1 state=completed\nthe answer");
    assert_eq!(read(204, "no json").output, "peer=AI knowledge task_id= state=unknown\nno json");
    let keyed = r#"{"result":{"artifacts":{"0":{"parts":[{"text":"keyed"}]}}}}"#;
    assert_eq!(read(200, keyed).output, "peer=AI knowledge task_id= state=unknown\nkeyed");
    assert_error(
        read(200, r#"{"error":{"message":"m","code":-32001},"result":{"id":"t"}}"#),
        r#"peer JSON-RPC error: {"code":-32001,"message":"m"}"#,
    );
    assert_error(read(200, r#"{"error":null}"#), "peer JSON-RPC error: null");
    assert_error(read(404, "gone"), "peer returned 404 Not Found: gone");
    assert_error(read(299 + 1, ""), "peer returned 300 Multiple Choices: ");
    assert_error(read(599, "x"), "peer returned 599 <unknown status code>: x");
}

#[test]
fn a_peer_without_description_is_named_so() {
    let result = read_sent(&None, "raw", &Json::Null);
    assert_eq!(result.output, "peer=(no description) task_id= state=unknown\nraw");
}

#[test]
fn other_answers_are_passed_on() {
    let p = peer("http://p.test");
    for call in [call_discover(&p), call_status(&p, "t", "r")] {
        let text = r#"{"error":"kept"}"#;
        let outcome = HttpOutcome::Answered { status: 200, text: text.into() };
        let result = finish_call(&call, outcome).unwrap();
        assert!(result.success);
        assert_eq!(result.output, text);
        let outcome = HttpOutcome::Answered { status: 503, text: "busy".into() };
        assert_error(
            finish_call(&call, outcome).unwrap(),
            "peer returned 503 Service Unavailable: busy",
        );
    }
}

#[test]
fn requests_that_do_not_arrive_are_errors() {
    let p = peer("http://p.test/");
    let message = |call: &PeerCall, outcome: HttpOutcome| match finish_call(call, outcome) {
        Ok(_) => panic!("an error was expected"),
        Err(message) => message,
    };
    let send = call_send(&p, "x", "r");
    assert_eq!(
        message(&send, HttpOutcome::NotSent("boom".into())),
        "A2A send to http://p.test/a2a/v1/rpc failed: boom"
    );
    assert_eq!(
        message(&call_discover(&p), HttpOutcome::NotSent("boom".into())),
        "A2A discover http://p.test/.well-known/agent.json failed: boom"
    );
    assert_eq!(
        message(&call_status(&p, "t", "r"), HttpOutcome::NotSent("boom".into())),
        "A2A status http://p.test/a2a/v1/rpc failed: boom"
    );
    assert_eq!(
        message(&send, HttpOutcome::NoClient("no tls".into())),
        "failed to build HTTP client: no tls"
    );
}

#[test]
fn the_tool_describes_itself() {
    let tool = tool(false);
    assert_eq!(tool.name(), "a2a_delegate");
    assert!(tool.description().starts_with("Delegate a task or question to a registered peer"));
    let schema = tool.parameters_schema().into_value();
    assert_eq!(
        schema,
        value(
            r#"{
                "type": "object",
                "properties": {
                    "peer": {
                        "type": "string",
                        "description": "Name of a pre-registered peer (from [a2a.peers.<peer>] config)"
                    },
                    "task": {
                        "type": "string",
                        "description": "The question or task text to send to the peer agent"
                    },
                    "action": {
                        "type": "string",
                        "description": "Which A2A call to make. Default 'send'.",
                        "enum": ["send", "discover", "status"],
                        "default": "send"
                    },
                    "task_id": {
                        "type": "string",
                        "description": "Required only for action='status' — the task id returned by a previous send."
                    }
                },
                "required": ["peer"]
            }"#
        )
    );
    assert_eq!(tool.request_timeout(), Duration::from_secs(120));
    let tool = tool.with_timeout(Duration::from_millis(5));
    assert_eq!(tool.request_timeout(), Duration::from_millis(5));
}

#[test]
fn two_agents_talk_to_each_other() {
    // The caller's request, as it goes over the wire.
    let args = parse(r#"{"peer":"aiops","task":"which \"model\"?\n"}"#);
    let call = called(tool(false).execute(Ok(()), &args));
    let body = parse(&call.body.as_ref().unwrap().render()).into_value();
    let req = JsonRpcRequest {
        jsonrpc: body["jsonrpc"].as_str().unwrap().to_string(),
        method: body["method"].as_str().unwrap().to_string(),
        params: Json::from_value(body["params"].clone()),
        id: Json::from_value(body["id"].clone()),
    };

    // The receiver's side.
    let config = A2aConfig { enabled: true, ..Default::default() };
    let mut store = TaskStore::new();
    let pending = match handle_rpc(&config, &HeaderMap::new(), &mut store, req) {
        RpcStep::Dispatch(pending) => pending,
        RpcStep::Answer(reply) => panic!("answered: {}", reply.body.render()),
    };
    assert_eq!(pending.text, "which \"model\"?\n");
    let task_id = pending.task_id.clone();
    let reply = complete_message_send(&mut store, pending, Some("this one".into()));

    // The answer, as it comes back.
    let outcome =
        HttpOutcome::Answered { status: reply.status.as_u16(), text: reply.body.render() };
    let result = finish_call(&call, outcome).unwrap();
    assert!(result.success);
    assert_eq!(
        result.output,
        format!("peer=AI knowledge task_id={task_id} state=completed\nthis one")
    );
}
