use axum::http::header::AUTHORIZATION;
use axum::http::{HeaderMap, HeaderValue};
use serde_json::Value;
use std::time::{Duration, UNIX_EPOCH};
use zeroclaw_a2a::auth::{check_bearer, check_bearer_value, constant_time_eq};
use zeroclaw_a2a::card::{build_agent_card, handle_agent_card};
use zeroclaw_a2a::clock::{unix_now, unix_time_of};
use zeroclaw_a2a::config::A2aConfig;
use zeroclaw_a2a::json::{Json, JsonObject};
use zeroclaw_a2a::message::extract_text;
use zeroclaw_a2a::rpc::{
    complete_message_send, default_jsonrpc_version, finish_with_failure, finish_with_response,
    handle_rpc, handle_task_get_rest, handle_tasks_get, route_rpc, rpc_error, take_message,
    JsonRpcRequest, PendingMessage, RpcRoute, RpcStep,
};
use zeroclaw_a2a::tasks::{
    evict_oldest_terminal, TaskMap, TaskRecord, TaskStatus, TaskStore, MAX_TASKS,
};
use zeroclaw_a2a::web::{HttpStatus, Reply};

fn parse(text: &str) -> Json {
    Json::parse(text).unwrap()
}

fn value(text: &str) -> Value {
    serde_json::from_str(text).unwrap()
}

fn text_part(text: &str) -> Json {
    Json::Object(JsonObject::new().with("kind", Json::text("text")).with("text", Json::text(text)))
}

fn config() -> A2aConfig {
    A2aConfig { enabled: true, ..Default::default() }
}

fn guarded() -> A2aConfig {
    A2aConfig { enabled: true, bearer_token: Some("s3cret".into()), ..Default::default() }
}

fn bearer(text: &str) -> HeaderMap {
    let mut h = HeaderMap::new();
    h.insert(AUTHORIZATION, text.parse().unwrap());
    h
}

fn request(method: &str, params: &str) -> JsonRpcRequest {
    JsonRpcRequest {
        jsonrpc: default_jsonrpc_version(),
        method: method.into(),
        params: parse(params),
        id: parse("7"),
    }
}

fn answer(step: RpcStep) -> Reply {
    match step {
        RpcStep::Answer(reply) => reply,
        RpcStep::Dispatch(_) => panic!("a message was dispatched"),
    }
}

fn dispatched(step: RpcStep) -> PendingMessage {
    match step {
        RpcStep::Answer(reply) => panic!("answered: {}", reply.body.render()),
        RpcStep::Dispatch(pending) => pending,
    }
}

fn assert_reply(reply: Reply, status: u16, body: &str) {
    assert_eq!(reply.status.as_u16(), status);
    assert_eq!(reply.body.into_value(), value(body));
}

fn record(id: &str, status: TaskStatus, updated_at: u64) -> TaskRecord {
    TaskRecord { id: id.into(), status, artifacts: vec![], updated_at }
}

#[test]
fn extract_text_from_spec_message() {
    let p = Json::Object(
        JsonObject::new().with(
            "message",
            Json::Object(JsonObject::new().with(
                "parts",
                Json::Array(vec![text_part("hello "), text_part("world")]),
            )),
        ),
    );
    assert_eq!(extract_text(&p).as_deref(), Some("hello  world"));
}

#[test]
fn extract_text_falls_back_to_simple_message() {
    let p = Json::Object(JsonObject::new().with("message", Json::text("plain text")));
    assert_eq!(extract_text(&p).as_deref(), Some("plain text"));
}

#[test]
fn extract_text_empty_returns_none() {
    let p = Json::Object(JsonObject::new());
    assert_eq!(extract_text(&p), None);
}

#[test]
fn extract_text_handles_odd_parts() {
    let text = |p: &str| extract_text(&parse(p));
    assert_eq!(text(r#"{"message":{"parts":[{"text":"no kind"}]}}"#).as_deref(), Some("no kind"));
    assert_eq!(
        text(r#"{"message":{"parts":[{"kind":5,"text":"a"},{"kind":"file","text":"b"},{"kind":"text"},{"text":"c"},"d"]}}"#)
            .as_deref(),
        Some("a c")
    );
    assert_eq!(text(r#"{"message":{"parts":[{"text":" \t\n　 "}]}}"#), None);
    assert_eq!(text(r#"{"message":{"parts":[{"text":"​"}]}}"#).as_deref(), Some("\u{200b}"));
    assert_eq!(text(r#"{"message":{"parts":[]}}"#), None);
    assert_eq!(text(r#"{"message":{"parts":"x"}}"#), None);
    assert_eq!(text(r#"{"message":""}"#).as_deref(), Some(""));
    assert_eq!(text("[]"), None);
    assert_eq!(text("null"), None);
}

#[test]
fn white_space_is_what_std_says() {
    for c in '\0'..=char::MAX {
        let p = Json::Object(JsonObject::new().with(
            "message",
            Json::Object(
                JsonObject::new().with("parts", Json::Array(vec![text_part(&c.to_string())])),
            ),
        ));
        assert_eq!(extract_text(&p).is_none(), c.is_whitespace(), "{c:?}");
    }
}

#[test]
fn agent_card_has_required_fields() {
    let cfg = A2aConfig {
        enabled: true,
        agent_name: Some("aiops".into()),
        description: Some("AI knowledge".into()),
        public_url: Some("http://example.test".into()),
        version: Some("0.1.0".into()),
        capabilities: vec!["tts".into(), "stt".into()],
        ..Default::default()
    };
    let card = build_agent_card(&cfg, "9.9.9").into_value();
    assert_eq!(card["name"], "aiops");
    assert_eq!(card["description"], "AI knowledge");
    assert_eq!(card["url"], "http://example.test");
    assert_eq!(card["version"], "0.1.0");
    assert_eq!(card["skills"].as_array().unwrap().len(), 2);
}

#[test]
fn agent_card_is_exact() {
    let cfg = A2aConfig { enabled: true, capabilities: vec!["tts".into()], ..Default::default() };
    assert_reply(
        handle_agent_card(&cfg, "1.2.3"),
        200,
        r#"{"name":"zeroclaw-agent","description":"ZeroClaw agent exposed via A2A.",
            "url":"http://127.0.0.1/","version":"1.2.3","protocolVersion":"0.2",
            "capabilities":{"streaming":false,"pushNotifications":false},
            "skills":[{"id":"tts","name":"tts",
                "description":"zeroclaw-agent supports capability: tts","tags":["tts"]}],
            "defaultInputModes":["text"],"defaultOutputModes":["text"]}"#,
    );
}

#[test]
fn everything_is_not_found_when_disabled() {
    let cfg = A2aConfig::default();
    let mut store = TaskStore::new();
    assert_reply(handle_agent_card(&cfg, "1"), 404, r#"{"error":"A2A disabled"}"#);
    assert_reply(
        handle_task_get_rest(&cfg, &HeaderMap::new(), &store, "x"),
        404,
        r#"{"error":"A2A disabled"}"#,
    );
    let step = handle_rpc(
        &cfg,
        &HeaderMap::new(),
        &mut store,
        request("message/send", r#"{"message":"hi"}"#),
    );
    assert_reply(
        answer(step),
        404,
        r#"{"jsonrpc":"2.0","id":7,"error":{"code":-32601,"message":"A2A disabled"}}"#,
    );
    assert_eq!(store.len(), 0);
}

#[test]
fn bearer_auth_rejects_wrong_token() {
    let mut h = HeaderMap::new();
    h.insert(AUTHORIZATION, "Bearer wrong".parse().unwrap());
    assert!(check_bearer(&h, Some("right")).is_err());
}

#[test]
fn bearer_auth_accepts_correct_token() {
    let mut h = HeaderMap::new();
    h.insert(AUTHORIZATION, "Bearer s3cret".parse().unwrap());
    assert!(check_bearer(&h, Some("s3cret")).is_ok());
}

#[test]
fn bearer_auth_noop_when_unset() {
    let h = HeaderMap::new();
    assert!(check_bearer(&h, None).is_ok());
}

#[test]
fn bearer_auth_goes_by_the_exact_header() {
    let refused = Err(HttpStatus::Unauthorized);
    assert_eq!(check_bearer(&HeaderMap::new(), Some("t")), refused);
    assert_eq!(check_bearer(&HeaderMap::new(), Some("")), refused);
    assert_eq!(check_bearer(&bearer("Basic t"), Some("")), refused);
    assert_eq!(check_bearer_value(None, Some("")), refused);
    assert_eq!(check_bearer_value(Some(b"Bearer"), Some("")), refused);
    assert_eq!(check_bearer_value(Some(b"Bearer "), Some("")), Ok(()));
    assert_eq!(check_bearer_value(Some(b"Bearer t"), Some("")), refused);
    assert_eq!(check_bearer(&bearer("bearer t"), Some("t")), refused);
    assert_eq!(check_bearer(&bearer("Bearer  t"), Some("t")), refused);
    assert_eq!(check_bearer(&bearer("Bearer t"), Some("tt")), refused);
    assert_eq!(check_bearer(&bearer("Basic t"), Some("t")), refused);
    assert_eq!(check_bearer(&bearer("Bearer t"), None), Ok(()));
    let mut two = bearer("Bearer first");
    two.append(AUTHORIZATION, "Bearer second".parse().unwrap());
    assert_eq!(check_bearer(&two, Some("first")), Ok(()));
    assert_eq!(check_bearer(&two, Some("second")), refused);
    let mut opaque = HeaderMap::new();
    opaque.insert(AUTHORIZATION, HeaderValue::from_bytes(b"Bearer t\xc3\xa9").unwrap());
    assert_eq!(check_bearer(&opaque, Some("t\u{e9}")), refused);
    assert_eq!(check_bearer_value(Some(b"Bearer a\tb c"), Some("a\tb c")), Ok(()));
}

#[test]
fn constant_time_eq_compares_texts() {
    assert!(constant_time_eq("", ""));
    assert!(constant_time_eq("s3cret\u{e9}", "s3cret\u{e9}"));
    assert!(!constant_time_eq("abc", "abd"));
    assert!(!constant_time_eq("abc", "ab"));
    assert!(!constant_time_eq("ab", "ab\0"));
}

#[test]
fn callers_without_the_token_are_refused() {
    let mut store = TaskStore::new();
    let cfg = guarded();
    let wrong = bearer("Bearer wrong");
    for method in ["message/send", "tasks/get", "other"] {
        let step = handle_rpc(&cfg, &wrong, &mut store, request(method, r#"{"message":"hi"}"#));
        assert_reply(
            answer(step),
            401,
            r#"{"jsonrpc":"2.0","id":7,"error":{"code":-32001,"message":"Unauthorized"}}"#,
        );
    }
    assert_eq!(store.len(), 0);
    assert_reply(
        handle_task_get_rest(&cfg, &wrong, &store, "x"),
        401,
        r#"{"error":"unauthorized"}"#,
    );
    let step = handle_rpc(
        &cfg,
        &bearer("Bearer s3cret"),
        &mut store,
        request("message/send", r#"{"message":"hi"}"#),
    );
    dispatched(step);
}

#[test]
fn an_empty_token_lets_no_one_in_without_a_header() {
    let mut store = TaskStore::new();
    let cfg = A2aConfig { enabled: true, bearer_token: Some(String::new()), ..Default::default() };
    for h in [HeaderMap::new(), bearer("Basic t")] {
        assert_reply(
            answer(handle_rpc(&cfg, &h, &mut store, request("message/send", r#"{"message":"hi"}"#))),
            401,
            r#"{"jsonrpc":"2.0","id":7,"error":{"code":-32001,"message":"Unauthorized"}}"#,
        );
        assert_reply(
            handle_task_get_rest(&cfg, &h, &store, "x"),
            401,
            r#"{"error":"unauthorized"}"#,
        );
    }
    assert_eq!(store.len(), 0);
}

#[test]
fn requests_are_routed_without_the_tasks() {
    let h = bearer("Bearer s3cret");
    match route_rpc(&guarded(), &h, request("message/send", r#"{"message":"hi"}"#)) {
        RpcRoute::MessageSend(req) => {
            assert_eq!(req.method, "message/send");
            assert_eq!(req.params.render(), r#"{"message":"hi"}"#);
            assert_eq!(req.id.render(), "7");
        }
        other => panic!("{other:?}"),
    }
    match route_rpc(&guarded(), &h, request("tasks/get", r#"{"id":"x"}"#)) {
        RpcRoute::TasksGet(req) => assert_eq!(req.params.render(), r#"{"id":"x"}"#),
        other => panic!("{other:?}"),
    }
    for (cfg, h, method, status, code) in [
        (A2aConfig::default(), bearer("Bearer s3cret"), "tasks/get", 404, -32601),
        (guarded(), HeaderMap::new(), "tasks/get", 401, -32001),
        (guarded(), bearer("Bearer s3cret"), "tasks/cancel", 200, -32601),
    ] {
        match route_rpc(&cfg, &h, request(method, "{}")) {
            RpcRoute::Answer(reply) => {
                assert_eq!(reply.status.as_u16(), status);
                assert_eq!(value(&reply.body.render())["error"]["code"], code);
            }
            other => panic!("{other:?}"),
        }
    }
}

#[test]
fn both_ways_of_polling_miss_an_unknown_task() {
    let store = TaskStore::new();
    let rest = handle_task_get_rest(&config(), &HeaderMap::new(), &store, "nope");
    assert_reply(rest, 404, r#"{"error":"task not found"}"#);
    let polled = handle_tasks_get(&store, request("tasks/get", r#"{"id":"nope"}"#));
    assert_reply(
        polled,
        200,
        r#"{"jsonrpc":"2.0","id":7,"error":{"code":-32001,"message":"Task not found"}}"#,
    );
}

#[test]
fn unknown_methods_and_bad_params_are_named() {
    let mut store = TaskStore::new();
    let cfg = config();
    let h = HeaderMap::new();
    assert_reply(
        answer(handle_rpc(&cfg, &h, &mut store, request("tasks/cancel", "{}"))),
        200,
        r#"{"jsonrpc":"2.0","id":7,"error":{"code":-32601,"message":"Method not found: tasks/cancel"}}"#,
    );
    assert_reply(
        answer(handle_rpc(&cfg, &h, &mut store, request("message/send", "{}"))),
        200,
        r#"{"jsonrpc":"2.0","id":7,"error":{"code":-32602,"message":"Invalid params: missing message text"}}"#,
    );
    for params in ["{}", r#"{"id":""}"#, r#"{"id":5}"#, "null"] {
        assert_reply(
            answer(handle_rpc(&cfg, &h, &mut store, request("tasks/get", params))),
            200,
            r#"{"jsonrpc":"2.0","id":7,"error":{"code":-32602,"message":"Invalid params: missing task id"}}"#,
        );
    }
    assert_reply(
        answer(handle_rpc(&cfg, &h, &mut store, request("tasks/get", r#"{"id":"nope"}"#))),
        200,
        r#"{"jsonrpc":"2.0","id":7,"error":{"code":-32001,"message":"Task not found"}}"#,
    );
    assert_reply(
        handle_task_get_rest(&cfg, &h, &store, "nope"),
        404,
        r#"{"error":"task not found"}"#,
    );
    assert_eq!(store.len(), 0);
}

#[test]
fn errors_give_any_id_back() {
    for id in ["null", "7", "-1.25", r#""x""#, r#"{"a":[1.5]}"#] {
        assert_eq!(
            rpc_error(parse(id), -32000, "m").into_value(),
            value(&format!(r#"{{"jsonrpc":"2.0","id":{id},"error":{{"code":-32000,"message":"m"}}}}"#))
        );
    }
    assert_eq!(default_jsonrpc_version(), "2.0");
}

fn is_uuid_v4(s: &str) -> bool {
    uuid::Uuid::parse_str(s).is_ok_and(|id| id.get_version_num() == 4 && id.to_string() == s)
}

#[test]
fn a_message_is_answered_and_polled() {
    let mut store = TaskStore::default();
    let cfg = config();
    let h = HeaderMap::new();
    let req = request("message/send", r#"{"message":"hello"}"#);
    let pending = dispatched(handle_rpc(&cfg, &h, &mut store, req));
    let id = pending.task_id.clone();
    assert!(is_uuid_v4(&id));
    assert_eq!(pending.session_id, format!("a2a-{id}"));
    assert_eq!(pending.text, "hello");
    let poll = format!(r#"{{"id":"{id}"}}"#);
    assert_reply(
        answer(handle_rpc(&cfg, &h, &mut store, request("tasks/get", &poll))),
        200,
        &format!(r#"{{"jsonrpc":"2.0","id":7,"result":{{"id":"{id}","status":{{"state":"working"}},"artifacts":[]}}}}"#),
    );

    // Another task comes and fails meanwhile.
    let req = request("message/send", r#"{"message":"other"}"#);
    let other = dispatched(handle_rpc(&cfg, &h, &mut store, req));
    let other_id = other.task_id.clone();
    assert_ne!(other_id, id);
    assert_reply(
        complete_message_send(&mut store, other, None),
        200,
        &format!(r#"{{"jsonrpc":"2.0","id":7,"result":{{"id":"{other_id}","status":{{"state":"failed","message":"Internal processing error"}}}}}}"#),
    );

    let reply = complete_message_send(&mut store, pending, Some("hi there".into()));
    assert_eq!(reply.status.as_u16(), 200);
    let sent = reply.body.into_value();
    let artifact_id = sent["result"]["artifacts"][0]["artifactId"].as_str().unwrap().to_string();
    assert!(is_uuid_v4(&artifact_id));
    let artifact = format!(
        r#"{{"artifactId":"{artifact_id}","name":"response","parts":[{{"kind":"text","text":"hi there"}}]}}"#
    );
    assert_eq!(
        sent,
        value(&format!(
            r#"{{"jsonrpc":"2.0","id":7,"result":{{"id":"{id}","status":{{"state":"completed"}},"artifacts":[{artifact}]}}}}"#
        ))
    );
    let polled = answer(handle_rpc(&cfg, &h, &mut store, request("tasks/get", &poll)));
    assert_eq!(polled.body.into_value(), sent);

    let rest = handle_task_get_rest(&cfg, &h, &store, &id);
    assert_eq!(rest.status.as_u16(), 200);
    let rest = rest.body.into_value();
    assert_eq!(rest["id"], id.as_str());
    assert_eq!(rest["status"], "completed");
    assert_eq!(rest["artifacts"][0], value(&artifact));
    let age = unix_now() - rest["updated_at"].as_u64().unwrap();
    assert!(age < 60);
    assert_eq!(store.len(), 2);
}

#[test]
fn a_message_is_finished_with_given_id_and_time() {
    let mut store = TaskStore::new();
    let take = |store: &mut TaskStore, id: &str| {
        dispatched(take_message(store, "t".into(), parse("null"), id.into(), 5))
    };
    let done = take(&mut store, "a");
    let failed = take(&mut store, "b");
    assert_reply(
        finish_with_response(&mut store, done, "r", "art", 6),
        200,
        r#"{"jsonrpc":"2.0","id":null,"result":{"id":"a","status":{"state":"completed"},"artifacts":[{"artifactId":"art","name":"response","parts":[{"kind":"text","text":"r"}]}]}}"#,
    );
    finish_with_failure(&mut store, failed, 7);
    assert_eq!(
        store.get("a").unwrap().to_json().into_value(),
        value(r#"{"id":"a","status":"completed","artifacts":[{"artifactId":"art","name":"response","parts":[{"kind":"text","text":"r"}]}],"updated_at":6}"#)
    );
    assert_eq!(
        store.get("b").unwrap().to_json().into_value(),
        value(r#"{"id":"b","status":"failed","artifacts":[],"updated_at":7}"#)
    );
    // A task that the store does not know is answered all the same.
    let gone = PendingMessage {
        task_id: "gone".into(),
        session_id: "a2a-gone".into(),
        text: "t".into(),
        request_id: parse("1"),
    };
    assert_eq!(finish_with_failure(&mut store, gone, 8).status.as_u16(), 200);
    assert!(store.get("gone").is_none());
    assert_eq!(store.len(), 2);
}

#[test]
fn evict_oldest_terminal_removes_completed() {
    let mut tasks = TaskMap::new();
    tasks.insert(record("old-done", TaskStatus::Completed, 1));
    tasks.insert(record("working", TaskStatus::Working, 0));
    evict_oldest_terminal(&mut tasks);
    assert!(tasks.contains_key("working"));
    assert!(!tasks.contains_key("old-done"));
}

#[test]
fn eviction_takes_the_oldest_that_is_over() {
    let mut tasks = TaskMap::new();
    tasks.insert(record("w", TaskStatus::Working, 0));
    tasks.insert(record("f", TaskStatus::Failed, 3));
    tasks.insert(record("c", TaskStatus::Completed, 2));
    tasks.insert(record("late", TaskStatus::Completed, 9));
    evict_oldest_terminal(&mut tasks);
    assert!(!tasks.contains_key("c"));
    evict_oldest_terminal(&mut tasks);
    assert!(!tasks.contains_key("f"));
    evict_oldest_terminal(&mut tasks);
    assert!(!tasks.contains_key("late"));
    evict_oldest_terminal(&mut tasks);
    assert_eq!(tasks.len(), 1);
    assert!(tasks.contains_key("w"));
}

#[test]
fn task_map_keeps_one_record_for_an_id() {
    let mut tasks = TaskMap::new();
    tasks.insert(record("a", TaskStatus::Working, 1));
    tasks.insert(record("b", TaskStatus::Working, 1));
    tasks.insert(record("a", TaskStatus::Failed, 2));
    assert_eq!(tasks.len(), 2);
    assert_eq!(tasks.get("a").unwrap().status, TaskStatus::Failed);
    tasks.remove("a");
    tasks.remove("nope");
    assert_eq!(tasks.len(), 1);
    assert!(tasks.get("a").is_none());
}

#[test]
fn the_store_stays_below_its_ceiling() {
    let mut store = TaskStore::new();
    for i in 0..MAX_TASKS {
        assert!(store.reserve(&i.to_string(), i as u64));
    }
    assert_eq!(store.len(), 10_000);
    assert!(!store.reserve("new", 1));
    let step = take_message(&mut store, "t".into(), parse("7"), "new".into(), 1);
    assert_reply(
        answer(step),
        503,
        r#"{"jsonrpc":"2.0","id":7,"error":{"code":-32000,"message":"Task store full — too many in-flight tasks"}}"#,
    );
    assert_eq!(store.len(), 10_000);
    store.fail("5", 50_000);
    store.complete("9", Json::Null, 40_000);
    assert!(store.reserve("new", 1));
    assert!(store.get("9").is_none());
    assert!(store.get("5").is_some());
    assert_eq!(store.get("new").unwrap().status, TaskStatus::Working);
    assert_eq!(store.len(), 10_000);
}

#[test]
fn a_task_that_is_over_is_polled_until_it_makes_room() {
    let poll = |store: &TaskStore, id: &str| {
        let req = request("tasks/get", &format!(r#"{{"id":"{id}"}}"#));
        value(&handle_tasks_get(store, req).body.render())
    };
    let mut store = TaskStore::new();
    let take = |store: &mut TaskStore, id: &str, now: u64| {
        dispatched(take_message(store, "t".into(), parse("7"), id.into(), now))
    };
    let done = take(&mut store, "done", 1);
    let failed = take(&mut store, "failed", 1);
    take(&mut store, "busy", 1);
    assert_eq!(poll(&store, "done")["result"]["status"]["state"], "working");
    let answered = finish_with_response(&mut store, done, "hello", "a", 2);
    finish_with_failure(&mut store, failed, 3);
    let result = value(&answered.body.render())["result"].clone();
    let failure = value(r#"{"id":"failed","status":{"state":"failed"},"artifacts":[]}"#);
    for i in 3..MAX_TASKS {
        take(&mut store, &i.to_string(), 4);
        if i % 1000 == 0 {
            assert_eq!(poll(&store, "done")["result"], result);
            assert_eq!(poll(&store, "failed")["result"], failure);
        }
    }
    take(&mut store, "one more", 5);
    assert_eq!(poll(&store, "done")["error"]["code"], -32001);
    assert_eq!(poll(&store, "failed")["result"], failure);
    take(&mut store, "and another", 5);
    assert_eq!(poll(&store, "failed")["error"]["code"], -32001);
    assert_eq!(poll(&store, "busy")["result"]["status"]["state"], "working");
}

#[test]
fn unix_time_counts_whole_seconds() {
    assert_eq!(unix_time_of(UNIX_EPOCH + Duration::from_millis(12_999)), 12);
    assert_eq!(unix_time_of(UNIX_EPOCH - Duration::from_secs(5)), 0);
    assert!(unix_now() > 1_600_000_000);
}
