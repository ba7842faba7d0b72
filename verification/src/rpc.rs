//! The JSON-RPC endpoint: `message/send` and `tasks/get`, and polling by plain GET.
//!
//! `message/send` takes two steps, between which the agent works on the message:
//! [`handle_rpc`] takes the task on and hands the message out, and
//! [`complete_message_send`] records what came of it and answers the caller.

use crate::auth;
use crate::auth::check_bearer;
use crate::card;
use crate::clock;
use crate::clock::unix_now;
use crate::config;
use crate::config::A2aConfig;
use crate::ids;
use crate::ids::new_uuid;
use crate::json;
use crate::json::{Json, JsonObject, JsonView};
use crate::message;
use crate::message::extract_text;
use crate::tasks;
use crate::tasks::{TaskRecord, TaskStatus, TaskStore, TaskView};
use crate::text::same_text;
use crate::web;
use crate::web::{plain_error, HttpStatus, Reply, ReplyView};
use vstd::prelude::*;
use vstd::string::*;

verus! {

/// A JSON-RPC request.
#[derive(Debug)]
pub struct JsonRpcRequest {
    pub jsonrpc: String,
    pub method: String,
    pub params: Json,
    pub id: Json,
}

impl Clone for JsonRpcRequest {
    fn clone(&self) -> (copy: JsonRpcRequest)
        ensures
            copy.jsonrpc@ == self.jsonrpc@,
            copy.method@ == self.method@,
            copy.params@ == self.params@,
            copy.id@ == self.id@,
    {
        JsonRpcRequest {
            jsonrpc: self.jsonrpc.clone(),
            method: self.method.clone(),
            params: self.params.clone(),
            id: self.id.clone(),
        }
    }
}

/// The protocol version of a request that does not name one.
pub fn default_jsonrpc_version() -> (version: String)
    ensures
        version@ == "2.0"@,
{
    "2.0".to_owned()
}

/// The envelope of a JSON-RPC error.
pub open spec fn error_envelope(id: JsonView, code: int, message: Seq<char>) -> JsonView {
    JsonView::Object(
        Map::empty().insert("jsonrpc"@, JsonView::Text("2.0"@)).insert("id"@, id).insert(
            "error"@,
            JsonView::Object(
                Map::empty().insert("code"@, JsonView::Integer(code)).insert(
                    "message"@,
                    JsonView::Text(message),
                ),
            ),
        ),
    )
}

/// The envelope of a JSON-RPC result.
pub open spec fn result_envelope(id: JsonView, result: JsonView) -> JsonView {
    JsonView::Object(
        Map::empty().insert("jsonrpc"@, JsonView::Text("2.0"@)).insert("id"@, id).insert(
            "result"@,
            result,
        ),
    )
}

/// An answer with a JSON-RPC error.
pub open spec fn error_reply(
    status: HttpStatus,
    id: JsonView,
    code: int,
    message: Seq<char>,
) -> ReplyView {
    ReplyView { status, body: error_envelope(id, code, message) }
}

/// An answer with a JSON-RPC result.
pub open spec fn result_reply(id: JsonView, result: JsonView) -> ReplyView {
    ReplyView { status: HttpStatus::Success, body: result_envelope(id, result) }
}

/// The envelope of a JSON-RPC error.
pub fn rpc_error(id: Json, code: i32, message: &str) -> (envelope: Json)
    ensures
        envelope@ == error_envelope(id@, code as int, message@),
{
    let error: JsonObject = JsonObject::new().with("code", Json::signed(code as i64)).with(
        "message",
        Json::text(message),
    );
    Json::Object(
        JsonObject::new().with("jsonrpc", Json::text("2.0")).with("id", id).with(
            "error",
            Json::Object(error),
        ),
    )
}

/// The envelope of a JSON-RPC result.
pub fn rpc_result(id: Json, result: Json) -> (envelope: Json)
    ensures
        envelope@ == result_envelope(id@, result@),
{
    Json::Object(
        JsonObject::new().with("jsonrpc", Json::text("2.0")).with("id", id).with("result", result),
    )
}

/// A message that the agent is to work on.
#[derive(Debug)]
pub struct PendingMessage {
    /// The task that was taken on for it.
    pub task_id: String,
    /// The session that the agent works in.
    pub session_id: String,
    pub text: String,
    /// The id of the request that is to be answered.
    pub request_id: Json,
}

/// The mathematical model of a pending message.
#[verifier::ext_equal]
pub struct PendingView {
    pub task_id: Seq<char>,
    pub session_id: Seq<char>,
    pub text: Seq<char>,
    pub request_id: JsonView,
}

impl View for PendingMessage {
    type V = PendingView;

    open spec fn view(&self) -> PendingView {
        PendingView {
            task_id: self.task_id@,
            session_id: self.session_id@,
            text: self.text@,
            request_id: self.request_id@,
        }
    }
}

/// What comes of a request: an answer, or a message that the agent is to work on
/// first.
#[derive(Debug)]
pub enum RpcStep {
    Answer(Reply),
    Dispatch(PendingMessage),
}

/// The mathematical model of what comes of a request.
#[verifier::ext_equal]
pub enum StepView {
    Answer(ReplyView),
    Dispatch(PendingView),
}

impl View for RpcStep {
    type V = StepView;

    open spec fn view(&self) -> StepView {
        match self {
            RpcStep::Answer(reply) => StepView::Answer(reply@),
            RpcStep::Dispatch(pending) => StepView::Dispatch(pending@),
        }
    }
}

/// The message of a task that has been taken on.
pub open spec fn pending_message(
    task_id: Seq<char>,
    text: Seq<char>,
    request_id: JsonView,
) -> PendingView {
    PendingView { task_id, session_id: "a2a-"@ + task_id, text, request_id }
}

/// Whether a message was taken on as it should be under the given id. Where the store
/// has room, the task is working and the message goes to the agent; else nothing changes
/// and the caller is told so.
pub open spec fn message_taken(
    before: Map<Seq<char>, TaskView>,
    after: Map<Seq<char>, TaskView>,
    text: Seq<char>,
    request_id: JsonView,
    task_id: Seq<char>,
    now: u64,
    step: StepView,
) -> bool {
    if tasks::has_room(before) {
        &&& tasks::reserved(before, after, task_id, now)
        &&& step == StepView::Dispatch(pending_message(task_id, text, request_id))
    } else {
        &&& after == before
        &&& step == StepView::Answer(
            error_reply(
                HttpStatus::ServiceUnavailable,
                request_id,
                -32000,
                "Task store full — too many in-flight tasks"@,
            ),
        )
    }
}

/// Whether a message was taken on as it should be, under some fresh task id and at the
/// time of some clock reading.
pub open spec fn freshly_taken(
    before: Map<Seq<char>, TaskView>,
    after: Map<Seq<char>, TaskView>,
    text: Seq<char>,
    request_id: JsonView,
    step: StepView,
) -> bool {
    exists|task_id: Seq<char>, time: std::time::SystemTime|
        ids::is_random_uuid(task_id) && #[trigger] message_taken(
            before,
            after,
            text,
            request_id,
            task_id,
            clock::unix_secs(time),
            step,
        )
}

/// Whether `message/send` was handled as it should be: a message without text is
/// refused, and any other is taken on under a fresh task id.
pub open spec fn message_send_handled(
    before: Map<Seq<char>, TaskView>,
    after: Map<Seq<char>, TaskView>,
    params: JsonView,
    request_id: JsonView,
    step: StepView,
) -> bool {
    match message::message_text(params) {
        Some(text) => freshly_taken(before, after, text, request_id, step),
        None => {
            &&& after == before
            &&& step == StepView::Answer(
                error_reply(
                    HttpStatus::Success,
                    request_id,
                    -32602,
                    "Invalid params: missing message text"@,
                ),
            )
        },
    }
}

/// Takes a message on under a given task id, at a given time.
pub fn take_message(
    store: &mut TaskStore,
    text: String,
    request_id: Json,
    task_id: String,
    now: u64,
) -> (step: RpcStep)
    ensures
        message_taken(old(store)@, final(store)@, text@, request_id@, task_id@, now, step@),
{
    if !store.reserve(task_id.as_str(), now) {
        return RpcStep::Answer(
            Reply {
                status: HttpStatus::ServiceUnavailable,
                body: rpc_error(request_id, -32000, "Task store full — too many in-flight tasks"),
            },
        );
    }
    let session_id: String = "a2a-".to_owned().concat(task_id.as_str());
    RpcStep::Dispatch(PendingMessage { task_id, session_id, text, request_id })
}

/// `message/send`, up to the point where the agent has to work.
pub fn handle_message_send(store: &mut TaskStore, req: JsonRpcRequest) -> (step: RpcStep)
    ensures
        message_send_handled(old(store)@, final(store)@, req.params@, req.id@, step@),
{
    match extract_text(&req.params) {
        Some(text) => {
            let task_id: String = new_uuid();
            let now: u64 = unix_now();
            let step: RpcStep = take_message(store, text, req.id, task_id, now);
            proof {
                let time = choose|time: std::time::SystemTime| now == #[trigger] clock::unix_secs(
                    time,
                );
                assert(message_taken(
                    old(store)@,
                    store@,
                    text@,
                    req.id@,
                    task_id@,
                    clock::unix_secs(time),
                    step@,
                ));
                assert(freshly_taken(old(store)@, store@, text@, req.id@, step@));
            }
            step
        },
        None => RpcStep::Answer(
            Reply {
                status: HttpStatus::Success,
                body: rpc_error(req.id, -32602, "Invalid params: missing message text"),
            },
        ),
    }
}

/// The artifact that holds the agent's response.
pub open spec fn response_artifact(artifact_id: Seq<char>, response: Seq<char>) -> JsonView {
    JsonView::Object(
        Map::empty().insert("artifactId"@, JsonView::Text(artifact_id)).insert(
            "name"@,
            JsonView::Text("response"@),
        ).insert(
            "parts"@,
            JsonView::Array(
                seq![
                    JsonView::Object(
                        Map::empty().insert("kind"@, JsonView::Text("text"@)).insert(
                            "text"@,
                            JsonView::Text(response),
                        ),
                    ),
                ],
            ),
        ),
    )
}

/// The result of a request about a task: its id, its state and its artifacts.
pub open spec fn task_result(
    task_id: Seq<char>,
    state: Seq<char>,
    artifacts: Seq<JsonView>,
) -> JsonView {
    JsonView::Object(
        Map::empty().insert("id"@, JsonView::Text(task_id)).insert(
            "status"@,
            JsonView::Object(Map::empty().insert("state"@, JsonView::Text(state))),
        ).insert("artifacts"@, JsonView::Array(artifacts)),
    )
}

/// The result of a message that the agent failed on.
pub open spec fn failure_result(task_id: Seq<char>) -> JsonView {
    JsonView::Object(
        Map::empty().insert("id"@, JsonView::Text(task_id)).insert(
            "status"@,
            JsonView::Object(
                Map::empty().insert("state"@, JsonView::Text("failed"@)).insert(
                    "message"@,
                    JsonView::Text("Internal processing error"@),
                ),
            ),
        ),
    )
}

/// Whether a response was recorded and answered as it should be, with this artifact
/// id and time.
pub open spec fn message_responded(
    before: Map<Seq<char>, TaskView>,
    after: Map<Seq<char>, TaskView>,
    pending: PendingView,
    response: Seq<char>,
    artifact_id: Seq<char>,
    now: u64,
    reply: ReplyView,
) -> bool {
    let artifact = response_artifact(artifact_id, response);
    &&& after == tasks::with_completed(before, pending.task_id, artifact, now)
    &&& reply == result_reply(
        pending.request_id,
        task_result(pending.task_id, "completed"@, seq![artifact]),
    )
}

/// Whether a failure was recorded and answered as it should be, at this time.
pub open spec fn message_failed(
    before: Map<Seq<char>, TaskView>,
    after: Map<Seq<char>, TaskView>,
    pending: PendingView,
    now: u64,
    reply: ReplyView,
) -> bool {
    &&& after == tasks::with_failed(before, pending.task_id, now)
    &&& reply == result_reply(pending.request_id, failure_result(pending.task_id))
}

/// The artifact that holds the agent's response.
fn make_artifact(artifact_id: &str, response: &str) -> (artifact: Json)
    ensures
        artifact@ == response_artifact(artifact_id@, response@),
{
    let part: JsonObject = JsonObject::new().with("kind", Json::text("text")).with(
        "text",
        Json::text(response),
    );
    Json::Object(
        JsonObject::new().with("artifactId", Json::text(artifact_id)).with(
            "name",
            Json::text("response"),
        ).with("parts", Json::singleton(Json::Object(part))),
    )
}

/// Records the agent's response under a given artifact id, at a given time, and
/// answers the caller.
pub fn finish_with_response(
    store: &mut TaskStore,
    pending: PendingMessage,
    response: &str,
    artifact_id: &str,
    now: u64,
) -> (reply: Reply)
    ensures
        message_responded(
            old(store)@,
            final(store)@,
            pending@,
            response@,
            artifact_id@,
            now,
            reply@,
        ),
{
    let artifact: Json = make_artifact(artifact_id, response);
    store.complete(pending.task_id.as_str(), artifact.clone(), now);
    let status: JsonObject = JsonObject::new().with("state", Json::text("completed"));
    let result: JsonObject = JsonObject::new().with("id", Json::Text(pending.task_id)).with(
        "status",
        Json::Object(status),
    ).with("artifacts", Json::singleton(artifact));
    Reply {
        status: HttpStatus::Success,
        body: rpc_result(pending.request_id, Json::Object(result)),
    }
}

/// Records that the agent failed, at a given time, and answers the caller.
pub fn finish_with_failure(store: &mut TaskStore, pending: PendingMessage, now: u64) -> (reply:
    Reply)
    ensures
        message_failed(old(store)@, final(store)@, pending@, now, reply@),
{
    store.fail(pending.task_id.as_str(), now);
    let status: JsonObject = JsonObject::new().with("state", Json::text("failed")).with(
        "message",
        Json::text("Internal processing error"),
    );
    let result: JsonObject = JsonObject::new().with("id", Json::Text(pending.task_id)).with(
        "status",
        Json::Object(status),
    );
    Reply {
        status: HttpStatus::Success,
        body: rpc_result(pending.request_id, Json::Object(result)),
    }
}

/// `message/send`, once the agent has worked: `response` is what it responded, and
/// `None` where it failed.
pub fn complete_message_send(
    store: &mut TaskStore,
    pending: PendingMessage,
    response: Option<String>,
) -> (reply: Reply)
    ensures
        match response {
            Some(text) => exists|artifact_id: Seq<char>, time: std::time::SystemTime|
                ids::is_random_uuid(artifact_id) && #[trigger] message_responded(
                    old(store)@,
                    final(store)@,
                    pending@,
                    text@,
                    artifact_id,
                    clock::unix_secs(time),
                    reply@,
                ),
            None => exists|time: std::time::SystemTime| #[trigger]
                message_failed(
                    old(store)@,
                    final(store)@,
                    pending@,
                    clock::unix_secs(time),
                    reply@,
                ),
        },
{
    match response {
        Some(text) => {
            let artifact_id: String = new_uuid();
            let now: u64 = unix_now();
            let reply: Reply = finish_with_response(
                store,
                pending,
                text.as_str(),
                artifact_id.as_str(),
                now,
            );
            proof {
                let time = choose|time: std::time::SystemTime| now == #[trigger] clock::unix_secs(
                    time,
                );
                assert(message_responded(
                    old(store)@,
                    store@,
                    pending@,
                    text@,
                    artifact_id@,
                    clock::unix_secs(time),
                    reply@,
                ));
            }
            reply
        },
        None => {
            let now: u64 = unix_now();
            let reply: Reply = finish_with_failure(store, pending, now);
            proof {
                let time = choose|time: std::time::SystemTime| now == #[trigger] clock::unix_secs(
                    time,
                );
                assert(message_failed(
                    old(store)@,
                    store@,
                    pending@,
                    clock::unix_secs(time),
                    reply@,
                ));
            }
            reply
        },
    }
}

/// The answer to `tasks/get`.
pub open spec fn tasks_get_reply(
    tasks: Map<Seq<char>, TaskView>,
    params: JsonView,
    request_id: JsonView,
) -> ReplyView {
    let task_id = params.text_member_or("id"@, ""@);
    if task_id.len() == 0 {
        error_reply(
            HttpStatus::Success,
            request_id,
            -32602,
            "Invalid params: missing task id"@,
        )
    } else if tasks.contains_key(task_id) {
        let task = tasks[task_id];
        result_reply(request_id, task_result(task.id, task.status.name(), task.artifacts))
    } else {
        error_reply(HttpStatus::Success, request_id, -32001, "Task not found"@)
    }
}

/// The result of a request about a task.
fn make_task_result(task: &TaskRecord) -> (result: Json)
    ensures
        result@ == task_result(task@.id, task@.status.name(), task@.artifacts),
{
    let status: JsonObject = JsonObject::new().with("state", Json::text(task.status.as_str()));
    Json::Object(
        JsonObject::new().with("id", Json::text(task.id.as_str())).with(
            "status",
            Json::Object(status),
        ).with("artifacts", Json::Array(json::clone_items(&task.artifacts))),
    )
}

/// `tasks/get`: how far a task has come that was taken on before.
pub fn handle_tasks_get(store: &TaskStore, req: JsonRpcRequest) -> (reply: Reply)
    ensures
        reply@ == tasks_get_reply(store@, req.params@, req.id@),
{
    let task_id: &str = match req.params.get("id") {
        Some(member) => match member.as_str() {
            Some(s) => s,
            None => "",
        },
        None => "",
    };
    let body: Json = if task_id.is_empty() {
        rpc_error(req.id, -32602, "Invalid params: missing task id")
    } else {
        match store.get(task_id) {
            Some(task) => rpc_result(req.id, make_task_result(task)),
            None => rpc_error(req.id, -32001, "Task not found"),
        }
    };
    Reply { status: HttpStatus::Success, body }
}

/// The answer to a request that goes to no method: the protocol is off, the caller does
/// not present the token, or the method is unknown.
pub open spec fn refusal(
    config: A2aConfig,
    authorization: Option<Seq<u8>>,
    method: Seq<char>,
    request_id: JsonView,
) -> Option<ReplyView> {
    if !config.enabled {
        Some(error_reply(HttpStatus::NotFound, request_id, -32601, "A2A disabled"@))
    } else if !auth::bearer_accepted(authorization, config::text_view(config.bearer_token)) {
        Some(error_reply(HttpStatus::Unauthorized, request_id, -32001, "Unauthorized"@))
    } else if method != "message/send"@ && method != "tasks/get"@ {
        Some(
            error_reply(
                HttpStatus::Success,
                request_id,
                -32601,
                "Method not found: "@ + method,
            ),
        )
    } else {
        None
    }
}

/// Whether a request was handled as it should be: it is refused and leaves the store as
/// it is, or it goes to its method.
pub open spec fn rpc_handled(
    config: A2aConfig,
    authorization: Option<Seq<u8>>,
    before: Map<Seq<char>, TaskView>,
    after: Map<Seq<char>, TaskView>,
    method: Seq<char>,
    params: JsonView,
    request_id: JsonView,
    step: StepView,
) -> bool {
    match refusal(config, authorization, method, request_id) {
        Some(reply) => {
            &&& after == before
            &&& step == StepView::Answer(reply)
        },
        None => if method == "message/send"@ {
            message_send_handled(before, after, params, request_id, step)
        } else {
            &&& after == before
            &&& step == StepView::Answer(tasks_get_reply(before, params, request_id))
        },
    }
}

/// The token that callers must present.
fn expected_token(config: &A2aConfig) -> (token: Option<&str>)
    ensures
        config::text_view(config.bearer_token) == (match token {
            Some(s) => Some(s@),
            None => None,
        }),
{
    match &config.bearer_token {
        Some(s) => Some(s.as_str()),
        None => None,
    }
}

/// Where a request goes: it is answered without a look at the tasks, or goes to one of
/// the methods.
#[derive(Debug)]
pub enum RpcRoute {
    Answer(Reply),
    MessageSend(JsonRpcRequest),
    TasksGet(JsonRpcRequest),
}

/// Decides where a request goes, without the tasks.
pub fn route_rpc(
    config: &A2aConfig,
    headers: &axum::http::HeaderMap,
    req: JsonRpcRequest,
) -> (route: RpcRoute)
    ensures
        refusal(*config, web::authorization_of(*headers), req.method@, req.id@) == (match route {
            RpcRoute::Answer(reply) => Some(reply@),
            _ => None,
        }),
        route matches RpcRoute::MessageSend(routed) ==> routed == req && req.method@
            == "message/send"@,
        route matches RpcRoute::TasksGet(routed) ==> routed == req && req.method@ == "tasks/get"@,
{
    if !config.enabled {
        return RpcRoute::Answer(
            Reply {
                status: HttpStatus::NotFound,
                body: rpc_error(req.id, -32601, "A2A disabled"),
            },
        );
    }
    if let Err(status) = check_bearer(headers, expected_token(config)) {
        return RpcRoute::Answer(
            Reply { status, body: rpc_error(req.id, -32001, "Unauthorized") },
        );
    }
    if same_text(req.method.as_str(), "message/send") {
        RpcRoute::MessageSend(req)
    } else if same_text(req.method.as_str(), "tasks/get") {
        RpcRoute::TasksGet(req)
    } else {
        let message: String = "Method not found: ".to_owned().concat(req.method.as_str());
        RpcRoute::Answer(
            Reply {
                status: HttpStatus::Success,
                body: rpc_error(req.id, -32601, message.as_str()),
            },
        )
    }
}

/// `POST /a2a/v1/rpc`.
pub fn handle_rpc(
    config: &A2aConfig,
    headers: &axum::http::HeaderMap,
    store: &mut TaskStore,
    req: JsonRpcRequest,
) -> (step: RpcStep)
    ensures
        rpc_handled(
            *config,
            web::authorization_of(*headers),
            old(store)@,
            final(store)@,
            req.method@,
            req.params@,
            req.id@,
            step@,
        ),
{
    match route_rpc(config, headers, req) {
        RpcRoute::Answer(reply) => RpcStep::Answer(reply),
        RpcRoute::MessageSend(req) => handle_message_send(store, req),
        RpcRoute::TasksGet(req) => {
            proof {
                reveal_strlit("message/send");
                reveal_strlit("tasks/get");
                assert("message/send"@.len() != "tasks/get"@.len());
            }
            RpcStep::Answer(handle_tasks_get(store, req))
        },
    }
}

/// The answer to polling a task by plain GET.
pub open spec fn task_get_rest_reply(
    config: A2aConfig,
    authorization: Option<Seq<u8>>,
    tasks: Map<Seq<char>, TaskView>,
    task_id: Seq<char>,
) -> ReplyView {
    if !config.enabled {
        ReplyView { status: HttpStatus::NotFound, body: web::error_body("A2A disabled"@) }
    } else if !auth::bearer_accepted(authorization, config::text_view(config.bearer_token)) {
        ReplyView { status: HttpStatus::Unauthorized, body: web::error_body("unauthorized"@) }
    } else if tasks.contains_key(task_id) {
        ReplyView { status: HttpStatus::Success, body: tasks[task_id].json() }
    } else {
        ReplyView { status: HttpStatus::NotFound, body: web::error_body("task not found"@) }
    }
}

/// `GET /a2a/v1/tasks/{id}`: polling without the JSON-RPC envelope, for use from a
/// shell.
pub fn handle_task_get_rest(
    config: &A2aConfig,
    headers: &axum::http::HeaderMap,
    store: &TaskStore,
    task_id: &str,
) -> (reply: Reply)
    ensures
        reply@ == task_get_rest_reply(
            *config,
            web::authorization_of(*headers),
            store@,
            task_id@,
        ),
{
    if !config.enabled {
        return Reply { status: HttpStatus::NotFound, body: plain_error("A2A disabled") };
    }
    if let Err(status) = check_bearer(headers, expected_token(config)) {
        return Reply { status, body: plain_error("unauthorized") };
    }
    match store.get(task_id) {
        Some(task) => Reply { status: HttpStatus::Success, body: task.to_json() },
        None => Reply { status: HttpStatus::NotFound, body: plain_error("task not found") },
    }
}

/// With the protocol off, polling and requests find nothing, and requests leave the
/// store as it is.
pub proof fn law_disabled(
    config: A2aConfig,
    authorization: Option<Seq<u8>>,
    before: Map<Seq<char>, TaskView>,
    after: Map<Seq<char>, TaskView>,
    method: Seq<char>,
    params: JsonView,
    request_id: JsonView,
    step: StepView,
    task_id: Seq<char>,
    package_version: Seq<char>,
)
    requires
        !config.enabled,
        rpc_handled(
            config,
            authorization,
            before,
            after,
            method,
            params,
            request_id,
            step,
        ),
    ensures
        after == before,
        step matches StepView::Answer(reply) && reply.status.code() == 404,
        task_get_rest_reply(config, authorization, before, task_id).status.code() == 404,
        card::agent_card_reply(config, package_version).status.code() == 404,
{
}

/// A caller without the configured token learns nothing and changes nothing: requests
/// and polling are answered alike whatever they ask for, with status 401.
pub proof fn law_unauthorized(
    config: A2aConfig,
    authorization: Option<Seq<u8>>,
    before: Map<Seq<char>, TaskView>,
    after: Map<Seq<char>, TaskView>,
    method: Seq<char>,
    params: JsonView,
    request_id: JsonView,
    step: StepView,
    task_id: Seq<char>,
)
    requires
        config.enabled,
        !auth::bearer_accepted(authorization, config::text_view(config.bearer_token)),
        rpc_handled(
            config,
            authorization,
            before,
            after,
            method,
            params,
            request_id,
            step,
        ),
    ensures
        after == before,
        step == StepView::Answer(
            error_reply(HttpStatus::Unauthorized, request_id, -32001, "Unauthorized"@),
        ),
        HttpStatus::Unauthorized.code() == 401,
        task_get_rest_reply(config, authorization, before, task_id) == (ReplyView {
            status: HttpStatus::Unauthorized,
            body: web::error_body("unauthorized"@),
        }),
{
}

/// Only `message/send` with a text, from a caller that is let in, changes the store.
pub proof fn law_store_changes(
    config: A2aConfig,
    authorization: Option<Seq<u8>>,
    before: Map<Seq<char>, TaskView>,
    after: Map<Seq<char>, TaskView>,
    method: Seq<char>,
    params: JsonView,
    request_id: JsonView,
    step: StepView,
)
    requires
        rpc_handled(
            config,
            authorization,
            before,
            after,
            method,
            params,
            request_id,
            step,
        ),
        after != before,
    ensures
        config.enabled,
        auth::bearer_accepted(authorization, config::text_view(config.bearer_token)),
        method == "message/send"@,
        message::message_text(params) is Some,
        tasks::has_room(before),
        step is Dispatch,
{
}

/// The keys of an envelope are of different lengths.
proof fn lemma_envelope_keys()
    ensures
        "jsonrpc"@.len() == 7,
        "id"@.len() == 2,
        "error"@.len() == 5,
        "result"@.len() == 6,
{
    reveal_strlit("jsonrpc");
    reveal_strlit("id");
    reveal_strlit("error");
    reveal_strlit("result");
}

/// The members of an error envelope, and that it has no result.
proof fn lemma_error_envelope(id: JsonView, code: int, message: Seq<char>)
    ensures
        error_envelope(id, code, message).get("jsonrpc"@) == Some(JsonView::Text("2.0"@)),
        error_envelope(id, code, message).get("id"@) == Some(id),
        error_envelope(id, code, message).get("error"@) == Some(
            JsonView::Object(
                Map::empty().insert("code"@, JsonView::Integer(code)).insert(
                    "message"@,
                    JsonView::Text(message),
                ),
            ),
        ),
        error_envelope(id, code, message).get("result"@) is None,
{
    lemma_envelope_keys();
}

/// The members of a result envelope, and that it has no error.
pub(crate) proof fn lemma_result_envelope(id: JsonView, result: JsonView)
    ensures
        result_envelope(id, result).get("jsonrpc"@) == Some(JsonView::Text("2.0"@)),
        result_envelope(id, result).get("id"@) == Some(id),
        result_envelope(id, result).get("result"@) == Some(result),
        result_envelope(id, result).get("error"@) is None,
{
    lemma_envelope_keys();
}

/// Whether a body is a JSON-RPC 2.0 envelope for a request: it gives the request's id
/// back and has either a result or an error.
pub open spec fn enveloped(body: JsonView, request_id: JsonView) -> bool {
    &&& body.get("jsonrpc"@) == Some(JsonView::Text("2.0"@))
    &&& body.get("id"@) == Some(request_id)
    &&& body.get("result"@) is Some <==> body.get("error"@) is None
}

/// Every answer to a request is a JSON-RPC 2.0 envelope for it, whether it is given at
/// once, after the agent has responded, or after the agent has failed.
pub proof fn law_envelope(
    config: A2aConfig,
    authorization: Option<Seq<u8>>,
    before: Map<Seq<char>, TaskView>,
    after: Map<Seq<char>, TaskView>,
    method: Seq<char>,
    params: JsonView,
    request_id: JsonView,
    step: StepView,
    working: Map<Seq<char>, TaskView>,
    finished: Map<Seq<char>, TaskView>,
    response: Seq<char>,
    artifact_id: Seq<char>,
    now: u64,
    reply: ReplyView,
)
    requires
        rpc_handled(
            config,
            authorization,
            before,
            after,
            method,
            params,
            request_id,
            step,
        ),
    ensures
        step matches StepView::Answer(answer) ==> enveloped(answer.body, request_id),
        step matches StepView::Dispatch(pending) ==> {
            &&& message_responded(working, finished, pending, response, artifact_id, now, reply)
                ==> enveloped(reply.body, request_id)
            &&& message_failed(working, finished, pending, now, reply) ==> enveloped(
                reply.body,
                request_id,
            )
        },
{
    assert forall|code: int, text: Seq<char>| enveloped(
        #[trigger] error_envelope(request_id, code, text),
        request_id,
    ) by {
        lemma_error_envelope(request_id, code, text);
    }
    assert forall|result: JsonView| enveloped(
        #[trigger] result_envelope(request_id, result),
        request_id,
    ) by {
        lemma_result_envelope(request_id, result);
    }
}

/// The parameters of `tasks/get` for a task.
pub open spec fn asks_for(params: JsonView, task_id: Seq<char>) -> bool {
    params.get("id"@) == Some(JsonView::Text(task_id))
}

/// A task that was taken on can be polled under its id and is working, for as long as the
/// store is busy with other tasks only: `states` are the tasks from the moment the message
/// is taken on.
pub proof fn law_taken_task_is_working(
    before: Map<Seq<char>, TaskView>,
    states: Seq<Map<Seq<char>, TaskView>>,
    text: Seq<char>,
    request_id: JsonView,
    task_id: Seq<char>,
    now: u64,
    pending: PendingView,
    params: JsonView,
    poll_id: JsonView,
)
    requires
        ids::is_random_uuid(task_id),
        tasks::steps_beside(states, task_id),
        message_taken(
            before,
            states[0],
            text,
            request_id,
            task_id,
            now,
            StepView::Dispatch(pending),
        ),
        asks_for(params, pending.task_id),
    ensures
        tasks_get_reply(states.last(), params, poll_id) == result_reply(
            poll_id,
            task_result(task_id, "working"@, Seq::empty()),
        ),
{
    tasks::law_working_task_stays(states, task_id);
}

/// Polling a task that the agent has responded to gives the result that the sender of
/// the message was given.
pub proof fn law_completed_task_is_polled(
    before: Map<Seq<char>, TaskView>,
    after: Map<Seq<char>, TaskView>,
    pending: PendingView,
    response: Seq<char>,
    artifact_id: Seq<char>,
    now: u64,
    reply: ReplyView,
    params: JsonView,
    poll_id: JsonView,
)
    requires
        tasks::storable(before),
        before.contains_key(pending.task_id),
        pending.task_id.len() > 0,
        message_responded(before, after, pending, response, artifact_id, now, reply),
        asks_for(params, pending.task_id),
    ensures
        tasks_get_reply(after, params, poll_id).body.get("result"@) == reply.body.get("result"@),
        reply.body.get("result"@) == Some(
            task_result(
                pending.task_id,
                "completed"@,
                seq![response_artifact(artifact_id, response)],
            ),
        ),
{
    let result = task_result(
        pending.task_id,
        "completed"@,
        seq![response_artifact(artifact_id, response)],
    );
    lemma_result_envelope(pending.request_id, result);
    lemma_result_envelope(poll_id, result);
}

/// Polling a task that the agent failed on says so, with what artifacts it had.
pub proof fn law_failed_task_is_polled(
    before: Map<Seq<char>, TaskView>,
    after: Map<Seq<char>, TaskView>,
    pending: PendingView,
    now: u64,
    reply: ReplyView,
    params: JsonView,
    poll_id: JsonView,
)
    requires
        tasks::storable(before),
        before.contains_key(pending.task_id),
        pending.task_id.len() > 0,
        message_failed(before, after, pending, now, reply),
        asks_for(params, pending.task_id),
    ensures
        tasks_get_reply(after, params, poll_id) == result_reply(
            poll_id,
            task_result(pending.task_id, "failed"@, before[pending.task_id].artifacts),
        ),
        reply.body.get("result"@) == Some(failure_result(pending.task_id)),
{
    lemma_result_envelope(pending.request_id, failure_result(pending.task_id));
}

/// The answer to polling a task that is over: the result, as long as the store keeps the
/// task, and that there is no such task once it has made room for another.
pub open spec fn polled_while_kept(
    tasks: Map<Seq<char>, TaskView>,
    task_id: Seq<char>,
    poll_id: JsonView,
    result: JsonView,
) -> ReplyView {
    if tasks.contains_key(task_id) {
        result_reply(poll_id, result)
    } else {
        error_reply(HttpStatus::Success, poll_id, -32001, "Task not found"@)
    }
}

/// A message that was taken on is answered with the agent's response, whatever the store
/// does about other tasks in between: `states` are the tasks from the moment the message
/// is taken on to the moment the agent responds. Polling gives the same result from then
/// on, for as long as the store keeps the task: `later` are the tasks from the response on.
pub proof fn law_message_is_answered(
    before: Map<Seq<char>, TaskView>,
    states: Seq<Map<Seq<char>, TaskView>>,
    later: Seq<Map<Seq<char>, TaskView>>,
    text: Seq<char>,
    request_id: JsonView,
    task_id: Seq<char>,
    taken_at: u64,
    pending: PendingView,
    response: Seq<char>,
    artifact_id: Seq<char>,
    now: u64,
    reply: ReplyView,
    params: JsonView,
    poll_id: JsonView,
)
    requires
        tasks::storable(before),
        ids::is_random_uuid(task_id),
        tasks::steps_beside(states, task_id),
        message_taken(
            before,
            states[0],
            text,
            request_id,
            task_id,
            taken_at,
            StepView::Dispatch(pending),
        ),
        tasks::steps_beside(later, task_id),
        message_responded(states.last(), later[0], pending, response, artifact_id, now, reply),
        asks_for(params, task_id),
    ensures
        ({
            let result = task_result(
                task_id,
                "completed"@,
                seq![response_artifact(artifact_id, response)],
            );
            &&& reply == result_reply(request_id, result)
            &&& later[0].contains_key(task_id)
            &&& tasks_get_reply(later.last(), params, poll_id) == polled_while_kept(
                later.last(),
                task_id,
                poll_id,
                result,
            )
        }),
{
    tasks::law_storable(before, states[0], task_id, JsonView::Null, taken_at);
    tasks::law_working_task_stays(states, task_id);
    if later.last().contains_key(task_id) {
        tasks::law_kept_task_is_unchanged(later, task_id);
    }
}

/// A message that was taken on and that the agent fails on is answered with the failure,
/// whatever the store does about other tasks in between, and polling says from then on
/// that it failed, without artifacts, for as long as the store keeps the task. `states` and
/// `later` are the tasks up to the failure and from it on.
pub proof fn law_failure_is_answered(
    before: Map<Seq<char>, TaskView>,
    states: Seq<Map<Seq<char>, TaskView>>,
    later: Seq<Map<Seq<char>, TaskView>>,
    text: Seq<char>,
    request_id: JsonView,
    task_id: Seq<char>,
    taken_at: u64,
    pending: PendingView,
    now: u64,
    reply: ReplyView,
    params: JsonView,
    poll_id: JsonView,
)
    requires
        tasks::storable(before),
        ids::is_random_uuid(task_id),
        tasks::steps_beside(states, task_id),
        message_taken(
            before,
            states[0],
            text,
            request_id,
            task_id,
            taken_at,
            StepView::Dispatch(pending),
        ),
        tasks::steps_beside(later, task_id),
        message_failed(states.last(), later[0], pending, now, reply),
        asks_for(params, task_id),
    ensures
        reply == result_reply(request_id, failure_result(task_id)),
        later[0].contains_key(task_id),
        tasks_get_reply(later.last(), params, poll_id) == polled_while_kept(
            later.last(),
            task_id,
            poll_id,
            task_result(task_id, "failed"@, Seq::empty()),
        ),
{
    tasks::law_storable(before, states[0], task_id, JsonView::Null, taken_at);
    tasks::law_working_task_stays(states, task_id);
    if later.last().contains_key(task_id) {
        tasks::law_kept_task_is_unchanged(later, task_id);
    }
}

/// Whatever is done with a request is a step beside every task but the one that it is
/// about: a request that is answered at once changes nothing, and one that is taken on,
/// and later responded to or failed on, is about its own task.
pub proof fn law_requests_are_steps(
    config: A2aConfig,
    authorization: Option<Seq<u8>>,
    before: Map<Seq<char>, TaskView>,
    after: Map<Seq<char>, TaskView>,
    method: Seq<char>,
    params: JsonView,
    request_id: JsonView,
    step: StepView,
    pending: PendingView,
    response: Seq<char>,
    artifact_id: Seq<char>,
    now: u64,
    reply: ReplyView,
    id: Seq<char>,
)
    requires
        step matches StepView::Dispatch(taken) ==> taken.task_id != id,
        pending.task_id != id,
    ensures
        rpc_handled(
            config,
            authorization,
            before,
            after,
            method,
            params,
            request_id,
            step,
        ) ==> tasks::step_beside(before, after, id),
        message_responded(before, after, pending, response, artifact_id, now, reply)
            ==> tasks::step_beside(before, after, id),
        message_failed(before, after, pending, now, reply) ==> tasks::step_beside(
            before,
            after,
            id,
        ),
{
}

/// The two ways of polling a task agree on its id, its state and its artifacts. Where
/// there is no such task, plain polling finds nothing and `tasks/get` says so: the one is
/// answered with 404 just where the other is with the error -32001.
pub proof fn law_polling_agrees(
    config: A2aConfig,
    authorization: Option<Seq<u8>>,
    tasks: Map<Seq<char>, TaskView>,
    task_id: Seq<char>,
    params: JsonView,
    poll_id: JsonView,
)
    requires
        config.enabled,
        auth::bearer_accepted(authorization, config::text_view(config.bearer_token)),
        asks_for(params, task_id),
        task_id.len() > 0,
    ensures
        ({
            let rest = task_get_rest_reply(config, authorization, tasks, task_id);
            let rpc = tasks_get_reply(tasks, params, poll_id);
            &&& rest.status == HttpStatus::Success <==> tasks.contains_key(task_id)
            &&& tasks.contains_key(task_id) ==> {
                let task = tasks[task_id];
                &&& rest.body.get("id"@) == Some(JsonView::Text(task.id))
                &&& rest.body.get("status"@) == Some(JsonView::Text(task.status.name()))
                &&& rest.body.get("artifacts"@) == Some(JsonView::Array(task.artifacts))
                &&& rpc.body.get("result"@) == Some(
                    task_result(task.id, task.status.name(), task.artifacts),
                )
            }
            &&& !tasks.contains_key(task_id) ==> rpc.body.get("result"@) is None
            &&& rest.status.code() == 404 <==> (rpc.body.get("error"@) matches Some(error)
                && error.get("code"@) == Some(JsonView::Integer(-32001)))
        }),
{
    lemma_error_envelope(poll_id, -32001, "Task not found"@);
    reveal_strlit("code");
    reveal_strlit("message");
    assert("code"@.len() == 4 && "message"@.len() == 7);
    if tasks.contains_key(task_id) {
        let task = tasks[task_id];
        lemma_result_envelope(
            poll_id,
            task_result(task.id, task.status.name(), task.artifacts),
        );
        reveal_strlit("id");
        reveal_strlit("status");
        reveal_strlit("artifacts");
        reveal_strlit("updated_at");
        assert("id"@.len() == 2 && "status"@.len() == 6 && "artifacts"@.len() == 9
            && "updated_at"@.len() == 10);
    }
}

/// Whether an answer is a JSON-RPC error and nothing else, with this status, code and
/// message, for the request with this id.
pub open spec fn says_error(
    reply: ReplyView,
    status: int,
    request_id: JsonView,
    code: int,
    message: Seq<char>,
) -> bool {
    &&& reply.status.code() == status
    &&& reply.body.get("jsonrpc"@) == Some(JsonView::Text("2.0"@))
    &&& reply.body.get("id"@) == Some(request_id)
    &&& reply.body.get("error"@) matches Some(error) && {
        &&& error.get("code"@) == Some(JsonView::Integer(code))
        &&& error.get("message"@) == Some(JsonView::Text(message))
        &&& forall|key: Seq<char>| #[trigger]
            error.get(key) is Some ==> key == "code"@ || key == "message"@
    }
    &&& forall|key: Seq<char>| #[trigger]
        reply.body.get(key) is Some ==> key == "jsonrpc"@ || key == "id"@ || key == "error"@
}

/// Whether an answer is a JSON-RPC result and nothing else, for the request with this id.
pub open spec fn says_result(reply: ReplyView, request_id: JsonView, result: JsonView) -> bool {
    &&& reply.status.code() == 200
    &&& reply.body.get("jsonrpc"@) == Some(JsonView::Text("2.0"@))
    &&& reply.body.get("id"@) == Some(request_id)
    &&& reply.body.get("result"@) == Some(result)
    &&& forall|key: Seq<char>| #[trigger]
        reply.body.get(key) is Some ==> key == "jsonrpc"@ || key == "id"@ || key == "result"@
}

/// Whether a value is what is told of a task: its id, its state and its artifacts, and
/// nothing else.
pub open spec fn tells_task(
    result: JsonView,
    task_id: Seq<char>,
    state: Seq<char>,
    artifacts: Seq<JsonView>,
) -> bool {
    &&& result.get("id"@) == Some(JsonView::Text(task_id))
    &&& result.get("status"@) matches Some(status) && {
        &&& status.get("state"@) == Some(JsonView::Text(state))
        &&& forall|key: Seq<char>| #[trigger] status.get(key) is Some ==> key == "state"@
    }
    &&& result.get("artifacts"@) == Some(JsonView::Array(artifacts))
    &&& forall|key: Seq<char>| #[trigger]
        result.get(key) is Some ==> key == "id"@ || key == "status"@ || key == "artifacts"@
}

/// The keys of errors, results, tasks and artifacts are different texts.
proof fn lemma_reply_keys()
    ensures
        "jsonrpc"@.len() == 7,
        "id"@.len() == 2,
        "error"@.len() == 5,
        "result"@.len() == 6,
        "code"@.len() == 4,
        "message"@.len() == 7,
        "status"@.len() == 6,
        "artifacts"@.len() == 9,
        "state"@.len() == 5,
        "artifactId"@.len() == 10,
        "name"@.len() == 4,
        "parts"@.len() == 5,
        "kind"@.len() == 4,
        "text"@.len() == 4,
        "kind"@ != "text"@,
{
    lemma_envelope_keys();
    reveal_strlit("code");
    reveal_strlit("message");
    reveal_strlit("status");
    reveal_strlit("artifacts");
    reveal_strlit("state");
    reveal_strlit("artifactId");
    reveal_strlit("name");
    reveal_strlit("parts");
    reveal_strlit("kind");
    reveal_strlit("text");
    assert("kind"@[0] != "text"@[0]);
}

proof fn lemma_says_error(
    status: HttpStatus,
    request_id: JsonView,
    code: int,
    message: Seq<char>,
)
    ensures
        says_error(
            error_reply(status, request_id, code, message),
            status.code() as int,
            request_id,
            code,
            message,
        ),
{
    lemma_reply_keys();
    lemma_error_envelope(request_id, code, message);
}

proof fn lemma_says_result(request_id: JsonView, result: JsonView)
    ensures
        says_result(result_reply(request_id, result), request_id, result),
{
    lemma_reply_keys();
}

proof fn lemma_tells_task(task_id: Seq<char>, state: Seq<char>, artifacts: Seq<JsonView>)
    ensures
        tells_task(task_result(task_id, state, artifacts), task_id, state, artifacts),
{
    lemma_reply_keys();
}

/// What a request that is not served is answered, and that it changes nothing: with the
/// protocol off, without the configured token, for a method that there is none of, for a
/// message without a text, and where the store can take no more tasks.
pub proof fn law_refusals(
    config: A2aConfig,
    authorization: Option<Seq<u8>>,
    before: Map<Seq<char>, TaskView>,
    after: Map<Seq<char>, TaskView>,
    method: Seq<char>,
    params: JsonView,
    request_id: JsonView,
    step: StepView,
)
    requires
        rpc_handled(
            config,
            authorization,
            before,
            after,
            method,
            params,
            request_id,
            step,
        ),
    ensures
        ({
            let accepted = match config.bearer_token {
                Some(token) => auth::bearer_accepted(authorization, Some(token@)),
                None => true,
            };
            &&& step is Answer ==> after == before
            &&& !config.enabled ==> step is Answer && says_error(
                step->Answer_0,
                404,
                request_id,
                -32601,
                "A2A disabled"@,
            )
            &&& config.enabled && !accepted ==> step is Answer && says_error(
                step->Answer_0,
                401,
                request_id,
                -32001,
                "Unauthorized"@,
            )
            &&& config.enabled && accepted && method != "message/send"@ && method != "tasks/get"@
                ==> step is Answer && says_error(
                step->Answer_0,
                200,
                request_id,
                -32601,
                "Method not found: "@ + method,
            )
            &&& config.enabled && accepted && method == "message/send"@ && message::message_text(
                params,
            ) is None ==> step is Answer && says_error(
                step->Answer_0,
                200,
                request_id,
                -32602,
                "Invalid params: missing message text"@,
            )
            &&& config.enabled && accepted && method == "message/send"@ && message::message_text(
                params,
            ) is Some && !tasks::has_room(before) ==> step is Answer && says_error(
                step->Answer_0,
                503,
                request_id,
                -32000,
                "Task store full — too many in-flight tasks"@,
            )
        }),
{
    assert forall|status: HttpStatus, code: int, message: Seq<char>| says_error(
        #[trigger] error_reply(status, request_id, code, message),
        status.code() as int,
        request_id,
        code,
        message,
    ) by {
        lemma_says_error(status, request_id, code, message);
    }
}

/// A message that is served goes to the agent as it was read, in a session of its own, with
/// the id of the request that is to be answered. It is taken on under a fresh id, at the
/// time of some clock reading.
pub proof fn law_dispatch(
    config: A2aConfig,
    authorization: Option<Seq<u8>>,
    before: Map<Seq<char>, TaskView>,
    after: Map<Seq<char>, TaskView>,
    params: JsonView,
    request_id: JsonView,
    step: StepView,
    text: Seq<char>,
)
    requires
        rpc_handled(
            config,
            authorization,
            before,
            after,
            "message/send"@,
            params,
            request_id,
            step,
        ),
        config.enabled,
        config.bearer_token matches Some(token) ==> auth::bearer_accepted(
            authorization,
            Some(token@),
        ),
        message::message_text(params) == Some(text),
        tasks::has_room(before),
    ensures
        step matches StepView::Dispatch(pending) && {
            &&& pending.text == text
            &&& pending.request_id == request_id
            &&& pending.session_id == "a2a-"@ + pending.task_id
            &&& ids::is_random_uuid(pending.task_id)
            &&& exists|time: std::time::SystemTime|
                tasks::reserved(before, after, pending.task_id, #[trigger] clock::unix_secs(time))
        },
{
}

/// The response that the agent gave is answered with 200: the task, completed, with one
/// artifact that holds the response as its only part. The store holds the same artifact.
pub proof fn law_response_reply(
    before: Map<Seq<char>, TaskView>,
    after: Map<Seq<char>, TaskView>,
    pending: PendingView,
    response: Seq<char>,
    artifact_id: Seq<char>,
    now: u64,
    reply: ReplyView,
)
    requires
        message_responded(before, after, pending, response, artifact_id, now, reply),
    ensures
        exists|result: JsonView, artifact: JsonView, part: JsonView|
            {
                &&& #[trigger] says_result(reply, pending.request_id, result)
                &&& #[trigger] tells_task(result, pending.task_id, "completed"@, seq![artifact])
                &&& artifact.get("artifactId"@) == Some(JsonView::Text(artifact_id))
                &&& artifact.get("name"@) == Some(JsonView::Text("response"@))
                &&& artifact.get("parts"@) == Some(JsonView::Array(seq![part]))
                &&& forall|key: Seq<char>| #[trigger]
                    artifact.get(key) is Some ==> key == "artifactId"@ || key == "name"@ || key
                        == "parts"@
                &&& #[trigger] part.get("kind"@) == Some(JsonView::Text("text"@))
                &&& part.get("text"@) == Some(JsonView::Text(response))
                &&& forall|key: Seq<char>| #[trigger]
                    part.get(key) is Some ==> key == "kind"@ || key == "text"@
                &&& before.contains_key(pending.task_id) ==> after[pending.task_id].artifacts
                    == seq![artifact]
            },
        forall|id: Seq<char>| #[trigger] after.contains_key(id) <==> before.contains_key(id),
        forall|id: Seq<char>| #[trigger]
            before.contains_key(id) && id != pending.task_id ==> after[id] == before[id],
        before.contains_key(pending.task_id) ==> after[pending.task_id].status
            == TaskStatus::Completed && after[pending.task_id].updated_at == now,
{
    let artifact = response_artifact(artifact_id, response);
    let result = task_result(pending.task_id, "completed"@, seq![artifact]);
    lemma_reply_keys();
    lemma_says_result(pending.request_id, result);
    lemma_tells_task(pending.task_id, "completed"@, seq![artifact]);
    let part = artifact.get("parts"@)->0->Array_0[0];
    assert(artifact.get("parts"@)->0->Array_0 =~= seq![part]);
    assert(says_result(reply, pending.request_id, result));
    assert(part.get("kind"@) == Some(JsonView::Text("text"@)));
}

/// A message that the agent failed on is answered with 200 and the task, failed, and says no
/// more than that something went wrong inside.
pub proof fn law_failure_reply(
    before: Map<Seq<char>, TaskView>,
    after: Map<Seq<char>, TaskView>,
    pending: PendingView,
    now: u64,
    reply: ReplyView,
)
    requires
        message_failed(before, after, pending, now, reply),
    ensures
        exists|result: JsonView, status: JsonView|
            {
                &&& #[trigger] says_result(reply, pending.request_id, result)
                &&& result.get("id"@) == Some(JsonView::Text(pending.task_id))
                &&& result.get("status"@) == Some(status)
                &&& forall|key: Seq<char>| #[trigger]
                    result.get(key) is Some ==> key == "id"@ || key == "status"@
                &&& #[trigger] status.get("state"@) == Some(JsonView::Text("failed"@))
                &&& status.get("message"@) == Some(JsonView::Text("Internal processing error"@))
                &&& forall|key: Seq<char>| #[trigger]
                    status.get(key) is Some ==> key == "state"@ || key == "message"@
            },
        forall|id: Seq<char>| #[trigger] after.contains_key(id) <==> before.contains_key(id),
        forall|id: Seq<char>| #[trigger]
            before.contains_key(id) && id != pending.task_id ==> after[id] == before[id],
        before.contains_key(pending.task_id) ==> {
            &&& after[pending.task_id].status == TaskStatus::Failed
            &&& after[pending.task_id].updated_at == now
            &&& after[pending.task_id].artifacts == before[pending.task_id].artifacts
        },
{
    let result = failure_result(pending.task_id);
    lemma_reply_keys();
    lemma_says_result(pending.request_id, result);
    let status = result.get("status"@)->0;
    assert(says_result(reply, pending.request_id, result));
    assert(status.get("state"@) == Some(JsonView::Text("failed"@)));
}

/// What polling by `tasks/get` is answered: the task under the id that the parameters name,
/// that there is none, or that no id was named. A request that reaches the method is
/// answered so, and nothing changes.
pub proof fn law_polling(
    config: A2aConfig,
    authorization: Option<Seq<u8>>,
    before: Map<Seq<char>, TaskView>,
    after: Map<Seq<char>, TaskView>,
    params: JsonView,
    request_id: JsonView,
    step: StepView,
)
    requires
        rpc_handled(
            config,
            authorization,
            before,
            after,
            "tasks/get"@,
            params,
            request_id,
            step,
        ),
        config.enabled,
        config.bearer_token matches Some(token) ==> auth::bearer_accepted(
            authorization,
            Some(token@),
        ),
    ensures
        after == before,
        step matches StepView::Answer(reply) && {
            &&& reply == tasks_get_reply(before, params, request_id)
            &&& match params.get("id"@) {
                Some(JsonView::Text(id)) => if id.len() == 0 {
                    says_error(reply, 200, request_id, -32602, "Invalid params: missing task id"@)
                } else if before.contains_key(id) {
                    exists|result: JsonView|
                        {
                            &&& #[trigger] says_result(reply, request_id, result)
                            &&& tells_task(
                                result,
                                before[id].id,
                                match before[id].status {
                                    TaskStatus::Working => "working"@,
                                    TaskStatus::Completed => "completed"@,
                                    TaskStatus::Failed => "failed"@,
                                },
                                before[id].artifacts,
                            )
                        }
                } else {
                    says_error(reply, 200, request_id, -32001, "Task not found"@)
                },
                _ => says_error(
                    reply,
                    200,
                    request_id,
                    -32602,
                    "Invalid params: missing task id"@,
                ),
            }
        },
{
    reveal_strlit("message/send");
    reveal_strlit("tasks/get");
    reveal_strlit("");
    assert("message/send"@.len() != "tasks/get"@.len());
    lemma_says_error(HttpStatus::Success, request_id, -32602, "Invalid params: missing task id"@);
    lemma_says_error(HttpStatus::Success, request_id, -32001, "Task not found"@);
    if let Some(JsonView::Text(id)) = params.get("id"@) {
        if before.contains_key(id) {
            let task = before[id];
            let result = task_result(task.id, task.status.name(), task.artifacts);
            lemma_says_result(request_id, result);
            lemma_tells_task(task.id, task.status.name(), task.artifacts);
        }
    }
}

/// What plain polling is answered: 404 with the protocol off, 401 without the configured
/// token, the task under the id with the time of its last change, or 404 where there is none.
pub proof fn law_plain_polling(
    config: A2aConfig,
    authorization: Option<Seq<u8>>,
    tasks: Map<Seq<char>, TaskView>,
    task_id: Seq<char>,
    key: Seq<char>,
)
    ensures
        ({
            let reply = task_get_rest_reply(config, authorization, tasks, task_id);
            let accepted = match config.bearer_token {
                Some(token) => auth::bearer_accepted(authorization, Some(token@)),
                None => true,
            };
            if !config.enabled {
                &&& reply.status.code() == 404
                &&& reply.body.get("error"@) == Some(JsonView::Text("A2A disabled"@))
                &&& reply.body.get(key) is Some ==> key == "error"@
            } else if !accepted {
                &&& reply.status.code() == 401
                &&& reply.body.get("error"@) == Some(JsonView::Text("unauthorized"@))
                &&& reply.body.get(key) is Some ==> key == "error"@
            } else if !tasks.contains_key(task_id) {
                &&& reply.status.code() == 404
                &&& reply.body.get("error"@) == Some(JsonView::Text("task not found"@))
                &&& reply.body.get(key) is Some ==> key == "error"@
            } else {
                let task = tasks[task_id];
                &&& reply.status.code() == 200
                &&& reply.body.get("id"@) == Some(JsonView::Text(task.id))
                &&& reply.body.get("status"@) == Some(
                    JsonView::Text(
                        match task.status {
                            TaskStatus::Working => "working"@,
                            TaskStatus::Completed => "completed"@,
                            TaskStatus::Failed => "failed"@,
                        },
                    ),
                )
                &&& reply.body.get("artifacts"@) == Some(JsonView::Array(task.artifacts))
                &&& reply.body.get("updated_at"@) == Some(JsonView::Integer(task.updated_at as int))
                &&& reply.body.get(key) is Some ==> key == "id"@ || key == "status"@ || key
                    == "artifacts"@ || key == "updated_at"@
            }
        }),
{
    if tasks.contains_key(task_id) {
        tasks::law_shown_task(tasks[task_id], key);
    }
}

/// The models of an answer, of a pending message and of a step hold what these hold.
pub proof fn law_step_models(reply: Reply, pending: PendingMessage)
    ensures
        reply@.status == reply.status,
        reply@.body == reply.body@,
        pending@.task_id == pending.task_id@,
        pending@.session_id == pending.session_id@,
        pending@.text == pending.text@,
        pending@.request_id == pending.request_id@,
        RpcStep::Answer(reply)@ == StepView::Answer(reply@),
        RpcStep::Dispatch(pending)@ == StepView::Dispatch(pending@),
{
}

} // verus!
