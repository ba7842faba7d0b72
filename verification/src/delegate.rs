//! The `a2a_delegate` tool: delegating a task or a question to a peer agent.
//!
//! Only peers of the configuration can be reached; the tool takes no URL from its
//! caller. [`A2aDelegateTool::execute`] decides on a call and prepares the HTTP
//! request, and [`finish_call`] makes the tool's result of what came back.

use crate::clock;
use crate::config;
use crate::config::{string_or, A2aConfig, A2aPeerConfig};
use crate::endpoint;
use crate::endpoint::is_local_or_private;
use crate::ids;
use crate::ids::new_uuid;
use crate::json;
use crate::json::{Json, JsonObject, JsonView};
use crate::text;
use crate::text::{same_text, trim_end_slashes};
use crate::web;
use crate::web::status_code_text;
use vstd::prelude::*;
use vstd::string::*;

verus! {

/// What the tool gives back to the agent.
#[derive(Debug)]
pub struct ToolResult {
    pub success: bool,
    pub output: String,
    pub error: Option<String>,
}

/// The mathematical model of a tool's result.
#[verifier::ext_equal]
pub struct ToolResultView {
    pub success: bool,
    pub output: Seq<char>,
    pub error: Option<Seq<char>>,
}

impl View for ToolResult {
    type V = ToolResultView;

    open spec fn view(&self) -> ToolResultView {
        ToolResultView {
            success: self.success,
            output: self.output@,
            error: config::text_view(self.error),
        }
    }
}

/// A result that only says what went wrong.
pub open spec fn failure(message: Seq<char>) -> ToolResultView {
    ToolResultView { success: false, output: Seq::empty(), error: Some(message) }
}

/// A result that went well.
pub open spec fn success(output: Seq<char>) -> ToolResultView {
    ToolResultView { success: true, output, error: None }
}

/// A result that only says what went wrong.
fn err(message: &str) -> (result: ToolResult)
    ensures
        result@ == failure(message@),
{
    ToolResult { success: false, output: String::new(), error: Some(message.to_owned()) }
}

/// A result that went well.
fn succeeded(output: String) -> (result: ToolResult)
    ensures
        result@ == success(output@),
{
    ToolResult { success: true, output, error: None }
}

/// The outbound client tool.
pub struct A2aDelegateTool {
    config: A2aConfig,
    request_timeout: std::time::Duration,
}

/// What a call of the tool comes to: an end, or one of the calls to a peer.
pub enum Decision<'a> {
    Finish(ToolResult),
    Send { peer: &'a A2aPeerConfig, task: String },
    Discover { peer: &'a A2aPeerConfig },
    Status { peer: &'a A2aPeerConfig, task_id: String },
}

/// The mathematical model of a decision.
#[verifier::ext_equal]
pub enum DecisionView {
    Finish(ToolResultView),
    Send { peer: A2aPeerConfig, task: Seq<char> },
    Discover { peer: A2aPeerConfig },
    Status { peer: A2aPeerConfig, task_id: Seq<char> },
}

impl<'a> View for Decision<'a> {
    type V = DecisionView;

    open spec fn view(&self) -> DecisionView {
        match self {
            Decision::Finish(result) => DecisionView::Finish(result@),
            Decision::Send { peer, task } => DecisionView::Send { peer: **peer, task: task@ },
            Decision::Discover { peer } => DecisionView::Discover { peer: **peer },
            Decision::Status { peer, task_id } => DecisionView::Status {
                peer: **peer,
                task_id: task_id@,
            },
        }
    }
}

/// What the security policy says to the call, as texts.
pub open spec fn permission_view(permission: Result<(), String>) -> Result<(), Seq<char>> {
    match permission {
        Ok(_) => Ok(()),
        Err(message) => Err(message@),
    }
}

/// What a call of the tool comes to. `permission` is what the security policy says to
/// it, with the reason where it refuses.
pub open spec fn decision(
    config: A2aConfig,
    permission: Result<(), Seq<char>>,
    args: JsonView,
) -> DecisionView {
    let name = args.text_member_or("peer"@, ""@);
    let action = args.text_member_or("action"@, "send"@);
    match permission {
        Err(message) => DecisionView::Finish(failure(message)),
        Ok(_) => if name.len() == 0 {
            DecisionView::Finish(failure("missing 'peer' parameter"@))
        } else if !config.peers@.contains_key(name) {
            DecisionView::Finish(
                failure(
                    "peer '"@ + name + "' not registered. Add [a2a.peers."@ + name
                        + "] to config.toml."@,
                ),
            )
        } else {
            decision_for_peer(config.peers@[name], config.allow_local_peers, action, args)
        },
    }
}

/// What a call for a registered peer comes to.
pub open spec fn decision_for_peer(
    peer: A2aPeerConfig,
    allow_local_peers: bool,
    action: Seq<char>,
    args: JsonView,
) -> DecisionView {
    if endpoint::local_or_private(peer.endpoint@) && !allow_local_peers {
        DecisionView::Finish(
            failure(
                "peer endpoint resolves to a local/private host. Set [a2a] allow_local_peers = true to permit same-host A2A."@,
            ),
        )
    } else if action == "send"@ {
        let task = args.text_member_or("task"@, ""@);
        if task.len() == 0 {
            DecisionView::Finish(failure("missing 'task' parameter for send"@))
        } else {
            DecisionView::Send { peer, task }
        }
    } else if action == "discover"@ {
        DecisionView::Discover { peer }
    } else if action == "status"@ {
        let task_id = args.text_member_or("task_id"@, ""@);
        if task_id.len() == 0 {
            DecisionView::Finish(failure("missing 'task_id' parameter for status"@))
        } else {
            DecisionView::Status { peer, task_id }
        }
    } else {
        DecisionView::Finish(failure("unknown action '"@ + action + "'"@))
    }
}

/// The text of a member, or another text where there is no such member or it is no
/// text.
fn text_member_or<'a>(args: &'a Json, key: &str, otherwise: &'a str) -> (s: &'a str)
    ensures
        s@ == args@.text_member_or(key@, otherwise@),
{
    match args.get(key) {
        Some(member) => match member.as_str() {
            Some(s) => s,
            None => otherwise,
        },
        None => otherwise,
    }
}

/// Which of the three calls to a peer is made.
#[derive(Debug, Clone, Copy, PartialEq, Eq, Structural)]
pub enum CallKind {
    Send,
    Discover,
    Status,
}

/// An HTTP request to a peer: a POST of the body where there is one, and a GET
/// otherwise. The token is presented where there is one.
pub struct PeerCall {
    pub kind: CallKind,
    pub url: String,
    pub bearer_token: Option<String>,
    pub body: Option<Json>,
    /// What the peer is described as.
    pub description: Option<String>,
}

/// The mathematical model of an HTTP request to a peer.
#[verifier::ext_equal]
pub struct PeerCallView {
    pub kind: CallKind,
    pub url: Seq<char>,
    pub bearer_token: Option<Seq<char>>,
    pub body: Option<JsonView>,
    pub description: Option<Seq<char>>,
}

impl View for PeerCall {
    type V = PeerCallView;

    open spec fn view(&self) -> PeerCallView {
        PeerCallView {
            kind: self.kind,
            url: self.url@,
            bearer_token: config::text_view(self.bearer_token),
            body: match self.body {
                Some(body) => Some(body@),
                None => None,
            },
            description: config::text_view(self.description),
        }
    }
}

/// The URL of a peer's JSON-RPC endpoint.
pub open spec fn rpc_url(peer: A2aPeerConfig) -> Seq<char> {
    text::without_trailing_slashes(peer.endpoint@) + "/a2a/v1/rpc"@
}

/// The URL of a peer's agent card.
pub open spec fn card_url(peer: A2aPeerConfig) -> Seq<char> {
    text::without_trailing_slashes(peer.endpoint@) + "/.well-known/agent.json"@
}

/// A JSON-RPC request.
pub open spec fn request_body(
    request_id: Seq<char>,
    method: Seq<char>,
    params: JsonView,
) -> JsonView {
    JsonView::Object(
        Map::empty().insert("jsonrpc"@, JsonView::Text("2.0"@)).insert(
            "id"@,
            JsonView::Text(request_id),
        ).insert("method"@, JsonView::Text(method)).insert("params"@, params),
    )
}

/// The parameters of `message/send` for a task.
pub open spec fn send_params(task: Seq<char>) -> JsonView {
    JsonView::Object(
        Map::empty().insert(
            "message"@,
            JsonView::Object(
                Map::empty().insert("role"@, JsonView::Text("user"@)).insert(
                    "parts"@,
                    JsonView::Array(
                        seq![
                            JsonView::Object(
                                Map::empty().insert("kind"@, JsonView::Text("text"@)).insert(
                                    "text"@,
                                    JsonView::Text(task),
                                ),
                            ),
                        ],
                    ),
                ),
            ),
        ),
    )
}

/// The parameters of `tasks/get` for a task id.
pub open spec fn status_params(task_id: Seq<char>) -> JsonView {
    JsonView::Object(Map::empty().insert("id"@, JsonView::Text(task_id)))
}

/// The request that sends a task to a peer.
pub open spec fn send_call(
    peer: A2aPeerConfig,
    task: Seq<char>,
    request_id: Seq<char>,
) -> PeerCallView {
    PeerCallView {
        kind: CallKind::Send,
        url: rpc_url(peer),
        bearer_token: config::text_view(peer.bearer_token),
        body: Some(request_body(request_id, "message/send"@, send_params(task))),
        description: config::text_view(peer.description),
    }
}

/// The request for a peer's agent card. It presents no token.
pub open spec fn discover_call(peer: A2aPeerConfig) -> PeerCallView {
    PeerCallView {
        kind: CallKind::Discover,
        url: card_url(peer),
        bearer_token: None,
        body: None,
        description: config::text_view(peer.description),
    }
}

/// The request that asks a peer how far a task has come.
pub open spec fn status_call(
    peer: A2aPeerConfig,
    task_id: Seq<char>,
    request_id: Seq<char>,
) -> PeerCallView {
    PeerCallView {
        kind: CallKind::Status,
        url: rpc_url(peer),
        bearer_token: config::text_view(peer.bearer_token),
        body: Some(request_body(request_id, "tasks/get"@, status_params(task_id))),
        description: config::text_view(peer.description),
    }
}

/// A JSON-RPC request.
fn make_request(request_id: &str, method: &str, params: Json) -> (body: Json)
    ensures
        body@ == request_body(request_id@, method@, params@),
{
    Json::Object(
        JsonObject::new().with("jsonrpc", Json::text("2.0")).with(
            "id",
            Json::text(request_id),
        ).with("method", Json::text(method)).with("params", params),
    )
}

/// Prepares the request that sends a task to a peer.
pub fn call_send(peer: &A2aPeerConfig, task: &str, request_id: &str) -> (call: PeerCall)
    ensures
        call@ == send_call(*peer, task@, request_id@),
{
    let part: JsonObject = JsonObject::new().with("kind", Json::text("text")).with(
        "text",
        Json::text(task),
    );
    let message: JsonObject = JsonObject::new().with("role", Json::text("user")).with(
        "parts",
        Json::singleton(Json::Object(part)),
    );
    let params: JsonObject = JsonObject::new().with("message", Json::Object(message));
    PeerCall {
        kind: CallKind::Send,
        url: trim_end_slashes(peer.endpoint.as_str()).to_owned().concat("/a2a/v1/rpc"),
        bearer_token: peer.bearer_token.clone(),
        body: Some(make_request(request_id, "message/send", Json::Object(params))),
        description: peer.description.clone(),
    }
}

/// Prepares the request for a peer's agent card.
pub fn call_discover(peer: &A2aPeerConfig) -> (call: PeerCall)
    ensures
        call@ == discover_call(*peer),
{
    PeerCall {
        kind: CallKind::Discover,
        url: trim_end_slashes(peer.endpoint.as_str()).to_owned().concat("/.well-known/agent.json"),
        bearer_token: None,
        body: None,
        description: peer.description.clone(),
    }
}

/// Prepares the request that asks a peer how far a task has come.
pub fn call_status(peer: &A2aPeerConfig, task_id: &str, request_id: &str) -> (call: PeerCall)
    ensures
        call@ == status_call(*peer, task_id@, request_id@),
{
    let params: JsonObject = JsonObject::new().with("id", Json::text(task_id));
    PeerCall {
        kind: CallKind::Status,
        url: trim_end_slashes(peer.endpoint.as_str()).to_owned().concat("/a2a/v1/rpc"),
        bearer_token: peer.bearer_token.clone(),
        body: Some(make_request(request_id, "tasks/get", Json::Object(params))),
        description: peer.description.clone(),
    }
}

/// What comes of a call of the tool: its result, or a request to a peer that has to
/// be made first.
pub enum ToolStep {
    Finish(ToolResult),
    Call(PeerCall),
}

/// Whether a step is the one that a decision asks for. A request to a peer's JSON-RPC
/// endpoint goes out under a fresh id.
pub open spec fn carries_out(step: ToolStep, decided: DecisionView) -> bool {
    match decided {
        DecisionView::Finish(result) => step matches ToolStep::Finish(given) && given@ == result,
        DecisionView::Send { peer, task } => step matches ToolStep::Call(call) && exists|
            request_id: Seq<char>,
        |
            ids::is_random_uuid(request_id) && call@ == #[trigger] send_call(peer, task, request_id),
        DecisionView::Discover { peer } => step matches ToolStep::Call(call) && call@
            == discover_call(peer),
        DecisionView::Status { peer, task_id } => step matches ToolStep::Call(call) && exists|
            request_id: Seq<char>,
        |
            ids::is_random_uuid(request_id) && call@ == #[trigger] status_call(
                peer,
                task_id,
                request_id,
            ),
    }
}

/// The schema of a parameter that is a text.
pub open spec fn string_parameter_view(description: Seq<char>) -> JsonView {
    JsonView::Object(
        Map::empty().insert("type"@, JsonView::Text("string"@)).insert(
            "description"@,
            JsonView::Text(description),
        ),
    )
}

/// The names of the actions.
pub open spec fn action_names() -> Seq<JsonView> {
    seq![JsonView::Text("send"@), JsonView::Text("discover"@), JsonView::Text("status"@)]
}

/// The schema of the tool's parameters.
pub open spec fn parameters_schema_view() -> JsonView {
    JsonView::Object(
        Map::empty().insert("type"@, JsonView::Text("object"@)).insert(
            "properties"@,
            JsonView::Object(
                Map::empty().insert(
                    "peer"@,
                    string_parameter_view(
                        "Name of a pre-registered peer (from [a2a.peers.<peer>] config)"@,
                    ),
                ).insert(
                    "task"@,
                    string_parameter_view("The question or task text to send to the peer agent"@),
                ).insert(
                    "action"@,
                    JsonView::Object(
                        Map::empty().insert("type"@, JsonView::Text("string"@)).insert(
                            "description"@,
                            JsonView::Text("Which A2A call to make. Default 'send'."@),
                        ).insert("enum"@, JsonView::Array(action_names())).insert(
                            "default"@,
                            JsonView::Text("send"@),
                        ),
                    ),
                ).insert(
                    "task_id"@,
                    string_parameter_view(
                        "Required only for action='status' — the task id returned by a previous send."@,
                    ),
                ),
            ),
        ).insert("required"@, JsonView::Array(seq![JsonView::Text("peer"@)])),
    )
}

/// The schema of a parameter that is a text.
fn string_parameter(description: &str) -> (schema: Json)
    ensures
        schema@ == string_parameter_view(description@),
{
    Json::Object(
        JsonObject::new().with("type", Json::text("string")).with(
            "description",
            Json::text(description),
        ),
    )
}

impl A2aDelegateTool {
    /// The configuration that the tool works by.
    pub closed spec fn config(self) -> A2aConfig {
        self.config
    }

    /// How long a request to a peer may take.
    pub closed spec fn timeout(self) -> std::time::Duration {
        self.request_timeout
    }

    /// The tool for a configuration. A request may take two minutes.
    pub fn new(config: A2aConfig) -> (tool: A2aDelegateTool)
        ensures
            tool.config() == config,
            tool.timeout() == clock::span_of_secs(120),
    {
        A2aDelegateTool { config, request_timeout: std::time::Duration::from_secs(120) }
    }

    /// The tool with another limit on how long a request may take.
    pub fn with_timeout(self, limit: std::time::Duration) -> (tool: A2aDelegateTool)
        ensures
            tool.config() == self.config(),
            tool.timeout() == limit,
    {
        A2aDelegateTool { config: self.config, request_timeout: limit }
    }

    /// How long a request to a peer may take.
    pub fn request_timeout(&self) -> (limit: std::time::Duration)
        ensures
            limit == self.timeout(),
    {
        self.request_timeout
    }

    /// The name that the agent calls the tool by.
    pub fn name(&self) -> (name: &'static str)
        ensures
            name@ == "a2a_delegate"@,
    {
        "a2a_delegate"
    }

    /// What the agent is told of the tool.
    pub fn description(&self) -> (description: &'static str)
        ensures
            description@
                == "Delegate a task or question to a registered peer ZeroClaw agent via the A2A protocol. The peer must be pre-configured under [a2a.peers.<name>] in config.toml; arbitrary URLs are rejected. Use when a question falls into a specialized domain owned by another agent (e.g. AI knowledge, infra admin). Returns the peer's answer as plain text."@,
    {
        "Delegate a task or question to a registered peer ZeroClaw agent via the A2A protocol. The peer must be pre-configured under [a2a.peers.<name>] in config.toml; arbitrary URLs are rejected. Use when a question falls into a specialized domain owned by another agent (e.g. AI knowledge, infra admin). Returns the peer's answer as plain text."
    }

    /// The JSON schema of the tool's parameters.
    pub fn parameters_schema(&self) -> (schema: Json)
        ensures
            schema@ == parameters_schema_view(),
    {
        let peer: Json = string_parameter(
            "Name of a pre-registered peer (from [a2a.peers.<peer>] config)",
        );
        let task: Json = string_parameter("The question or task text to send to the peer agent");
        let task_id: Json = string_parameter(
            "Required only for action='status' — the task id returned by a previous send.",
        );
        let mut actions: Vec<Json> = Vec::new();
        actions.push(Json::text("send"));
        actions.push(Json::text("discover"));
        actions.push(Json::text("status"));
        proof {
            json::lemma_items_view(actions@);
            assert(json::items_view(actions@) =~= action_names());
        }
        let action: JsonObject = JsonObject::new().with("type", Json::text("string")).with(
            "description",
            Json::text("Which A2A call to make. Default 'send'."),
        ).with("enum", Json::Array(actions)).with("default", Json::text("send"));
        let properties: JsonObject = JsonObject::new().with("peer", peer).with("task", task).with(
            "action",
            Json::Object(action),
        ).with("task_id", task_id);
        Json::Object(
            JsonObject::new().with("type", Json::text("object")).with(
                "properties",
                Json::Object(properties),
            ).with("required", Json::singleton(Json::text("peer"))),
        )
    }

    /// Decides what a call of the tool comes to.
    pub fn decide(&self, permission: Result<(), String>, args: &Json) -> (decided: Decision<'_>)
        ensures
            decided@ == decision(self.config(), permission_view(permission), args@),
    {
        if let Err(message) = permission {
            return Decision::Finish(err(message.as_str()));
        }
        let action: &str = text_member_or(args, "action", "send");
        let name: &str = text_member_or(args, "peer", "");
        if name.is_empty() {
            return Decision::Finish(err("missing 'peer' parameter"));
        }
        let peer: &A2aPeerConfig = match self.config.peers.get(name) {
            Some(peer) => peer,
            None => {
                let message: String = "peer '".to_owned().concat(name).concat(
                    "' not registered. Add [a2a.peers.",
                ).concat(name).concat("] to config.toml.");
                return Decision::Finish(err(message.as_str()));
            },
        };
        if is_local_or_private(peer.endpoint.as_str()) && !self.config.allow_local_peers {
            return Decision::Finish(
                err(
                    "peer endpoint resolves to a local/private host. Set [a2a] allow_local_peers = true to permit same-host A2A.",
                ),
            );
        }
        if same_text(action, "send") {
            let task: &str = text_member_or(args, "task", "");
            if task.is_empty() {
                return Decision::Finish(err("missing 'task' parameter for send"));
            }
            Decision::Send { peer, task: task.to_owned() }
        } else if same_text(action, "discover") {
            Decision::Discover { peer }
        } else if same_text(action, "status") {
            let task_id: &str = text_member_or(args, "task_id", "");
            if task_id.is_empty() {
                return Decision::Finish(err("missing 'task_id' parameter for status"));
            }
            Decision::Status { peer, task_id: task_id.to_owned() }
        } else {
            let message: String = "unknown action '".to_owned().concat(action).concat("'");
            Decision::Finish(err(message.as_str()))
        }
    }

    /// Decides on a call of the tool and prepares the request to the peer.
    /// `permission` is what the security policy says to the call.
    pub fn execute(&self, permission: Result<(), String>, args: &Json) -> (step: ToolStep)
        ensures
            carries_out(step, decision(self.config(), permission_view(permission), args@)),
    {
        match self.decide(permission, args) {
            Decision::Finish(result) => ToolStep::Finish(result),
            Decision::Send { peer, task } => {
                let request_id: String = new_uuid();
                ToolStep::Call(call_send(peer, task.as_str(), request_id.as_str()))
            },
            Decision::Discover { peer } => ToolStep::Call(call_discover(peer)),
            Decision::Status { peer, task_id } => {
                let request_id: String = new_uuid();
                ToolStep::Call(call_status(peer, task_id.as_str(), request_id.as_str()))
            },
        }
    }
}

/// What came of a request to a peer.
#[derive(Debug)]
pub enum HttpOutcome {
    /// No client could be set up, for this reason.
    NoClient(String),
    /// The request could not be made, for this reason.
    NotSent(String),
    /// The peer answered, with a status code and a text.
    Answered { status: u16, text: String },
}

/// What a peer's answer holds as JSON, and null where it is no JSON.
pub open spec fn parsed_or_null(text: Seq<char>) -> JsonView {
    match json::parsed_json(text) {
        Some(value) => value,
        None => JsonView::Null,
    }
}

/// The text at the end of a path, or another text where there is none.
pub open spec fn text_at_or(
    value: JsonView,
    path: Seq<Seq<char>>,
    otherwise: Seq<char>,
) -> Seq<char> {
    match value.pointer(path) {
        Some(found) => match found.text() {
            Some(s) => s,
            None => otherwise,
        },
        None => otherwise,
    }
}

/// Where the text of the first artifact stands in an answer to `message/send`.
pub open spec fn artifact_text_path() -> Seq<Seq<char>> {
    seq!["result"@, "artifacts"@, "0"@, "parts"@, "0"@, "text"@]
}

/// The result of sending a task: the peer's description, the task's id and state, and
/// the text of the first artifact, or the answer as it came where there is none.
pub open spec fn sent_output(
    description: Option<Seq<char>>,
    text: Seq<char>,
    parsed: JsonView,
) -> Seq<char> {
    "peer="@ + (match description {
        Some(s) => s,
        None => "(no description)"@,
    }) + " task_id="@ + text_at_or(parsed, seq!["result"@, "id"@], ""@) + " state="@ + text_at_or(
        parsed,
        seq!["result"@, "status"@, "state"@],
        "unknown"@,
    ) + "\n"@ + text_at_or(parsed, artifact_text_path(), text)
}

/// The result of sending a task, from the peer's answer and what it holds as JSON.
pub open spec fn sent_result(
    description: Option<Seq<char>>,
    text: Seq<char>,
    parsed: JsonView,
) -> ToolResultView {
    match parsed.get("error"@) {
        Some(error) => failure("peer JSON-RPC error: "@ + json::json_text(error)),
        None => success(sent_output(description, text, parsed)),
    }
}

/// The result of a peer's answer to a request.
pub open spec fn answered_result(call: PeerCallView, status: u16, text: Seq<char>) -> ToolResultView {
    if !web::is_success_code(status) {
        failure("peer returned "@ + web::status_text(status) + ": "@ + text)
    } else if call.kind == CallKind::Send {
        sent_result(call.description, text, parsed_or_null(text))
    } else {
        success(text)
    }
}

/// What is said of a request that could not be made.
pub open spec fn not_sent_message(call: PeerCallView, reason: Seq<char>) -> Seq<char> {
    (match call.kind {
        CallKind::Send => "A2A send to "@,
        CallKind::Discover => "A2A discover "@,
        CallKind::Status => "A2A status "@,
    }) + call.url + " failed: "@ + reason
}

/// The text at the end of a path, or another text where there is none.
fn find_text<'a>(value: &'a Json, path: &[&str], otherwise: &'a str) -> (s: &'a str)
    ensures
        s@ == text_at_or(value@, json::tokens_view(path@), otherwise@),
{
    match value.pointer(path) {
        Some(found) => match found.as_str() {
            Some(s) => s,
            None => otherwise,
        },
        None => otherwise,
    }
}

/// Makes the result of sending a task, from the peer's answer and what it holds as
/// JSON.
pub fn read_sent(description: &Option<String>, text: &str, parsed: &Json) -> (result: ToolResult)
    ensures
        result@ == sent_result(config::text_view(*description), text@, parsed@),
{
    if let Some(error) = parsed.get("error") {
        let rendered: String = error.render();
        let message: String = "peer JSON-RPC error: ".to_owned().concat(rendered.as_str());
        return err(message.as_str());
    }
    let answer_path: [&str; 6] = ["result", "artifacts", "0", "parts", "0", "text"];
    let id_path: [&str; 2] = ["result", "id"];
    let state_path: [&str; 3] = ["result", "status", "state"];
    proof {
        assert(json::tokens_view(answer_path@) =~= artifact_text_path());
        assert(json::tokens_view(id_path@) =~= seq!["result"@, "id"@]);
        assert(json::tokens_view(state_path@) =~= seq!["result"@, "status"@, "state"@]);
    }
    let answer: &str = find_text(parsed, &answer_path, text);
    let task_id: &str = find_text(parsed, &id_path, "");
    let task_state: &str = find_text(parsed, &state_path, "unknown");
    let peer: String = string_or(description, "(no description)");
    let output: String = "peer=".to_owned().concat(peer.as_str()).concat(" task_id=").concat(
        task_id,
    ).concat(" state=").concat(task_state).concat("\n").concat(answer);
    succeeded(output)
}

/// Makes the tool's result of what came of a request to a peer. A request that did not
/// reach the peer is an error, with its message.
pub fn finish_call(call: &PeerCall, outcome: HttpOutcome) -> (finished: Result<ToolResult, String>)
    ensures
        match outcome {
            HttpOutcome::NoClient(reason) => finished matches Err(message) && message@
                == "failed to build HTTP client: "@ + reason@,
            HttpOutcome::NotSent(reason) => finished matches Err(message) && message@
                == not_sent_message(call@, reason@),
            HttpOutcome::Answered { status, text } => finished matches Ok(result) && result@
                == answered_result(call@, status, text@),
        },
{
    match outcome {
        HttpOutcome::NoClient(reason) => Err(
            "failed to build HTTP client: ".to_owned().concat(reason.as_str()),
        ),
        HttpOutcome::NotSent(reason) => {
            let start: &str = match call.kind {
                CallKind::Send => "A2A send to ",
                CallKind::Discover => "A2A discover ",
                CallKind::Status => "A2A status ",
            };
            Err(
                start.to_owned().concat(call.url.as_str()).concat(" failed: ").concat(
                    reason.as_str(),
                ),
            )
        },
        HttpOutcome::Answered { status, text } => {
            if !(200 <= status && status < 300) {
                let shown: String = status_code_text(status);
                let message: String = "peer returned ".to_owned().concat(shown.as_str()).concat(
                    ": ",
                ).concat(text.as_str());
                return Ok(err(message.as_str()));
            }
            match call.kind {
                CallKind::Send => {
                    let parsed: Json = match Json::parse(text.as_str()) {
                        Some(value) => value,
                        None => Json::Null,
                    };
                    Ok(read_sent(&call.description, text.as_str(), &parsed))
                },
                _ => Ok(succeeded(text)),
            }
        },
    }
}

/// Only registered peers are called: a request goes to the JSON-RPC endpoint of the peer
/// that the call names, with that peer's token, or to its agent card, without one, whatever
/// else the arguments hold. It goes to a local or private host only where that is allowed, and not
/// at all where the security policy refuses the call.
pub proof fn law_only_registered_peers(
    config: A2aConfig,
    permission: Result<(), Seq<char>>,
    args: JsonView,
    call: PeerCall,
)
    requires
        carries_out(ToolStep::Call(call), decision(config, permission, args)),
    ensures
        ({
            let name = args.text_member_or("peer"@, ""@);
            let peer = config.peers@[name];
            &&& permission is Ok
            &&& config.peers@.contains_key(name)
            &&& {
                ||| call@.url == rpc_url(peer) && call@.bearer_token == config::text_view(
                    peer.bearer_token,
                )
                ||| call@.url == card_url(peer) && call@.bearer_token is None
            }
            &&& endpoint::local_or_private(peer.endpoint@) ==> config.allow_local_peers
        }),
{
}

/// A call that the security policy refuses ends with the policy's reason.
pub proof fn law_policy_refusal(
    config: A2aConfig,
    reason: Seq<char>,
    args: JsonView,
    step: ToolStep,
)
    requires
        carries_out(step, decision(config, Err(reason), args)),
    ensures
        step matches ToolStep::Finish(result) && result@ == failure(reason),
{
}

/// Without an action, a call is decided as one to send.
pub proof fn law_default_action(
    config: A2aConfig,
    permission: Result<(), Seq<char>>,
    members: Map<Seq<char>, JsonView>,
)
    requires
        !members.contains_key("action"@),
    ensures
        decision(config, permission, JsonView::Object(members)) == decision(
            config,
            permission,
            JsonView::Object(members.insert("action"@, JsonView::Text("send"@))),
        ),
{
    reveal_strlit("action");
    reveal_strlit("peer");
    reveal_strlit("task");
    reveal_strlit("task_id");
    assert("action"@.len() == 6 && "peer"@.len() == 4 && "task"@.len() == 4 && "task_id"@.len()
        == 7);
}

/// Slashes at the end of an endpoint make no difference to where requests go.
pub proof fn law_trailing_slashes(peer: A2aPeerConfig, slashed: A2aPeerConfig)
    requires
        slashed.endpoint@ == peer.endpoint@.push('/'),
    ensures
        rpc_url(slashed) == rpc_url(peer),
        card_url(slashed) == card_url(peer),
{
    assert(slashed.endpoint@.drop_last() =~= peer.endpoint@);
}

/// Whether a result only says what went wrong, and says this.
pub open spec fn fails_with(result: ToolResult, message: Seq<char>) -> bool {
    &&& !result.success
    &&& result.output@.len() == 0
    &&& result.error matches Some(error) && error@ == message
}

/// Whether two strings are both missing, or both there and the same text.
pub open spec fn same_string(a: Option<String>, b: Option<String>) -> bool {
    match (a, b) {
        (Some(left), Some(right)) => left@ == right@,
        (None, None) => true,
        _ => false,
    }
}

/// Whether a call posts a JSON-RPC request for a method to a peer: to the endpoint without
/// the slashes at its end and then the path, with the token of the peer, under a fresh id.
pub open spec fn posts_to(call: PeerCall, peer: A2aPeerConfig, method: Seq<char>) -> bool {
    &&& call.url@ == text::without_trailing_slashes(peer.endpoint@) + "/a2a/v1/rpc"@
    &&& same_string(call.bearer_token, peer.bearer_token)
    &&& same_string(call.description, peer.description)
    &&& call.body matches Some(body) && {
        &&& body@.get("jsonrpc"@) == Some(JsonView::Text("2.0"@))
        &&& body@.get("method"@) == Some(JsonView::Text(method))
        &&& body@.get("params"@) is Some
        &&& body@.get("id"@) matches Some(JsonView::Text(id)) && ids::is_random_uuid(id)
        &&& forall|key: Seq<char>| #[trigger]
            body@.get(key) is Some ==> key == "jsonrpc"@ || key == "id"@ || key == "method"@ || key
                == "params"@
    }
}

/// Whether parameters hold a message from the user with one part, which is this text.
pub open spec fn holds_text(params: JsonView, task: Seq<char>) -> bool {
    &&& params.get("message"@) matches Some(message) && {
        &&& message.get("role"@) == Some(JsonView::Text("user"@))
        &&& message.get("parts"@) matches Some(JsonView::Array(parts)) && {
            &&& parts.len() == 1
            &&& parts[0].get("kind"@) == Some(JsonView::Text("text"@))
            &&& parts[0].get("text"@) == Some(JsonView::Text(task))
            &&& forall|key: Seq<char>| #[trigger]
                parts[0].get(key) is Some ==> key == "kind"@ || key == "text"@
        }
        &&& forall|key: Seq<char>| #[trigger]
            message.get(key) is Some ==> key == "role"@ || key == "parts"@
    }
    &&& forall|key: Seq<char>| #[trigger] params.get(key) is Some ==> key == "message"@
}

/// The keys of a request are different texts.
proof fn lemma_request_keys()
    ensures
        "jsonrpc"@.len() == 7,
        "id"@.len() == 2,
        "method"@.len() == 6,
        "params"@.len() == 6,
        "method"@ != "params"@,
        "message"@.len() == 7,
        "role"@.len() == 4,
        "parts"@.len() == 5,
        "kind"@.len() == 4,
        "text"@.len() == 4,
        "kind"@ != "text"@,
{
    reveal_strlit("jsonrpc");
    reveal_strlit("id");
    reveal_strlit("method");
    reveal_strlit("params");
    reveal_strlit("message");
    reveal_strlit("role");
    reveal_strlit("parts");
    reveal_strlit("kind");
    reveal_strlit("text");
    assert("method"@[0] != "params"@[0]);
    assert("kind"@[0] != "text"@[0]);
}

/// The request that sends a task: a post of `message/send` to the peer, with the peer's own
/// token, that holds the very task.
pub proof fn law_send_call(
    peer: A2aPeerConfig,
    task: Seq<char>,
    request_id: Seq<char>,
    call: PeerCall,
)
    requires
        call@ == send_call(peer, task, request_id),
        ids::is_random_uuid(request_id),
    ensures
        call.kind == CallKind::Send,
        posts_to(call, peer, "message/send"@),
        call.body matches Some(body) && {
            &&& body@.get("id"@) == Some(JsonView::Text(request_id))
            &&& holds_text(body@.get("params"@)->0, task)
        },
{
    lemma_request_keys();
    assert(call@.body == Some(call.body->0@));
}

/// The request that asks how far a task has come: a post of `tasks/get` to the peer, with
/// the peer's own token, that names the very task.
pub proof fn law_status_call(
    peer: A2aPeerConfig,
    task_id: Seq<char>,
    request_id: Seq<char>,
    call: PeerCall,
)
    requires
        call@ == status_call(peer, task_id, request_id),
        ids::is_random_uuid(request_id),
    ensures
        call.kind == CallKind::Status,
        posts_to(call, peer, "tasks/get"@),
        call.body matches Some(body) && {
            let params = body@.get("params"@)->0;
            &&& body@.get("id"@) == Some(JsonView::Text(request_id))
            &&& params.get("id"@) == Some(JsonView::Text(task_id))
            &&& forall|key: Seq<char>| #[trigger] params.get(key) is Some ==> key == "id"@
        },
{
    lemma_request_keys();
    assert(call@.body == Some(call.body->0@));
}

/// The request for a peer's card is a plain one, without a body and without a token.
pub proof fn law_discover_call(peer: A2aPeerConfig, call: PeerCall)
    requires
        call@ == discover_call(peer),
    ensures
        call.kind == CallKind::Discover,
        call.url@ == text::without_trailing_slashes(peer.endpoint@) + "/.well-known/agent.json"@,
        call.bearer_token is None,
        call.body is None,
        same_string(call.description, peer.description),
{
}

/// The text of a member, or another text where the member is missing or no text.
pub open spec fn text_of(member: Option<JsonView>, otherwise: Seq<char>) -> Seq<char> {
    match member {
        Some(JsonView::Text(s)) => s,
        _ => otherwise,
    }
}

/// What a call of the tool comes to, from what its arguments hold: who may call, whom, and
/// for what. A refusal says why.
pub proof fn law_decided(
    config: A2aConfig,
    permission: Result<(), String>,
    args: JsonView,
    decided: Decision<'_>,
)
    requires
        decided@ == decision(config, permission_view(permission), args),
    ensures
        ({
            let name = text_of(args.get("peer"@), Seq::empty());
            let action = text_of(args.get("action"@), "send"@);
            let task = text_of(args.get("task"@), Seq::empty());
            let task_id = text_of(args.get("task_id"@), Seq::empty());
            let peer = config.peers@[name];
            if permission is Err {
                decided is Finish && fails_with(decided->Finish_0, permission->Err_0@)
            } else if name.len() == 0 {
                decided is Finish && fails_with(decided->Finish_0, "missing 'peer' parameter"@)
            } else if !config.peers@.contains_key(name) {
                decided is Finish && fails_with(
                    decided->Finish_0,
                    "peer '"@ + name + "' not registered. Add [a2a.peers."@ + name
                        + "] to config.toml."@,
                )
            } else if endpoint::local_or_private(peer.endpoint@) && !config.allow_local_peers {
                decided is Finish && fails_with(
                    decided->Finish_0,
                    "peer endpoint resolves to a local/private host. Set [a2a] allow_local_peers = true to permit same-host A2A."@,
                )
            } else if action == "send"@ && task.len() == 0 {
                decided is Finish && fails_with(
                    decided->Finish_0,
                    "missing 'task' parameter for send"@,
                )
            } else if action == "send"@ {
                decided matches Decision::Send { peer: to, task: sent } && *to == peer && sent@
                    == task
            } else if action == "discover"@ {
                decided matches Decision::Discover { peer: to } && *to == peer
            } else if action == "status"@ && task_id.len() == 0 {
                decided is Finish && fails_with(
                    decided->Finish_0,
                    "missing 'task_id' parameter for status"@,
                )
            } else if action == "status"@ {
                decided matches Decision::Status { peer: to, task_id: asked } && *to == peer
                    && asked@ == task_id
            } else {
                decided is Finish && fails_with(
                    decided->Finish_0,
                    "unknown action '"@ + action + "'"@,
                )
            }
        }),
{
    reveal_strlit("");
    reveal_strlit("send");
    reveal_strlit("discover");
    reveal_strlit("status");
    assert(""@ =~= Seq::<char>::empty());
    assert("send"@[1] == 'e' && "discover"@[0] == 'd' && "status"@[1] == 't');
}

/// What comes of a call of the tool, from what its arguments hold: a request to the peer
/// that they name, as the action asks for, or a refusal that says why.
pub proof fn law_executed(
    config: A2aConfig,
    permission: Result<(), String>,
    args: JsonView,
    step: ToolStep,
)
    requires
        carries_out(step, decision(config, permission_view(permission), args)),
    ensures
        ({
            let name = text_of(args.get("peer"@), Seq::empty());
            let action = text_of(args.get("action"@), "send"@);
            let task = text_of(args.get("task"@), Seq::empty());
            let task_id = text_of(args.get("task_id"@), Seq::empty());
            let peer = config.peers@[name];
            if permission is Err {
                step is Finish && fails_with(step->Finish_0, permission->Err_0@)
            } else if name.len() == 0 {
                step is Finish && fails_with(step->Finish_0, "missing 'peer' parameter"@)
            } else if !config.peers@.contains_key(name) {
                step is Finish && fails_with(
                    step->Finish_0,
                    "peer '"@ + name + "' not registered. Add [a2a.peers."@ + name
                        + "] to config.toml."@,
                )
            } else if endpoint::local_or_private(peer.endpoint@) && !config.allow_local_peers {
                step is Finish && fails_with(
                    step->Finish_0,
                    "peer endpoint resolves to a local/private host. Set [a2a] allow_local_peers = true to permit same-host A2A."@,
                )
            } else if action == "send"@ && task.len() == 0 {
                step is Finish && fails_with(step->Finish_0, "missing 'task' parameter for send"@)
            } else if action == "send"@ {
                step matches ToolStep::Call(call) && {
                    &&& call.kind == CallKind::Send
                    &&& posts_to(call, peer, "message/send"@)
                    &&& holds_text(call.body->0@.get("params"@)->0, task)
                }
            } else if action == "discover"@ {
                step matches ToolStep::Call(call) && {
                    &&& call.kind == CallKind::Discover
                    &&& call.url@ == text::without_trailing_slashes(peer.endpoint@)
                        + "/.well-known/agent.json"@
                    &&& call.bearer_token is None
                    &&& call.body is None
                    &&& same_string(call.description, peer.description)
                }
            } else if action == "status"@ && task_id.len() == 0 {
                step is Finish && fails_with(
                    step->Finish_0,
                    "missing 'task_id' parameter for status"@,
                )
            } else if action == "status"@ {
                step matches ToolStep::Call(call) && {
                    let params = call.body->0@.get("params"@)->0;
                    &&& call.kind == CallKind::Status
                    &&& posts_to(call, peer, "tasks/get"@)
                    &&& params.get("id"@) == Some(JsonView::Text(task_id))
                    &&& forall|key: Seq<char>| #[trigger] params.get(key) is Some ==> key == "id"@
                }
            } else {
                step is Finish && fails_with(step->Finish_0, "unknown action '"@ + action + "'"@)
            }
        }),
{
    reveal_strlit("");
    reveal_strlit("send");
    reveal_strlit("discover");
    reveal_strlit("status");
    assert(""@ =~= Seq::<char>::empty());
    assert("send"@[1] == 'e' && "discover"@[0] == 'd' && "status"@[1] == 't');
    let decided = decision(config, permission_view(permission), args);
    match decided {
        DecisionView::Finish(_) => {},
        DecisionView::Send { peer, task } => {
            let call = step->Call_0;
            let request_id = choose|request_id: Seq<char>|
                ids::is_random_uuid(request_id) && call@ == #[trigger] send_call(
                    peer,
                    task,
                    request_id,
                );
            law_send_call(peer, task, request_id, call);
        },
        DecisionView::Discover { peer } => {
            law_discover_call(peer, step->Call_0);
        },
        DecisionView::Status { peer, task_id } => {
            let call = step->Call_0;
            let request_id = choose|request_id: Seq<char>|
                ids::is_random_uuid(request_id) && call@ == #[trigger] status_call(
                    peer,
                    task_id,
                    request_id,
                );
            law_status_call(peer, task_id, request_id, call);
        },
    }
}

/// The member of a value, where there is a value.
pub open spec fn member(value: Option<JsonView>, key: Seq<char>) -> Option<JsonView> {
    match value {
        Some(v) => v.get(key),
        None => None,
    }
}

/// The first item of an array. In an object it is the member under `0`.
pub open spec fn first(value: Option<JsonView>) -> Option<JsonView> {
    match value {
        Some(JsonView::Array(items)) => if items.len() > 0 {
            Some(items[0])
        } else {
            None
        },
        Some(v) => v.get("0"@),
        None => None,
    }
}

/// A step of a path by a token that is no number goes to the member under it, and one by
/// `0` to the first item.
proof fn lemma_path_step(value: JsonView, token: Seq<char>, rest: Seq<Seq<char>>)
    ensures
        token.len() > 0 && !('0' <= token[0] <= '9') ==> value.pointer(seq![token] + rest) == (
        match value.get(token) {
            Some(next) => next.pointer(rest),
            None => None,
        }),
        token == "0"@ ==> value.pointer(seq![token] + rest) == (match first(Some(value)) {
            Some(next) => next.pointer(rest),
            None => None,
        }),
{
    reveal_strlit("0");
    json::law_paths(value, seq![token], rest, token);
    if let JsonView::Array(items) = value {
        json::law_array_steps(items, '0', token);
        assert("0"@ =~= seq!['0']);
    }
}

/// The paths that are read in the answer to a task that was sent.
proof fn lemma_answer_paths(parsed: JsonView)
    ensures
        parsed.pointer(seq!["result"@, "id"@]) == member(parsed.get("result"@), "id"@),
        parsed.pointer(seq!["result"@, "status"@, "state"@]) == member(
            member(parsed.get("result"@), "status"@),
            "state"@,
        ),
        parsed.pointer(artifact_text_path()) == member(
            first(member(first(member(parsed.get("result"@), "artifacts"@)), "parts"@)),
            "text"@,
        ),
{
    reveal_strlit("result");
    reveal_strlit("id");
    reveal_strlit("status");
    reveal_strlit("state");
    reveal_strlit("artifacts");
    reveal_strlit("parts");
    reveal_strlit("text");
    let none = Seq::<Seq<char>>::empty();
    let id = seq!["id"@];
    let state = seq!["state"@];
    let status = seq!["status"@, "state"@];
    let text = seq!["text"@];
    let part = seq!["0"@, "text"@];
    let parts = seq!["parts"@, "0"@, "text"@];
    let artifact = seq!["0"@, "parts"@, "0"@, "text"@];
    let artifacts = seq!["artifacts"@, "0"@, "parts"@, "0"@, "text"@];
    assert(seq!["id"@] + none =~= id);
    assert(seq!["state"@] + none =~= state);
    assert(seq!["status"@] + state =~= status);
    assert(seq!["text"@] + none =~= text);
    assert(seq!["0"@] + text =~= part);
    assert(seq!["parts"@] + part =~= parts);
    assert(seq!["0"@] + parts =~= artifact);
    assert(seq!["artifacts"@] + artifact =~= artifacts);
    assert(seq!["result"@] + id =~= seq!["result"@, "id"@]);
    assert(seq!["result"@] + status =~= seq!["result"@, "status"@, "state"@]);
    assert(seq!["result"@] + artifacts =~= artifact_text_path());
    lemma_path_step(parsed, "result"@, id);
    lemma_path_step(parsed, "result"@, status);
    lemma_path_step(parsed, "result"@, artifacts);
    if let Some(result) = parsed.get("result"@) {
        lemma_path_step(result, "id"@, none);
        lemma_path_step(result, "status"@, state);
        if let Some(v) = result.get("status"@) {
            lemma_path_step(v, "state"@, none);
        }
        lemma_path_step(result, "artifacts"@, artifact);
        if let Some(list) = result.get("artifacts"@) {
            lemma_path_step(list, "0"@, parts);
            if let Some(one) = first(Some(list)) {
                lemma_path_step(one, "parts"@, part);
                if let Some(pieces) = one.get("parts"@) {
                    lemma_path_step(pieces, "0"@, text);
                    if let Some(piece) = first(Some(pieces)) {
                        lemma_path_step(piece, "text"@, none);
                    }
                }
            }
        }
    }
}

/// How the answer to a task that was sent is read: an error as an error, shown as JSON; else
/// the peer's description, the task's id and state, and on a new line the text of the first
/// part of the first artifact, or the answer as it came where there is no such text.
pub proof fn law_sent_result(
    description: Option<String>,
    text: Seq<char>,
    parsed: JsonView,
    result: ToolResult,
)
    requires
        result@ == sent_result(config::text_view(description), text, parsed),
    ensures
        match parsed.get("error"@) {
            Some(error) => fails_with(result, "peer JSON-RPC error: "@ + json::json_text(error)),
            None => {
                let task = parsed.get("result"@);
                &&& result.success
                &&& result.error is None
                &&& result.output@ == "peer="@ + (match description {
                    Some(s) => s@,
                    None => "(no description)"@,
                }) + " task_id="@ + text_of(member(task, "id"@), Seq::empty()) + " state="@
                    + text_of(member(member(task, "status"@), "state"@), "unknown"@) + "\n"@
                    + text_of(
                    member(first(member(first(member(task, "artifacts"@)), "parts"@)), "text"@),
                    text,
                )
            },
        },
{
    reveal_strlit("");
    assert(""@ =~= Seq::<char>::empty());
    lemma_answer_paths(parsed);
}

/// What the tool makes of a peer's answer. A status outside of 200 to 299 is an error that
/// shows it with the text. The answer to a task that was sent is read as JSON, as null where
/// it is none, and any other answer is given back as it came.
pub proof fn law_answered(call: PeerCall, status: u16, text: Seq<char>, result: ToolResult)
    requires
        result@ == answered_result(call@, status, text),
    ensures
        status < 200 || status > 299 ==> fails_with(
            result,
            "peer returned "@ + web::status_text(status) + ": "@ + text,
        ),
        200 <= status <= 299 && call.kind != CallKind::Send ==> {
            &&& result.success
            &&& result.output@ == text
            &&& result.error is None
        },
        200 <= status <= 299 && call.kind == CallKind::Send ==> result@ == sent_result(
            config::text_view(call.description),
            text,
            match json::parsed_json(text) {
                Some(parsed) => parsed,
                None => JsonView::Null,
            },
        ),
{
}

/// What is said of a request that did not get to the peer: which request it was, where to
/// and why.
pub proof fn law_not_sent(call: PeerCall, reason: Seq<char>)
    ensures
        call.kind == CallKind::Send ==> not_sent_message(call@, reason) == "A2A send to "@
            + call.url@ + " failed: "@ + reason,
        call.kind == CallKind::Discover ==> not_sent_message(call@, reason) == "A2A discover "@
            + call.url@ + " failed: "@ + reason,
        call.kind == CallKind::Status ==> not_sent_message(call@, reason) == "A2A status "@
            + call.url@ + " failed: "@ + reason,
{
}

/// Whether a schema is that of a text with this description, and has no members but those
/// and perhaps the two of a choice.
pub open spec fn describes_text(schema: JsonView, description: Seq<char>) -> bool {
    &&& schema.get("type"@) == Some(JsonView::Text("string"@))
    &&& schema.get("description"@) == Some(JsonView::Text(description))
    &&& forall|key: Seq<char>| #[trigger]
        schema.get(key) is Some ==> key == "type"@ || key == "description"@ || key == "enum"@ || key
            == "default"@
}

/// The schema asks for an object with a peer, and knows three more parameters, all of them
/// texts. The action is one of the three that a call is decided for, to send by default.
pub proof fn law_schema(key: Seq<char>)
    ensures
        ({
            let schema = parameters_schema_view();
            &&& schema.get("type"@) == Some(JsonView::Text("object"@))
            &&& schema.get("required"@) == Some(JsonView::Array(seq![JsonView::Text("peer"@)]))
            &&& schema.get(key) is Some ==> key == "type"@ || key == "properties"@ || key
                == "required"@
            &&& schema.get("properties"@) matches Some(known) && {
                &&& describes_text(
                    known.get("peer"@)->0,
                    "Name of a pre-registered peer (from [a2a.peers.<peer>] config)"@,
                )
                &&& describes_text(
                    known.get("task"@)->0,
                    "The question or task text to send to the peer agent"@,
                )
                &&& describes_text(
                    known.get("action"@)->0,
                    "Which A2A call to make. Default 'send'."@,
                )
                &&& describes_text(
                    known.get("task_id"@)->0,
                    "Required only for action='status' — the task id returned by a previous send."@,
                )
                &&& known.get("action"@)->0.get("enum"@) == Some(
                    JsonView::Array(
                        seq![
                            JsonView::Text("send"@),
                            JsonView::Text("discover"@),
                            JsonView::Text("status"@),
                        ],
                    ),
                )
                &&& known.get("action"@)->0.get("default"@) == Some(JsonView::Text("send"@))
                &&& known.get("peer"@)->0.get("enum"@) is None && known.get("peer"@)->0.get(
                    "default"@,
                ) is None
                &&& known.get("task"@)->0.get("enum"@) is None && known.get("task"@)->0.get(
                    "default"@,
                ) is None
                &&& known.get("task_id"@)->0.get("enum"@) is None && known.get("task_id"@)->0.get(
                    "default"@,
                ) is None
                &&& known.get("peer"@) is Some && known.get("task"@) is Some && known.get(
                    "action"@,
                ) is Some && known.get("task_id"@) is Some
                &&& known.get(key) is Some ==> key == "peer"@ || key == "task"@ || key == "action"@
                    || key == "task_id"@
            }
        }),
{
    reveal_strlit("type");
    reveal_strlit("description");
    reveal_strlit("enum");
    reveal_strlit("default");
    reveal_strlit("properties");
    reveal_strlit("required");
    reveal_strlit("peer");
    reveal_strlit("task");
    reveal_strlit("action");
    reveal_strlit("task_id");
    assert("type"@[0] != "enum"@[0]);
    assert("peer"@[0] != "task"@[0]);
    assert("description"@.len() == 11 && "default"@.len() == 7 && "properties"@.len() == 10
        && "required"@.len() == 8 && "action"@.len() == 6 && "task_id"@.len() == 7);
}

} // verus!
