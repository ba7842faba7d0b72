//! What two agents can rely on when one delegates to the other.

use crate::auth;
use crate::config;
use crate::config::{A2aConfig, A2aPeerConfig};
use crate::delegate;
use crate::delegate::{PeerCall, ToolResultView, ToolStep};
use crate::json;
use crate::json::JsonView;
use crate::message;
use crate::rpc;
use crate::rpc::{PendingView, StepView};
use crate::tasks::TaskView;
use crate::text;
use crate::web::ReplyView;
use vstd::prelude::*;
use vstd::string::*;

verus! {

/// The keys and tokens that the exchange reads are different texts.
proof fn lemma_keys()
    ensures
        "message"@.len() == 7,
        "parts"@.len() == 5,
        "role"@.len() == 4,
        "kind"@.len() == 4,
        "text"@.len() == 4,
        "name"@.len() == 4,
        "id"@.len() == 2,
        "error"@.len() == 5,
        "result"@.len() == 6,
        "status"@.len() == 6,
        "state"@.len() == 5,
        "artifacts"@.len() == 9,
        "artifactId"@.len() == 10,
        "jsonrpc"@.len() == 7,
        "kind"@ != "text"@,
        "role"@ != "text"@,
        "result"@ != "status"@,
        "message"@ != "jsonrpc"@,
        "state"@ != "parts"@,
        "0"@.len() == 1,
        "0"@[0] == '0',
{
    reveal_strlit("message");
    reveal_strlit("parts");
    reveal_strlit("role");
    reveal_strlit("kind");
    reveal_strlit("text");
    reveal_strlit("name");
    reveal_strlit("id");
    reveal_strlit("error");
    reveal_strlit("result");
    reveal_strlit("status");
    reveal_strlit("state");
    reveal_strlit("artifacts");
    reveal_strlit("artifactId");
    reveal_strlit("jsonrpc");
    reveal_strlit("0");
    assert("kind"@[0] != "text"@[0]);
    assert("role"@[0] != "text"@[0]);
    assert("result"@[0] != "status"@[0]);
    assert("message"@[0] != "jsonrpc"@[0]);
    assert("state"@[0] != "parts"@[0]);
}

/// The first step of a path.
proof fn lemma_pointer_step(value: JsonView, token: Seq<char>, rest: Seq<Seq<char>>)
    ensures
        value.pointer(seq![token] + rest) == (match value.child(token) {
            Some(next) => next.pointer(rest),
            None => None,
        }),
{
    let path = seq![token] + rest;
    assert(path[0] == token);
    assert(path.drop_first() =~= rest);
}

/// A task that is sent is understood: the receiver reads the very text that was sent,
/// unless there is nothing but white space in it, which it refuses.
pub proof fn law_sent_task_is_understood(task: Seq<char>)
    ensures
        message::message_text(delegate::send_params(task)) == (if text::blank(task) {
            None
        } else {
            Some(task)
        }),
{
    lemma_keys();
    let params = delegate::send_params(task);
    let sent = params.get("message"@)->0;
    let parts = sent.get("parts"@)->0;
    let path = seq!["message"@, "parts"@];
    let empty = Seq::<Seq<char>>::empty();
    lemma_pointer_step(params, "message"@, seq!["parts"@]);
    lemma_pointer_step(sent, "parts"@, empty);
    assert(seq!["message"@] + seq!["parts"@] =~= path);
    assert(seq!["parts"@] + empty =~= seq!["parts"@]);
    assert(params.pointer(path) == Some(parts));
    let items = parts.items()->0;
    assert(items.len() == 1);
    assert(message::part_text(items.last()) == Some(task));
    assert(items.drop_last() =~= Seq::<JsonView>::empty());
    assert(message::part_texts(items.drop_last()) =~= empty);
    assert(message::part_texts(items) =~= seq![task]);
    assert(message::joined(message::part_texts(items)) == task);
}

/// Asking for a task's status asks the receiver for that very task.
pub proof fn law_status_is_asked_for(task_id: Seq<char>)
    ensures
        rpc::asks_for(delegate::status_params(task_id), task_id),
{
}

/// A request carries its method, its parameters and its id where the receiver looks for
/// them.
pub proof fn law_request_is_routed(request_id: Seq<char>, method: Seq<char>, params: JsonView)
    ensures
        ({
            let body = delegate::request_body(request_id, method, params);
            &&& body.get("jsonrpc"@) == Some(JsonView::Text("2.0"@))
            &&& body.get("id"@) == Some(JsonView::Text(request_id))
            &&& body.get("method"@) == Some(JsonView::Text(method))
            &&& body.get("params"@) == Some(params)
        }),
{
    lemma_keys();
    reveal_strlit("method");
    reveal_strlit("params");
    assert("method"@.len() == 6 && "params"@.len() == 6);
    assert("method"@[0] != "params"@[0]);
}

/// Where the pieces of a task's result stand in an answer.
proof fn lemma_result_paths(id: JsonView, result: JsonView, state: JsonView)
    requires
        result.get("status"@) == Some(state),
    ensures
        rpc::result_envelope(id, result).pointer(seq!["result"@, "id"@]) == result.child("id"@),
        rpc::result_envelope(id, result).pointer(seq!["result"@, "status"@, "state"@])
            == state.child("state"@),
        rpc::result_envelope(id, result).pointer(delegate::artifact_text_path())
            == result.pointer(seq!["artifacts"@, "0"@, "parts"@, "0"@, "text"@]),
        rpc::result_envelope(id, result).get("error"@) is None,
{
    lemma_keys();
    let body = rpc::result_envelope(id, result);
    let empty = Seq::<Seq<char>>::empty();
    rpc::lemma_result_envelope(id, result);
    lemma_pointer_step(body, "result"@, seq!["id"@]);
    lemma_pointer_step(result, "id"@, empty);
    assert(seq!["result"@] + seq!["id"@] =~= seq!["result"@, "id"@]);
    assert(seq!["id"@] + empty =~= seq!["id"@]);
    lemma_pointer_step(body, "result"@, seq!["status"@, "state"@]);
    lemma_pointer_step(result, "status"@, seq!["state"@]);
    lemma_pointer_step(state, "state"@, empty);
    assert(seq!["result"@] + seq!["status"@, "state"@] =~= seq!["result"@, "status"@, "state"@]);
    assert(seq!["status"@] + seq!["state"@] =~= seq!["status"@, "state"@]);
    assert(seq!["state"@] + empty =~= seq!["state"@]);
    let tail = seq!["artifacts"@, "0"@, "parts"@, "0"@, "text"@];
    lemma_pointer_step(body, "result"@, tail);
    assert(seq!["result"@] + tail =~= delegate::artifact_text_path());
}

/// Where the agent's response stands in the result of a completed task.
proof fn lemma_response_path(task_id: Seq<char>, artifact_id: Seq<char>, response: Seq<char>)
    ensures
        rpc::task_result(
            task_id,
            "completed"@,
            seq![rpc::response_artifact(artifact_id, response)],
        ).pointer(seq!["artifacts"@, "0"@, "parts"@, "0"@, "text"@]) == Some(
            JsonView::Text(response),
        ),
{
    lemma_keys();
    let artifact = rpc::response_artifact(artifact_id, response);
    let result = rpc::task_result(task_id, "completed"@, seq![artifact]);
    let empty = Seq::<Seq<char>>::empty();
    let artifacts = result.get("artifacts"@)->0;
    let parts = artifact.get("parts"@)->0;
    let part = parts.items()->0[0];
    assert(json::is_index_token("0"@));
    assert(json::decimal_value("0"@) == 0) by {
        assert("0"@.drop_last() =~= Seq::<char>::empty());
        assert(json::decimal_value("0"@.drop_last()) == 0);
    }
    assert(artifacts.child("0"@) == Some(artifact));
    assert(parts.child("0"@) == Some(part));
    assert(part.get("text"@) == Some(JsonView::Text(response)));
    lemma_pointer_step(result, "artifacts"@, seq!["0"@, "parts"@, "0"@, "text"@]);
    lemma_pointer_step(artifacts, "0"@, seq!["parts"@, "0"@, "text"@]);
    lemma_pointer_step(artifact, "parts"@, seq!["0"@, "text"@]);
    lemma_pointer_step(parts, "0"@, seq!["text"@]);
    lemma_pointer_step(part, "text"@, empty);
    assert(seq!["artifacts"@] + seq!["0"@, "parts"@, "0"@, "text"@] =~= seq![
        "artifacts"@,
        "0"@,
        "parts"@,
        "0"@,
        "text"@,
    ]);
    assert(seq!["0"@] + seq!["parts"@, "0"@, "text"@] =~= seq!["0"@, "parts"@, "0"@, "text"@]);
    assert(seq!["parts"@] + seq!["0"@, "text"@] =~= seq!["parts"@, "0"@, "text"@]);
    assert(seq!["0"@] + seq!["text"@] =~= seq!["0"@, "text"@]);
    assert(seq!["text"@] + empty =~= seq!["text"@]);
}

/// What the tool says of a task at a peer.
pub open spec fn tool_output(
    description: Option<Seq<char>>,
    task_id: Seq<char>,
    state: Seq<char>,
    answer: Seq<char>,
) -> Seq<char> {
    "peer="@ + (match description {
        Some(s) => s,
        None => "(no description)"@,
    }) + " task_id="@ + task_id + " state="@ + state + "\n"@ + answer
}

/// The answer that one agent gives to a message is read by the other for what it is:
/// the tool's output ends with the very response, behind the task's id and state.
pub proof fn law_response_is_read(
    description: Option<Seq<char>>,
    text: Seq<char>,
    request_id: JsonView,
    task_id: Seq<char>,
    artifact_id: Seq<char>,
    response: Seq<char>,
)
    ensures
        delegate::sent_result(
            description,
            text,
            rpc::result_envelope(
                request_id,
                rpc::task_result(
                    task_id,
                    "completed"@,
                    seq![rpc::response_artifact(artifact_id, response)],
                ),
            ),
        ) == delegate::success(tool_output(description, task_id, "completed"@, response)),
{
    lemma_keys();
    let result = rpc::task_result(
        task_id,
        "completed"@,
        seq![rpc::response_artifact(artifact_id, response)],
    );
    let state = result.get("status"@)->0;
    assert(result.get("status"@) == Some(state));
    assert(state.child("state"@) == Some(JsonView::Text("completed"@)));
    assert(result.child("id"@) == Some(JsonView::Text(task_id)));
    lemma_result_paths(request_id, result, state);
    lemma_response_path(task_id, artifact_id, response);
}

/// The answer to a message that the agent failed on is read as such: the tool gives the
/// task's id and state, and the answer as it came.
pub proof fn law_failure_is_read(
    description: Option<Seq<char>>,
    text: Seq<char>,
    request_id: JsonView,
    task_id: Seq<char>,
)
    ensures
        delegate::sent_result(
            description,
            text,
            rpc::result_envelope(request_id, rpc::failure_result(task_id)),
        ) == delegate::success(tool_output(description, task_id, "failed"@, text)),
{
    lemma_keys();
    let result = rpc::failure_result(task_id);
    let state = result.get("status"@)->0;
    assert(result.get("status"@) == Some(state));
    assert(state.child("state"@) == Some(JsonView::Text("failed"@)));
    assert(result.child("id"@) == Some(JsonView::Text(task_id)));
    lemma_result_paths(request_id, result, state);
    let tail = seq!["0"@, "parts"@, "0"@, "text"@];
    lemma_pointer_step(result, "artifacts"@, tail);
    assert(seq!["artifacts"@] + tail =~= seq!["artifacts"@, "0"@, "parts"@, "0"@, "text"@]);
    assert(result.get("artifacts"@) is None);
}

/// An error that one agent answers with is an error of the other's tool, which shows it
/// as JSON.
pub proof fn law_error_is_read(
    description: Option<Seq<char>>,
    text: Seq<char>,
    request_id: JsonView,
    code: int,
    message: Seq<char>,
)
    ensures
        ({
            let body = rpc::error_envelope(request_id, code, message);
            let result: ToolResultView = delegate::sent_result(description, text, body);
            &&& body.get("error"@) is Some
            &&& result == delegate::failure(
                "peer JSON-RPC error: "@ + json::json_text(body.get("error"@)->0),
            )
        }),
{
    lemma_keys();
}

/// The requests that an agent sends, and the answers to them, can be rendered as text
/// and parsed back without loss: they hold no fractions and no reserved keys, and are not
/// nested deep.
pub proof fn law_messages_are_plain(
    request_id: Seq<char>,
    task: Seq<char>,
    task_id: Seq<char>,
    artifact_id: Seq<char>,
    response: Seq<char>,
    code: int,
)
    ensures
        delegate::request_body(
            request_id,
            "message/send"@,
            delegate::send_params(task),
        ).plain_within(127),
        delegate::request_body(
            request_id,
            "tasks/get"@,
            delegate::status_params(task_id),
        ).plain_within(127),
        rpc::result_envelope(
            JsonView::Text(request_id),
            rpc::task_result(
                task_id,
                "completed"@,
                seq![rpc::response_artifact(artifact_id, response)],
            ),
        ).plain_within(127),
        rpc::result_envelope(JsonView::Text(request_id), rpc::failure_result(task_id)).plain_within(
            127,
        ),
        rpc::error_envelope(JsonView::Text(request_id), code, response).plain_within(127),
{
    reveal_with_fuel(JsonView::plain_within, 9);
    lemma_keys();
    reveal_strlit("$serde_json::private::RawValue");
    reveal_strlit("method");
    reveal_strlit("params");
    reveal_strlit("code");
    assert(json::reserved_key().len() == 30);
}

/// Delegation works: a peer that takes the request on hands the very task to its agent,
/// and when its answer arrives as JSON text, the tool's result is the agent's response.
pub proof fn law_delegation(
    peer: A2aPeerConfig,
    task: Seq<char>,
    request_id: Seq<char>,
    config: A2aConfig,
    authorization: Option<Seq<u8>>,
    before: Map<Seq<char>, TaskView>,
    taken: Map<Seq<char>, TaskView>,
    pending: PendingView,
    working: Map<Seq<char>, TaskView>,
    finished: Map<Seq<char>, TaskView>,
    response: Seq<char>,
    artifact_id: Seq<char>,
    now: u64,
    reply: ReplyView,
    text: Seq<char>,
)
    requires
        rpc::rpc_handled(
            config,
            authorization,
            before,
            taken,
            "message/send"@,
            delegate::send_params(task),
            JsonView::Text(request_id),
            StepView::Dispatch(pending),
        ),
        rpc::message_responded(working, finished, pending, response, artifact_id, now, reply),
    ensures
        pending.text == task,
        pending.request_id == JsonView::Text(request_id),
        json::parsed_json(text) == Some(reply.body) ==> delegate::answered_result(
            delegate::send_call(peer, task, request_id),
            reply.status.code(),
            text,
        ) == delegate::success(
            tool_output(
                config::text_view(peer.description),
                pending.task_id,
                "completed"@,
                response,
            ),
        ),
{
    law_sent_task_is_understood(task);
    law_response_is_read(
        config::text_view(peer.description),
        text,
        pending.request_id,
        pending.task_id,
        artifact_id,
        response,
    );
    assert(message::message_text(delegate::send_params(task)) is Some);
    assert(rpc::freshly_taken(
        before,
        taken,
        task,
        JsonView::Text(request_id),
        StepView::Dispatch(pending),
    ));
}

/// A peer that is registered with the token that the receiver asks for is let in: the header
/// of `Bearer ` and the token of the request, in visible ASCII, is the one that the receiver
/// accepts. This goes for every endpoint.
pub proof fn law_registered_token_is_accepted(
    config: A2aConfig,
    permission: Result<(), String>,
    args: JsonView,
    call: PeerCall,
    receiver: A2aConfig,
    value: Seq<u8>,
)
    requires
        delegate::carries_out(
            ToolStep::Call(call),
            delegate::decision(config, delegate::permission_view(permission), args),
        ),
        call.body is Some,
        receiver.bearer_token is Some,
        config.peers@[delegate::text_of(args.get("peer"@), Seq::empty())].bearer_token matches Some(
            token,
        ) && token@ == receiver.bearer_token->0@,
        call.bearer_token matches Some(presented) ==> {
            &&& value.len() == 7 + presented@.len()
            &&& value.take(7) == seq![66u8, 101u8, 97u8, 114u8, 101u8, 114u8, 32u8]
            &&& forall|i: int|
                0 <= i < presented@.len() ==> value[7 + i] as int == (#[trigger] presented@[i]) as int
            &&& forall|i: int|
                0 <= i < value.len() ==> 32 <= #[trigger] value[i] < 127 || value[i] == 9
        },
    ensures
        call.bearer_token is Some,
        auth::bearer_accepted(Some(value), Some(receiver.bearer_token->0@)),
{
    delegate::law_executed(config, permission, args, ToolStep::Call(call));
    auth::law_bearer_bytes(value, receiver.bearer_token->0@);
}

} // verus!
