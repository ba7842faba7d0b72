//! The agent card, by which an agent tells others what it is.

use crate::config;
use crate::config::{string_or, A2aConfig};
use crate::json;
use crate::json::{Json, JsonObject, JsonView};
use crate::web;
use crate::web::{plain_error, HttpStatus, Reply, ReplyView};
use vstd::prelude::*;
use vstd::string::*;

verus! {

/// One capability, as a skill of the agent with this name.
pub open spec fn skill_view(name: Seq<char>, capability: Seq<char>) -> JsonView {
    JsonView::Object(
        Map::empty().insert("id"@, JsonView::Text(capability)).insert(
            "name"@,
            JsonView::Text(capability),
        ).insert(
            "description"@,
            JsonView::Text(name + " supports capability: "@ + capability),
        ).insert("tags"@, JsonView::Array(seq![JsonView::Text(capability)])),
    )
}

/// The capabilities, as skills of the agent with this name.
pub open spec fn skills_view(name: Seq<char>, capabilities: Seq<String>) -> Seq<JsonView> {
    Seq::new(capabilities.len(), |i: int| skill_view(name, capabilities[i]@))
}

/// The name that the agent goes by.
pub open spec fn agent_name(config: A2aConfig) -> Seq<char> {
    config::text_or(config.agent_name, "zeroclaw-agent"@)
}

/// The agent card of a configuration. A package's version stands in for one that is
/// not configured.
pub open spec fn agent_card(config: A2aConfig, package_version: Seq<char>) -> JsonView {
    JsonView::Object(
        Map::empty().insert("name"@, JsonView::Text(agent_name(config))).insert(
            "description"@,
            JsonView::Text(
                config::text_or(config.description, "ZeroClaw agent exposed via A2A."@),
            ),
        ).insert(
            "url"@,
            JsonView::Text(config::text_or(config.public_url, "http://127.0.0.1/"@)),
        ).insert("version"@, JsonView::Text(config::text_or(config.version, package_version))).insert(
            "protocolVersion"@,
            JsonView::Text("0.2"@),
        ).insert(
            "capabilities"@,
            JsonView::Object(
                Map::empty().insert("streaming"@, JsonView::Bool(false)).insert(
                    "pushNotifications"@,
                    JsonView::Bool(false),
                ),
            ),
        ).insert(
            "skills"@,
            JsonView::Array(skills_view(agent_name(config), config.capabilities@)),
        ).insert("defaultInputModes"@, JsonView::Array(seq![JsonView::Text("text"@)])).insert(
            "defaultOutputModes"@,
            JsonView::Array(seq![JsonView::Text("text"@)]),
        ),
    )
}

/// One capability, as a skill of the agent with this name.
fn skill(name: &str, capability: &str) -> (value: Json)
    ensures
        value@ == skill_view(name@, capability@),
{
    let description: String = name.to_owned().concat(" supports capability: ").concat(capability);
    Json::Object(
        JsonObject::new().with("id", Json::text(capability)).with(
            "name",
            Json::text(capability),
        ).with("description", Json::Text(description)).with(
            "tags",
            Json::singleton(Json::text(capability)),
        ),
    )
}

/// The capabilities, as skills of the agent with this name.
fn skills(name: &str, capabilities: &Vec<String>) -> (value: Json)
    ensures
        value@ == JsonView::Array(skills_view(name@, capabilities@)),
{
    let mut items: Vec<Json> = Vec::new();
    let mut i: usize = 0;
    while i < capabilities.len()
        invariant
            i <= capabilities.len(),
            items@.len() == i,
            forall|k: int| 0 <= k < i ==> (#[trigger] items@[k])@ == skill_view(name@, capabilities@[k]@),
        decreases capabilities.len() - i,
    {
        items.push(skill(name, capabilities[i].as_str()));
        i += 1;
    }
    proof {
        json::lemma_items_view(items@);
        assert(json::items_view(items@) =~= skills_view(name@, capabilities@));
    }
    Json::Array(items)
}

/// Builds the agent card that is advertised at `/.well-known/agent.json`.
pub fn build_agent_card(config: &A2aConfig, package_version: &str) -> (card: Json)
    ensures
        card@ == agent_card(*config, package_version@),
{
    let name: String = string_or(&config.agent_name, "zeroclaw-agent");
    let description: String = string_or(&config.description, "ZeroClaw agent exposed via A2A.");
    let url: String = string_or(&config.public_url, "http://127.0.0.1/");
    let version: String = string_or(&config.version, package_version);
    let skills: Json = skills(name.as_str(), &config.capabilities);
    let capabilities: Json = Json::Object(
        JsonObject::new().with("streaming", Json::Bool(false)).with(
            "pushNotifications",
            Json::Bool(false),
        ),
    );
    Json::Object(
        JsonObject::new().with("name", Json::Text(name)).with(
            "description",
            Json::Text(description),
        ).with("url", Json::Text(url)).with("version", Json::Text(version)).with(
            "protocolVersion",
            Json::text("0.2"),
        ).with("capabilities", capabilities).with("skills", skills).with(
            "defaultInputModes",
            Json::singleton(Json::text("text")),
        ).with("defaultOutputModes", Json::singleton(Json::text("text"))),
    )
}

/// The answer to a request for the agent card.
pub open spec fn agent_card_reply(config: A2aConfig, package_version: Seq<char>) -> ReplyView {
    if config.enabled {
        ReplyView { status: HttpStatus::Success, body: agent_card(config, package_version) }
    } else {
        ReplyView { status: HttpStatus::NotFound, body: web::error_body("A2A disabled"@) }
    }
}

/// `GET /.well-known/agent.json`: the agent card, unless the protocol is off.
pub fn handle_agent_card(config: &A2aConfig, package_version: &str) -> (reply: Reply)
    ensures
        reply@ == agent_card_reply(*config, package_version@),
{
    if !config.enabled {
        return Reply { status: HttpStatus::NotFound, body: plain_error("A2A disabled") };
    }
    Reply { status: HttpStatus::Success, body: build_agent_card(config, package_version) }
}

/// The keys of the card and of a skill are different texts.
proof fn lemma_card_keys()
    ensures
        "id"@.len() == 2,
        "name"@.len() == 4,
        "tags"@.len() == 4,
        "name"@[0] == 'n',
        "tags"@[0] == 't',
        "description"@.len() == 11,
        "url"@.len() == 3,
        "version"@.len() == 7,
        "protocolVersion"@.len() == 15,
        "capabilities"@.len() == 12,
        "skills"@.len() == 6,
        "defaultInputModes"@.len() == 17,
        "defaultOutputModes"@.len() == 18,
        "streaming"@.len() == 9,
        "pushNotifications"@.len() == 17,
{
    reveal_strlit("id");
    reveal_strlit("name");
    reveal_strlit("tags");
    reveal_strlit("description");
    reveal_strlit("url");
    reveal_strlit("version");
    reveal_strlit("protocolVersion");
    reveal_strlit("capabilities");
    reveal_strlit("skills");
    reveal_strlit("defaultInputModes");
    reveal_strlit("defaultOutputModes");
    reveal_strlit("streaming");
    reveal_strlit("pushNotifications");
}

/// The card gives the configured name, description, address and version, or what stands in
/// for one that is not configured, and says what the agent can do: texts in and out, no
/// streaming, no push notifications. It has no other members.
pub proof fn law_card(config: A2aConfig, package_version: Seq<char>, key: Seq<char>)
    ensures
        ({
            let card = agent_card(config, package_version);
            &&& card.get("name"@) == Some(
                JsonView::Text(
                    match config.agent_name {
                        Some(s) => s@,
                        None => "zeroclaw-agent"@,
                    },
                ),
            )
            &&& card.get("description"@) == Some(
                JsonView::Text(
                    match config.description {
                        Some(s) => s@,
                        None => "ZeroClaw agent exposed via A2A."@,
                    },
                ),
            )
            &&& card.get("url"@) == Some(
                JsonView::Text(
                    match config.public_url {
                        Some(s) => s@,
                        None => "http://127.0.0.1/"@,
                    },
                ),
            )
            &&& card.get("version"@) == Some(
                JsonView::Text(
                    match config.version {
                        Some(s) => s@,
                        None => package_version,
                    },
                ),
            )
            &&& card.get("protocolVersion"@) == Some(JsonView::Text("0.2"@))
            &&& card.get("capabilities"@) matches Some(can) && {
                &&& can.get("streaming"@) == Some(JsonView::Bool(false))
                &&& can.get("pushNotifications"@) == Some(JsonView::Bool(false))
                &&& can.get(key) is Some ==> key == "streaming"@ || key == "pushNotifications"@
            }
            &&& card.get("defaultInputModes"@) == Some(
                JsonView::Array(seq![JsonView::Text("text"@)]),
            )
            &&& card.get("defaultOutputModes"@) == Some(
                JsonView::Array(seq![JsonView::Text("text"@)]),
            )
            &&& card.get(key) is Some ==> {
                ||| key == "name"@ || key == "description"@ || key == "url"@
                ||| key == "version"@ || key == "protocolVersion"@ || key == "capabilities"@
                ||| key == "skills"@ || key == "defaultInputModes"@ || key == "defaultOutputModes"@
            }
        }),
{
    lemma_card_keys();
}

/// The card has one skill for each capability, in order, under the capability's own name:
/// it is the skill's id, its name and its only tag, and the description says that the agent
/// supports it.
pub proof fn law_skills(config: A2aConfig, package_version: Seq<char>, i: int, key: Seq<char>)
    ensures
        agent_card(config, package_version).get("skills"@) matches Some(JsonView::Array(skills)) && {
            &&& skills.len() == config.capabilities@.len()
            &&& 0 <= i < skills.len() ==> {
                let capability = config.capabilities@[i]@;
                let name = match config.agent_name {
                    Some(s) => s@,
                    None => "zeroclaw-agent"@,
                };
                &&& skills[i].get("id"@) == Some(JsonView::Text(capability))
                &&& skills[i].get("name"@) == Some(JsonView::Text(capability))
                &&& skills[i].get("tags"@) == Some(
                    JsonView::Array(seq![JsonView::Text(capability)]),
                )
                &&& skills[i].get("description"@) == Some(
                    JsonView::Text(name + " supports capability: "@ + capability),
                )
                &&& skills[i].get(key) is Some ==> key == "id"@ || key == "name"@ || key == "tags"@
                    || key == "description"@
            }
        },
{
    lemma_card_keys();
}

/// With the protocol on, a request for the card is answered with 200 and the card; with it
/// off, with 404 and an error that says so.
pub proof fn law_card_reply(config: A2aConfig, package_version: Seq<char>, key: Seq<char>)
    ensures
        ({
            let reply = agent_card_reply(config, package_version);
            &&& config.enabled ==> reply.status.code() == 200 && reply.body == agent_card(
                config,
                package_version,
            )
            &&& !config.enabled ==> {
                &&& reply.status.code() == 404
                &&& reply.body.get("error"@) == Some(JsonView::Text("A2A disabled"@))
                &&& reply.body.get(key) is Some ==> key == "error"@
            }
        }),
{
}

} // verus!
