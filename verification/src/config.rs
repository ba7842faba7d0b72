//! The configuration of the protocol: the agent's own card and its peers.

use vstd::hash_map::StringHashMap;
use vstd::prelude::*;

verus! {

/// A peer agent that tasks can be delegated to.
pub struct A2aPeerConfig {
    /// Where the peer listens.
    pub endpoint: String,
    /// The token to present to the peer.
    pub bearer_token: Option<String>,
    pub description: Option<String>,
}

/// The `[a2a]` section of the configuration.
pub struct A2aConfig {
    /// Master switch of the server's endpoints.
    pub enabled: bool,
    pub agent_name: Option<String>,
    pub description: Option<String>,
    pub public_url: Option<String>,
    /// The token that callers must present.
    pub bearer_token: Option<String>,
    pub version: Option<String>,
    pub capabilities: Vec<String>,
    /// Whether peers on the local host or in a private network may be called.
    pub allow_local_peers: bool,
    /// The peers by their names.
    pub peers: StringHashMap<A2aPeerConfig>,
}

/// A text that is there, or another one where it is not.
pub open spec fn text_or(given: Option<String>, otherwise: Seq<char>) -> Seq<char> {
    match given {
        Some(s) => s@,
        None => otherwise,
    }
}

/// A string that is there, or another one where it is not.
pub(crate) fn string_or(given: &Option<String>, otherwise: &str) -> (s: String)
    ensures
        s@ == text_or(*given, otherwise@),
{
    match given {
        Some(text) => text.clone(),
        None => otherwise.to_owned(),
    }
}

/// A string that may be there, as a text.
pub open spec fn text_view(given: Option<String>) -> Option<Seq<char>> {
    match given {
        Some(s) => Some(s@),
        None => None,
    }
}

impl Default for A2aConfig {
    /// Everything is off, and there are no peers.
    fn default() -> (config: A2aConfig)
        ensures
            !config.enabled,
            config.agent_name is None,
            config.description is None,
            config.public_url is None,
            config.bearer_token is None,
            config.version is None,
            config.capabilities@.len() == 0,
            !config.allow_local_peers,
            config.peers@ == Map::<Seq<char>, A2aPeerConfig>::empty(),
    {
        A2aConfig {
            enabled: false,
            agent_name: None,
            description: None,
            public_url: None,
            bearer_token: None,
            version: None,
            capabilities: Vec::new(),
            allow_local_peers: false,
            peers: StringHashMap::new(),
        }
    }
}

} // verus!
