//! Agent cards of the agent-to-agent (A2A) protocol: what an agent is, the
//! skills it offers and the interfaces it can be reached at.
use vstd::prelude::*;
use crate::json::{json_array, json_null, json_object, json_string};

verus! {

broadcast use vstd::string::to_string_from_display_ensures_for_str;

/// Protocol spoken at an interface.
#[derive(Clone, Copy, Debug, PartialEq, Eq, Structural)]
pub enum ProtocolBinding {
    JsonRpc,
    Grpc,
    HttpJson,
}

/// Kinds of authentication scheme an agent may require.
#[derive(Clone, Copy, Debug, PartialEq, Eq, Structural)]
pub enum SecuritySchemeType {
    ApiKey,
    Http,
    Oauth2,
    OpenIdConnect,
    MutualTls,
}

/// A task the agent can perform.
#[derive(Clone, Debug, PartialEq)]
pub struct AgentSkill {
    pub id: String,
    pub name: String,
    pub description: String,
    pub tags: Vec<String>,
    pub examples: Option<Vec<String>>,
    /// Input media types accepted by this skill.
    pub input_modes: Option<Vec<String>>,
    /// Output media types produced by this skill.
    pub output_modes: Option<Vec<String>>,
}

/// An address where the agent can be reached, and the protocol spoken there.
#[derive(Clone, Debug, PartialEq)]
pub struct AgentInterface {
    pub url: String,
    pub protocol_binding: ProtocolBinding,
    pub tenant: Option<String>,
}

#[derive(Clone, Copy, Debug, PartialEq, Eq, Structural)]
pub struct AgentCapabilities {
    pub streaming: Option<bool>,
    pub push_notifications: Option<bool>,
    pub state_transition_history: Option<bool>,
}

impl Default for AgentCapabilities {
    /// Nothing declared.
    fn default() -> (r: AgentCapabilities)
        ensures
            r.streaming is None,
            r.push_notifications is None,
            r.state_transition_history is None,
    {
        AgentCapabilities { streaming: None, push_notifications: None, state_transition_history: None }
    }
}

#[derive(Clone, Debug, PartialEq)]
pub struct AgentContact {
    pub email: Option<String>,
}

/// The organisation or developer behind an agent.
#[derive(Clone, Debug, PartialEq)]
pub struct AgentProvider {
    pub name: String,
    pub url: Option<String>,
    pub contact: Option<AgentContact>,
}

/// Platform-specific facts about an agent, stored in its card's metadata
/// under the key "constellation".
#[derive(Clone, Debug, PartialEq)]
pub struct ConstellationMetadata {
    pub role: String,
    pub internal_status: String,
    pub capabilities: Vec<String>,
    pub last_seen: Option<String>,
}

/// An agent card.
#[derive(Clone, Debug, PartialEq)]
pub struct Agent {
    pub id: String,
    pub name: String,
    pub description: String,
    /// Version of the A2A protocol the agent speaks.
    pub protocol_version: String,
    pub version: String,
    pub default_input_modes: Vec<String>,
    pub default_output_modes: Vec<String>,
    pub provider: AgentProvider,
    pub capabilities: AgentCapabilities,
    pub skills: Vec<AgentSkill>,
    /// Interfaces in order of preference.
    pub supported_interfaces: Vec<AgentInterface>,
    pub metadata: Option<serde_json::Value>,
    pub supports_extended_agent_card: Option<bool>,
    pub documentation_url: Option<String>,
    pub icon_url: Option<String>,
}

impl ConstellationMetadata {
    /// The metadata as a JSON object with the members "role",
    /// "internal_status", "capabilities" and "last_seen".
    pub fn to_json(&self) -> serde_json::Value {
        let mut caps: Vec<serde_json::Value> = Vec::new();
        for i in 0..self.capabilities.len() {
            caps.push(json_string(self.capabilities[i].clone()));
        }
        let last_seen = match &self.last_seen {
            Some(s) => json_string(s.clone()),
            None => json_null(),
        };
        json_object(vec![
            ("role".to_string(), json_string(self.role.clone())),
            ("internal_status".to_string(), json_string(self.internal_status.clone())),
            ("capabilities".to_string(), json_array(caps)),
            ("last_seen".to_string(), last_seen),
        ])
    }
}

/// The media types an agent accepts and produces unless it says otherwise:
/// plain text and JSON.
fn default_modes() -> (r: Vec<String>)
    ensures
        r@.len() == 2,
        r@[0]@ == "text/plain"@,
        r@[1]@ == "application/json"@,
{
    vec!["text/plain".to_string(), "application/json".to_string()]
}

/// Index of the first interface of `ifaces` that speaks `protocol`.
pub open spec fn is_first_with_binding(ifaces: Seq<AgentInterface>, protocol: ProtocolBinding, i: int) -> bool {
    &&& 0 <= i < ifaces.len()
    &&& ifaces[i].protocol_binding == protocol
    &&& forall|j: int| 0 <= j < i ==> #[trigger] ifaces[j].protocol_binding != protocol
}

/// Index of the first skill of `skills` with id `id`.
pub open spec fn is_first_with_id(skills: Seq<AgentSkill>, id: Seq<char>, i: int) -> bool {
    &&& 0 <= i < skills.len()
    &&& skills[i].id@ == id
    &&& forall|j: int| 0 <= j < i ==> #[trigger] skills[j].id@ != id
}

impl Agent {
    /// A card for protocol version "1.0", agent version "1.0.0", accepting
    /// and producing plain text and JSON, from provider `provider_name`,
    /// with no declared capabilities, no metadata and no extended card.
    pub fn new(
        id: String,
        name: String,
        description: String,
        provider_name: String,
        skills: Vec<AgentSkill>,
        supported_interfaces: Vec<AgentInterface>,
    ) -> (r: Agent)
        ensures
            r.id == id,
            r.name == name,
            r.description == description,
            r.protocol_version@ == "1.0"@,
            r.version@ == "1.0.0"@,
            r.default_input_modes@.len() == 2,
            r.default_input_modes@[0]@ == "text/plain"@,
            r.default_input_modes@[1]@ == "application/json"@,
            r.default_output_modes@.len() == 2,
            r.default_output_modes@[0]@ == "text/plain"@,
            r.default_output_modes@[1]@ == "application/json"@,
            r.provider.name == provider_name,
            r.provider.url is None,
            r.provider.contact is None,
            r.capabilities == (AgentCapabilities { streaming: None, push_notifications: None, state_transition_history: None }),
            r.skills == skills,
            r.supported_interfaces == supported_interfaces,
            r.metadata is None,
            r.supports_extended_agent_card == Some(false),
            r.documentation_url is None,
            r.icon_url is None,
    {
        Agent {
            id,
            name,
            description,
            protocol_version: "1.0".to_string(),
            version: "1.0.0".to_string(),
            default_input_modes: default_modes(),
            default_output_modes: default_modes(),
            provider: AgentProvider { name: provider_name, url: None, contact: None },
            capabilities: AgentCapabilities::default(),
            skills,
            supported_interfaces,
            metadata: None,
            supports_extended_agent_card: Some(false),
            documentation_url: None,
            icon_url: None,
        }
    }

    /// A card as `new` makes it, provided by "Constellation Team", whose
    /// metadata is an object holding under "constellation" the agent's
    /// role, the status "idle", its capabilities and no last-seen time.
    pub fn new_constellation_agent(
        id: String,
        name: String,
        description: String,
        role: String,
        capabilities: Vec<String>,
        skills: Vec<AgentSkill>,
        supported_interfaces: Vec<AgentInterface>,
    ) -> (r: Agent)
        ensures
            r.id == id,
            r.name == name,
            r.description == description,
            r.protocol_version@ == "1.0"@,
            r.version@ == "1.0.0"@,
            r.provider.name@ == "Constellation Team"@,
            r.skills == skills,
            r.supported_interfaces == supported_interfaces,
            r.metadata is Some,
            r.supports_extended_agent_card == Some(false),
    {
        let mut agent = Agent::new(id, name, description, "Constellation Team".to_string(), skills, supported_interfaces);
        let metadata = ConstellationMetadata {
            role,
            internal_status: "idle".to_string(),
            capabilities,
            last_seen: None,
        };
        agent.metadata = Some(json_object(vec![("constellation".to_string(), metadata.to_json())]));
        agent
    }

    /// Whether some interface speaks `protocol`.
    pub fn supports_protocol(&self, protocol: ProtocolBinding) -> (r: bool)
        ensures
            r == exists|i: int| 0 <= i < self.supported_interfaces@.len()
                && #[trigger] self.supported_interfaces@[i].protocol_binding == protocol,
    {
        let n = self.supported_interfaces.len();
        for i in 0..n
            invariant
                n == self.supported_interfaces@.len(),
                forall|j: int| 0 <= j < i ==> #[trigger] self.supported_interfaces@[j].protocol_binding != protocol,
        {
            if self.supported_interfaces[i].protocol_binding == protocol {
                return true;
            }
        }
        false
    }

    /// The URL of the first interface, in order of preference, that speaks
    /// `protocol`; None if none does.
    pub fn get_interface_url(&self, protocol: ProtocolBinding) -> (r: Option<&String>)
        ensures
            match r {
                Some(url) => exists|i: int| is_first_with_binding(self.supported_interfaces@, protocol, i)
                    && *url == #[trigger] self.supported_interfaces@[i].url,
                None => forall|i: int| 0 <= i < self.supported_interfaces@.len()
                    ==> #[trigger] self.supported_interfaces@[i].protocol_binding != protocol,
            },
    {
        let n = self.supported_interfaces.len();
        for i in 0..n
            invariant
                n == self.supported_interfaces@.len(),
                forall|j: int| 0 <= j < i ==> #[trigger] self.supported_interfaces@[j].protocol_binding != protocol,
        {
            if self.supported_interfaces[i].protocol_binding == protocol {
                assert(is_first_with_binding(self.supported_interfaces@, protocol, i as int));
                return Some(&self.supported_interfaces[i].url);
            }
        }
        None
    }

    /// Whether some skill has id `skill_id`.
    pub fn has_skill(&self, skill_id: &str) -> (r: bool)
        ensures
            r == exists|i: int| 0 <= i < self.skills@.len() && #[trigger] self.skills@[i].id@ == skill_id@,
    {
        let wanted = skill_id.to_string();
        let n = self.skills.len();
        for i in 0..n
            invariant
                n == self.skills@.len(),
                wanted@ == skill_id@,
                forall|j: int| 0 <= j < i ==> #[trigger] self.skills@[j].id@ != skill_id@,
        {
            if self.skills[i].id == wanted {
                return true;
            }
        }
        false
    }

    /// The first skill with id `skill_id`; None if there is none.
    pub fn get_skill(&self, skill_id: &str) -> (r: Option<&AgentSkill>)
        ensures
            match r {
                Some(skill) => exists|i: int| is_first_with_id(self.skills@, skill_id@, i) && *skill == #[trigger] self.skills@[i],
                None => forall|i: int| 0 <= i < self.skills@.len() ==> #[trigger] self.skills@[i].id@ != skill_id@,
            },
    {
        let wanted = skill_id.to_string();
        let n = self.skills.len();
        for i in 0..n
            invariant
                n == self.skills@.len(),
                wanted@ == skill_id@,
                forall|j: int| 0 <= j < i ==> #[trigger] self.skills@[j].id@ != skill_id@,
        {
            if self.skills[i].id == wanted {
                assert(is_first_with_id(self.skills@, skill_id@, i as int));
                return Some(&self.skills[i]);
            }
        }
        None
    }
}

} // verus!
