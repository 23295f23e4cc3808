use constellation_core::{Agent, AgentInterface, AgentSkill, ProtocolBinding};

#[test]
fn test_agent_new() {
    let skill = AgentSkill {
        id: "calculation".to_string(),
        name: "Calculation".to_string(),
        description: "Performs mathematical calculations".to_string(),
        tags: vec!["math".to_string(), "analysis".to_string()],
        examples: Some(vec!["Calculate 2 + 2".to_string()]),
        input_modes: None,
        output_modes: None,
    };

    let interface = AgentInterface {
        url: "https://agent.example.com/a2a/v1".to_string(),
        protocol_binding: ProtocolBinding::HttpJson,
        tenant: None,
    };

    let agent = Agent::new(
        "agent-alpha".to_string(),
        "Alpha Agent".to_string(),
        "Handles calculation tasks".to_string(),
        "Constellation Team".to_string(),
        vec![skill.clone()],
        vec![interface.clone()],
    );

    assert_eq!(agent.id, "agent-alpha");
    assert_eq!(agent.name, "Alpha Agent");
    assert_eq!(agent.protocol_version, "1.0");
    assert_eq!(agent.version, "1.0.0");
    assert_eq!(agent.skills.len(), 1);
    assert_eq!(agent.skills[0].id, "calculation");
    assert_eq!(agent.supported_interfaces.len(), 1);
    assert_eq!(agent.supported_interfaces[0].protocol_binding, ProtocolBinding::HttpJson);
}

#[test]
fn test_constellation_agent_new() {
    let skill = AgentSkill {
        id: "system-design".to_string(),
        name: "System Design".to_string(),
        description: "Designs system architecture".to_string(),
        tags: vec!["architecture".to_string(), "design".to_string()],
        examples: None,
        input_modes: None,
        output_modes: None,
    };

    let interface = AgentInterface {
        url: "https://architect.constellation.example.com/a2a/v1".to_string(),
        protocol_binding: ProtocolBinding::HttpJson,
        tenant: None,
    };

    let agent = Agent::new_constellation_agent(
        "architect-001".to_string(),
        "System Architect".to_string(),
        "Designs system architecture and data flows".to_string(),
        "architect".to_string(),
        vec!["system-design".to_string(), "data-modeling".to_string()],
        vec![skill],
        vec![interface],
    );

    assert_eq!(agent.id, "architect-001");
    assert_eq!(agent.name, "System Architect");
    assert_eq!(agent.provider.name, "Constellation Team");

    assert!(agent.metadata.is_some());
    let metadata = agent.metadata.as_ref().unwrap();
    assert!(metadata.get("constellation").is_some());
}

#[test]
fn test_protocol_support() {
    let agent = Agent::new(
        "test-agent".to_string(),
        "Test Agent".to_string(),
        "Test agent".to_string(),
        "Test Provider".to_string(),
        vec![],
        vec![
            AgentInterface {
                url: "https://test.com/jsonrpc".to_string(),
                protocol_binding: ProtocolBinding::JsonRpc,
                tenant: None,
            },
            AgentInterface {
                url: "https://test.com/http".to_string(),
                protocol_binding: ProtocolBinding::HttpJson,
                tenant: None,
            },
        ],
    );

    assert!(agent.supports_protocol(ProtocolBinding::JsonRpc));
    assert!(agent.supports_protocol(ProtocolBinding::HttpJson));
    assert!(!agent.supports_protocol(ProtocolBinding::Grpc));

    assert_eq!(agent.get_interface_url(ProtocolBinding::JsonRpc), Some(&"https://test.com/jsonrpc".to_string()));
    assert_eq!(agent.get_interface_url(ProtocolBinding::Grpc), None);
}

#[test]
fn test_skill_operations() {
    let skill1 = AgentSkill {
        id: "skill-1".to_string(),
        name: "Skill One".to_string(),
        description: "First skill".to_string(),
        tags: vec!["tag1".to_string()],
        examples: None,
        input_modes: None,
        output_modes: None,
    };

    let skill2 = AgentSkill {
        id: "skill-2".to_string(),
        name: "Skill Two".to_string(),
        description: "Second skill".to_string(),
        tags: vec!["tag2".to_string()],
        examples: None,
        input_modes: None,
        output_modes: None,
    };

    let agent = Agent::new(
        "test-agent".to_string(),
        "Test Agent".to_string(),
        "Test agent".to_string(),
        "Test Provider".to_string(),
        vec![skill1.clone(), skill2.clone()],
        vec![],
    );

    assert!(agent.has_skill("skill-1"));
    assert!(agent.has_skill("skill-2"));
    assert!(!agent.has_skill("skill-3"));

    assert_eq!(agent.get_skill("skill-1").unwrap().name, "Skill One");
    assert_eq!(agent.get_skill("skill-3"), None);
}

#[test]
fn agent_new_fills_defaults() {
    let agent = Agent::new("a".to_string(), "A".to_string(), "d".to_string(), "P".to_string(), vec![], vec![]);
    assert_eq!(agent.default_input_modes, vec!["text/plain".to_string(), "application/json".to_string()]);
    assert_eq!(agent.default_output_modes, vec!["text/plain".to_string(), "application/json".to_string()]);
    assert_eq!(agent.supports_extended_agent_card, Some(false));
    assert!(agent.metadata.is_none());
    assert!(agent.capabilities.streaming.is_none());
    assert!(agent.provider.url.is_none());
}

#[test]
fn constellation_metadata_holds_role_status_and_capabilities() {
    let agent = Agent::new_constellation_agent(
        "id".to_string(),
        "name".to_string(),
        "desc".to_string(),
        "architect".to_string(),
        vec!["rust".to_string(), "design".to_string()],
        vec![],
        vec![],
    );
    let c = agent.metadata.as_ref().unwrap().get("constellation").unwrap();
    assert_eq!(c.get("role").unwrap().as_str(), Some("architect"));
    assert_eq!(c.get("internal_status").unwrap().as_str(), Some("idle"));
    let caps = c.get("capabilities").unwrap().as_array().unwrap();
    assert_eq!(caps.len(), 2);
    assert_eq!(caps[0].as_str(), Some("rust"));
    assert_eq!(caps[1].as_str(), Some("design"));
    assert!(c.get("last_seen").unwrap().is_null());
}

#[test]
fn first_matching_interface_is_preferred() {
    let agent = Agent::new(
        "a".to_string(),
        "A".to_string(),
        "d".to_string(),
        "P".to_string(),
        vec![],
        vec![
            AgentInterface { url: "https://one".to_string(), protocol_binding: ProtocolBinding::Grpc, tenant: None },
            AgentInterface { url: "https://two".to_string(), protocol_binding: ProtocolBinding::Grpc, tenant: None },
        ],
    );
    assert_eq!(agent.get_interface_url(ProtocolBinding::Grpc), Some(&"https://one".to_string()));
}
