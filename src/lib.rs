//! Core data models of the Constellation multi-agent platform: the data
//! transformation graph with its provenance ledger, agent cards, hybrid
//! strategist/executor configurations and the secure-messaging context.

pub mod acyclic;
pub mod agent;
pub mod clock;
pub mod dtg;
pub mod hybrid_agent;
pub mod json;
pub mod mcp;
pub mod provenance;

pub use agent::{
    Agent, AgentCapabilities, AgentContact, AgentInterface, AgentProvider, AgentSkill, ProtocolBinding,
    SecuritySchemeType,
};
pub use clock::Timestamp;
pub use dtg::{DataTransformationGraph, DtgDataRef, DtgEdge, DtgGraphStatus, DtgMetrics, DtgNode, DtgNodeStatus};
pub use hybrid_agent::{
    CoordinationStrategy, ExecutorConfig, HybridAgentConfig, PerformanceTargets, ResourceAllocation, StrategistConfig,
};
pub use mcp::{
    AccessControl, AuditLogging, KeyManagement, McpAlgorithms, McpEncryptedMessage, McpSecureEnvelope,
    McpSecurityContext, McpSignature, SecurityLevel,
};
pub use provenance::DtgProvenance;
