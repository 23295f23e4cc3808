//! Security context and message envelopes of the Model Context Protocol
//! (MCP) layer: algorithms, key management, access control, audit logging
//! and compliance requirements.
use vstd::prelude::*;
use crate::clock::{new_id, now, Timestamp};

verus! {

broadcast use vstd::string::to_string_from_display_ensures_for_str;

/// Microseconds in one hour.
pub const MICROS_PER_HOUR: i64 = 3_600_000_000;

#[derive(Clone, Copy, Debug, PartialEq, Eq, Structural)]
pub enum SecurityLevel {
    Low,
    Medium,
    High,
    Critical,
}

/// Names of the cryptographic algorithms in use.
#[derive(Clone, Debug)]
pub struct McpAlgorithms {
    pub signature: String,
    pub encryption: String,
    pub key_exchange: String,
    pub hash: String,
}

#[derive(Clone, Copy, Debug, PartialEq, Eq, Structural)]
pub struct RotationPolicy {
    pub interval_days: u32,
    pub rotate_on_compromise: bool,
    pub max_lifetime_days: u32,
}

#[derive(Clone, Copy, Debug, PartialEq, Eq, Structural)]
pub enum KeyStorage {
    Memory,
    EncryptedDisk,
    Hsm,
    CloudKms,
}

#[derive(Clone, Copy, Debug, PartialEq, Eq, Structural)]
pub struct BackupPolicy {
    pub enabled: bool,
    pub frequency_days: u32,
    pub encrypted: bool,
}

#[derive(Clone, Copy, Debug, PartialEq, Eq, Structural)]
pub struct KeyManagement {
    pub rotation_policy: RotationPolicy,
    pub storage: KeyStorage,
    pub backup_policy: BackupPolicy,
}

#[derive(Clone, Copy, Debug, PartialEq, Eq, Structural)]
pub enum AuthenticationMethod {
    PublicKey,
    Certificate,
    OAuth2,
    MutualTls,
}

#[derive(Clone, Copy, Debug, PartialEq, Eq, Structural)]
pub enum AuthorizationModel {
    Rbac,
    Abac,
    Capabilities,
}

/// Permission to perform `action` on `resource`; "*" stands for any.
#[derive(Clone, Debug)]
pub struct Permission {
    pub resource: String,
    pub action: String,
}

#[derive(Clone, Debug)]
pub struct Role {
    pub name: String,
    pub description: String,
    pub permissions: Vec<Permission>,
}

#[derive(Clone, Debug)]
pub struct AccessControl {
    pub authentication: AuthenticationMethod,
    pub authorization: AuthorizationModel,
    pub roles: Vec<Role>,
}

#[derive(Clone, Copy, Debug, PartialEq, Eq, Structural)]
pub enum AuditEventType {
    Authentication,
    Authorization,
    DataAccess,
    SecurityEvent,
}

#[derive(Clone, Copy, Debug, PartialEq, Eq, Structural)]
pub enum AuditSeverity {
    Informational,
    Warning,
    Error,
    Critical,
}

/// A kind of event to log, and whether to log its successes and failures.
#[derive(Clone, Copy, Debug, PartialEq, Eq, Structural)]
pub struct AuditEvent {
    pub event_type: AuditEventType,
    pub severity: AuditSeverity,
    pub log_success: bool,
    pub log_failure: bool,
}

#[derive(Clone, Debug)]
pub struct AuditLogging {
    pub enabled: bool,
    pub retention_days: u32,
    pub events_to_log: Vec<AuditEvent>,
}

#[derive(Clone, Copy, Debug, PartialEq, Eq, Structural)]
pub enum ComplianceStandard {
    Gdpr,
    Hipaa,
    PciDss,
    Soc2,
    Iso27001,
}

#[derive(Clone, Copy, Debug, PartialEq, Eq, Structural)]
pub enum ComplianceStatus {
    NotImplemented,
    PartiallyImplemented,
    Implemented,
    Verified,
}

impl ComplianceStatus {
    /// Whether the requirement is met: implemented, or verified.
    pub open spec fn spec_is_met(self) -> bool {
        self is Implemented || self is Verified
    }
}

#[derive(Clone, Debug)]
pub struct ComplianceRequirement {
    pub standard: ComplianceStandard,
    pub requirement_id: String,
    pub description: String,
    pub status: ComplianceStatus,
}

/// A signature over a message, with the nonce and key it used.
#[derive(Clone, Debug)]
pub struct McpSignature {
    pub signer: String,
    pub algorithm: String,
    pub signature: String,
    pub signed_at: Timestamp,
    pub nonce: String,
    pub key_id: String,
}

/// An encrypted payload; `iv` is the initialisation vector, if any.
#[derive(Clone, Debug)]
pub struct McpEncryptedMessage {
    pub ciphertext: String,
    pub algorithm: String,
    pub iv: Option<String>,
    pub key_id: String,
}

/// The security settings of agent communications.
#[derive(Clone, Debug)]
pub struct McpSecurityContext {
    pub id: u128,
    pub protocol_version: String,
    pub security_level: SecurityLevel,
    pub algorithms: McpAlgorithms,
    pub key_management: KeyManagement,
    pub access_control: AccessControl,
    pub audit_logging: AuditLogging,
    pub compliance: Vec<ComplianceRequirement>,
}

/// A signed, encrypted message with its routing data.
#[derive(Clone, Debug)]
pub struct McpSecureEnvelope {
    pub message_id: u128,
    pub sender: String,
    pub recipient: String,
    pub message_type: String,
    pub payload: McpEncryptedMessage,
    pub signature: McpSignature,
    pub sent_at: Timestamp,
    pub expires_at: Option<Timestamp>,
}

impl Default for McpAlgorithms {
    /// Ed25519 signatures, AES-256-GCM encryption, X25519 key exchange and
    /// SHA-256 hashing.
    fn default() -> (r: McpAlgorithms)
        ensures
            r.signature@ == "Ed25519"@,
            r.encryption@ == "AES-256-GCM"@,
            r.key_exchange@ == "X25519"@,
            r.hash@ == "SHA-256"@,
    {
        McpAlgorithms {
            signature: "Ed25519".to_string(),
            encryption: "AES-256-GCM".to_string(),
            key_exchange: "X25519".to_string(),
            hash: "SHA-256".to_string(),
        }
    }
}

impl KeyManagement {
    pub open spec fn spec_default() -> KeyManagement {
        KeyManagement {
            rotation_policy: RotationPolicy { interval_days: 90, rotate_on_compromise: true, max_lifetime_days: 365 },
            storage: KeyStorage::EncryptedDisk,
            backup_policy: BackupPolicy { enabled: true, frequency_days: 7, encrypted: true },
        }
    }
}

impl Default for KeyManagement {
    /// Rotation every 90 days and on compromise, keys living at most a year,
    /// stored on encrypted disk, with weekly encrypted backups.
    fn default() -> (r: KeyManagement)
        ensures
            r == KeyManagement::spec_default(),
    {
        KeyManagement {
            rotation_policy: RotationPolicy {
                interval_days: 90,
                rotate_on_compromise: true,
                max_lifetime_days: 365,
            },
            storage: KeyStorage::EncryptedDisk,
            backup_policy: BackupPolicy { enabled: true, frequency_days: 7, encrypted: true },
        }
    }
}

fn permission(resource: &str, action: &str) -> (r: Permission)
    ensures
        r.resource@ == resource@,
        r.action@ == action@,
{
    Permission { resource: resource.to_string(), action: action.to_string() }
}

impl Default for AccessControl {
    /// Public-key authentication with role-based authorization, and two
    /// roles: "admin", allowed any action on any resource, and "user",
    /// allowed to read and write "data".
    fn default() -> (r: AccessControl)
        ensures
            r.authentication == AuthenticationMethod::PublicKey,
            r.authorization == AuthorizationModel::Rbac,
            r.roles@.len() == 2,
            r.roles@[0].name@ == "admin"@,
            r.roles@[0].description@ == "System administrator"@,
            r.roles@[0].permissions@.len() == 1,
            r.roles@[0].permissions@[0].resource@ == "*"@,
            r.roles@[0].permissions@[0].action@ == "*"@,
            r.roles@[1].name@ == "user"@,
            r.roles@[1].description@ == "Regular user"@,
            r.roles@[1].permissions@.len() == 2,
            r.roles@[1].permissions@[0].resource@ == "data"@,
            r.roles@[1].permissions@[0].action@ == "read"@,
            r.roles@[1].permissions@[1].resource@ == "data"@,
            r.roles@[1].permissions@[1].action@ == "write"@,
    {
        let admin = Role {
            name: "admin".to_string(),
            description: "System administrator".to_string(),
            permissions: vec![permission("*", "*")],
        };
        let user = Role {
            name: "user".to_string(),
            description: "Regular user".to_string(),
            permissions: vec![permission("data", "read"), permission("data", "write")],
        };
        AccessControl {
            authentication: AuthenticationMethod::PublicKey,
            authorization: AuthorizationModel::Rbac,
            roles: vec![admin, user],
        }
    }
}

impl AuditLogging {
    /// The events logged by default: every authentication, failed
    /// authorizations as warnings, and every security event as critical.
    pub open spec fn default_events() -> Seq<AuditEvent> {
        seq![
            AuditEvent {
                event_type: AuditEventType::Authentication,
                severity: AuditSeverity::Informational,
                log_success: true,
                log_failure: true,
            },
            AuditEvent {
                event_type: AuditEventType::Authorization,
                severity: AuditSeverity::Warning,
                log_success: false,
                log_failure: true,
            },
            AuditEvent {
                event_type: AuditEventType::SecurityEvent,
                severity: AuditSeverity::Critical,
                log_success: true,
                log_failure: true,
            },
        ]
    }
}

impl Default for AuditLogging {
    /// Logging on, kept for a year, for the default events.
    fn default() -> (r: AuditLogging)
        ensures
            r.enabled,
            r.retention_days == 365,
            r.events_to_log@ == AuditLogging::default_events(),
    {
        let r = AuditLogging {
            enabled: true,
            retention_days: 365,
            events_to_log: vec![
                AuditEvent {
                    event_type: AuditEventType::Authentication,
                    severity: AuditSeverity::Informational,
                    log_success: true,
                    log_failure: true,
                },
                AuditEvent {
                    event_type: AuditEventType::Authorization,
                    severity: AuditSeverity::Warning,
                    log_success: false,
                    log_failure: true,
                },
                AuditEvent {
                    event_type: AuditEventType::SecurityEvent,
                    severity: AuditSeverity::Critical,
                    log_success: true,
                    log_failure: true,
                },
            ],
        };
        assert(r.events_to_log@ =~= AuditLogging::default_events());
        r
    }
}

/// Some requirement of `reqs` for `standard` with id `requirement_id` is met.
pub open spec fn meets_requirement(reqs: Seq<ComplianceRequirement>, standard: ComplianceStandard, requirement_id: Seq<char>) -> bool {
    exists|i: int|
        0 <= i < reqs.len() && reqs[i].standard == standard && #[trigger] reqs[i].requirement_id@ == requirement_id
            && reqs[i].status.spec_is_met()
}

impl McpSecurityContext {
    /// A context at `security_level` with protocol version "1.0.0", the
    /// default algorithms, key management, access control and audit
    /// logging, and no compliance requirement.
    pub fn new(security_level: SecurityLevel) -> (r: McpSecurityContext)
        ensures
            r.protocol_version@ == "1.0.0"@,
            r.security_level == security_level,
            r.algorithms.signature@ == "Ed25519"@,
            r.algorithms.encryption@ == "AES-256-GCM"@,
            r.algorithms.key_exchange@ == "X25519"@,
            r.algorithms.hash@ == "SHA-256"@,
            r.key_management == KeyManagement::spec_default(),
            r.access_control.authentication == AuthenticationMethod::PublicKey,
            r.access_control.authorization == AuthorizationModel::Rbac,
            r.access_control.roles@.len() == 2,
            r.audit_logging.enabled,
            r.audit_logging.retention_days == 365,
            r.audit_logging.events_to_log@ == AuditLogging::default_events(),
            r.compliance@.len() == 0,
    {
        McpSecurityContext {
            id: new_id(),
            protocol_version: "1.0.0".to_string(),
            security_level,
            algorithms: McpAlgorithms::default(),
            key_management: KeyManagement::default(),
            access_control: AccessControl::default(),
            audit_logging: AuditLogging::default(),
            compliance: Vec::new(),
        }
    }

    /// A High-level context with Ed25519 signatures, AES-256-GCM encryption,
    /// keys in a hardware security module and mutual-TLS authentication.
    pub fn high_security() -> (r: McpSecurityContext)
        ensures
            r.protocol_version@ == "1.0.0"@,
            r.security_level == SecurityLevel::High,
            r.algorithms.signature@ == "Ed25519"@,
            r.algorithms.encryption@ == "AES-256-GCM"@,
            r.algorithms.key_exchange@ == "X25519"@,
            r.algorithms.hash@ == "SHA-256"@,
            r.key_management == (KeyManagement { storage: KeyStorage::Hsm, ..KeyManagement::spec_default() }),
            r.access_control.authentication == AuthenticationMethod::MutualTls,
            r.access_control.authorization == AuthorizationModel::Rbac,
            r.access_control.roles@.len() == 2,
            r.audit_logging.events_to_log@ == AuditLogging::default_events(),
            r.compliance@.len() == 0,
    {
        let mut context = McpSecurityContext::new(SecurityLevel::High);
        context.algorithms.signature = "Ed25519".to_string();
        context.algorithms.encryption = "AES-256-GCM".to_string();
        context.key_management.storage = KeyStorage::Hsm;
        context.access_control.authentication = AuthenticationMethod::MutualTls;
        context
    }

    /// Records a requirement of `standard`, not yet implemented.
    pub fn add_compliance(&mut self, standard: ComplianceStandard, requirement_id: String, description: String)
        ensures
            final(self).compliance@ == old(self).compliance@.push(ComplianceRequirement {
                standard,
                requirement_id,
                description,
                status: ComplianceStatus::NotImplemented,
            }),
            *final(self) == (McpSecurityContext { compliance: final(self).compliance, ..*old(self) }),
    {
        let requirement = ComplianceRequirement {
            standard,
            requirement_id,
            description,
            status: ComplianceStatus::NotImplemented,
        };
        self.compliance.push(requirement);
    }

    /// Whether a requirement of `standard` with id `requirement_id` is
    /// implemented or verified.
    pub fn is_compliant(&self, standard: ComplianceStandard, requirement_id: &str) -> (r: bool)
        ensures
            r == meets_requirement(self.compliance@, standard, requirement_id@),
    {
        let wanted = requirement_id.to_string();
        let n = self.compliance.len();
        for i in 0..n
            invariant
                n == self.compliance@.len(),
                wanted@ == requirement_id@,
                forall|j: int| 0 <= j < i ==> !(self.compliance@[j].standard == standard
                    && #[trigger] self.compliance@[j].requirement_id@ == requirement_id@
                    && self.compliance@[j].status.spec_is_met()),
        {
            let req = &self.compliance[i];
            let met = match req.status {
                ComplianceStatus::Implemented | ComplianceStatus::Verified => true,
                _ => false,
            };
            if req.standard == standard && req.requirement_id == wanted && met {
                return true;
            }
        }
        false
    }
}

impl McpSecureEnvelope {
    /// An envelope sent now, with a fresh message id and no expiry.
    pub fn new(
        sender: String,
        recipient: String,
        message_type: String,
        payload: McpEncryptedMessage,
        signature: McpSignature,
    ) -> (r: McpSecureEnvelope)
        ensures
            r.sender == sender,
            r.recipient == recipient,
            r.message_type == message_type,
            r.payload == payload,
            r.signature == signature,
            r.expires_at is None,
    {
        McpSecureEnvelope {
            message_id: new_id(),
            sender,
            recipient,
            message_type,
            payload,
            signature,
            sent_at: now(),
            expires_at: None,
        }
    }

    /// Whether the envelope has an expiry and `at` is past it.
    pub fn is_expired_at(&self, at: Timestamp) -> (r: bool)
        ensures
            r == (self.expires_at matches Some(e) && at.micros > e.micros),
    {
        match self.expires_at {
            Some(e) => at.micros > e.micros,
            None => false,
        }
    }

    /// Whether the envelope has an expiry that is past now.
    pub fn is_expired(&self) -> (r: bool)
        ensures
            self.expires_at is None ==> !r,
    {
        let t = now();
        self.is_expired_at(t)
    }

    /// The instant `hours` hours after `at`, or the latest representable
    /// instant if that is further.
    pub open spec fn spec_hours_after(at: Timestamp, hours: u32) -> Timestamp {
        let t = at.micros + hours * MICROS_PER_HOUR;
        Timestamp { micros: if t > i64::MAX { i64::MAX } else { t as i64 } }
    }

    /// Makes the envelope expire `hours_from_now` hours after `at`.
    pub fn set_expiration_at(&mut self, at: Timestamp, hours_from_now: u32)
        ensures
            *final(self) == (McpSecureEnvelope {
                expires_at: Some(McpSecureEnvelope::spec_hours_after(at, hours_from_now)),
                ..*old(self)
            }),
    {
        let t: i128 = at.micros as i128 + hours_from_now as i128 * MICROS_PER_HOUR as i128;
        let micros: i64 = if t > i64::MAX as i128 { i64::MAX } else { t as i64 };
        self.expires_at = Some(Timestamp { micros });
    }

    /// Makes the envelope expire `hours_from_now` hours from now.
    pub fn set_expiration(&mut self, hours_from_now: u32)
        ensures
            final(self).expires_at is Some,
            *final(self) == (McpSecureEnvelope { expires_at: final(self).expires_at, ..*old(self) }),
    {
        let t = now();
        self.set_expiration_at(t, hours_from_now);
    }
}

} // verus!
