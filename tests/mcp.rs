use constellation_core::mcp::{
    AuditEventType, AuditSeverity, AuthenticationMethod, AuthorizationModel, ComplianceStandard, ComplianceStatus,
    KeyStorage,
};
use constellation_core::{
    AccessControl, AuditLogging, KeyManagement, McpAlgorithms, McpEncryptedMessage, McpSecureEnvelope,
    McpSecurityContext, McpSignature, SecurityLevel, Timestamp,
};

fn envelope() -> McpSecureEnvelope {
    McpSecureEnvelope::new(
        "alice".to_string(),
        "bob".to_string(),
        "task".to_string(),
        McpEncryptedMessage {
            ciphertext: "ct".to_string(),
            algorithm: "AES-256-GCM".to_string(),
            iv: None,
            key_id: "k1".to_string(),
        },
        McpSignature {
            signer: "alice".to_string(),
            algorithm: "Ed25519".to_string(),
            signature: "sig".to_string(),
            signed_at: Timestamp::from_micros(0),
            nonce: "n".to_string(),
            key_id: "k1".to_string(),
        },
    )
}

#[test]
fn default_algorithms() {
    let a = McpAlgorithms::default();
    assert_eq!(a.signature, "Ed25519");
    assert_eq!(a.encryption, "AES-256-GCM");
    assert_eq!(a.key_exchange, "X25519");
    assert_eq!(a.hash, "SHA-256");
}

#[test]
fn default_key_management() {
    let k = KeyManagement::default();
    assert_eq!(k.rotation_policy.interval_days, 90);
    assert!(k.rotation_policy.rotate_on_compromise);
    assert_eq!(k.rotation_policy.max_lifetime_days, 365);
    assert_eq!(k.storage, KeyStorage::EncryptedDisk);
    assert!(k.backup_policy.enabled);
    assert_eq!(k.backup_policy.frequency_days, 7);
    assert!(k.backup_policy.encrypted);
}

#[test]
fn default_access_control() {
    let a = AccessControl::default();
    assert_eq!(a.authentication, AuthenticationMethod::PublicKey);
    assert_eq!(a.authorization, AuthorizationModel::Rbac);
    assert_eq!(a.roles.len(), 2);
    assert_eq!(a.roles[0].name, "admin");
    assert_eq!(a.roles[0].permissions[0].resource, "*");
    assert_eq!(a.roles[0].permissions[0].action, "*");
    assert_eq!(a.roles[1].name, "user");
    assert_eq!(a.roles[1].permissions.len(), 2);
    assert_eq!(a.roles[1].permissions[1].action, "write");
}

#[test]
fn default_audit_logging() {
    let l = AuditLogging::default();
    assert!(l.enabled);
    assert_eq!(l.retention_days, 365);
    assert_eq!(l.events_to_log.len(), 3);
    assert_eq!(l.events_to_log[1].event_type, AuditEventType::Authorization);
    assert_eq!(l.events_to_log[1].severity, AuditSeverity::Warning);
    assert!(!l.events_to_log[1].log_success);
    assert_eq!(l.events_to_log[2].event_type, AuditEventType::SecurityEvent);
    assert_eq!(l.events_to_log[2].severity, AuditSeverity::Critical);
}

#[test]
fn new_context_uses_defaults() {
    let c = McpSecurityContext::new(SecurityLevel::Medium);
    assert_eq!(c.protocol_version, "1.0.0");
    assert_eq!(c.security_level, SecurityLevel::Medium);
    assert_eq!(c.key_management.storage, KeyStorage::EncryptedDisk);
    assert!(c.compliance.is_empty());
}

#[test]
fn high_security_context() {
    let c = McpSecurityContext::high_security();
    assert_eq!(c.security_level, SecurityLevel::High);
    assert_eq!(c.algorithms.signature, "Ed25519");
    assert_eq!(c.algorithms.encryption, "AES-256-GCM");
    assert_eq!(c.key_management.storage, KeyStorage::Hsm);
    assert_eq!(c.access_control.authentication, AuthenticationMethod::MutualTls);
}

#[test]
fn compliance_requires_implemented_or_verified() {
    let mut c = McpSecurityContext::new(SecurityLevel::High);
    c.add_compliance(ComplianceStandard::Gdpr, "art-32".to_string(), "Security of processing".to_string());
    c.add_compliance(ComplianceStandard::Hipaa, "164.312".to_string(), "Technical safeguards".to_string());
    assert_eq!(c.compliance.len(), 2);
    assert_eq!(c.compliance[0].status, ComplianceStatus::NotImplemented);
    assert!(!c.is_compliant(ComplianceStandard::Gdpr, "art-32"));
    c.compliance[0].status = ComplianceStatus::PartiallyImplemented;
    assert!(!c.is_compliant(ComplianceStandard::Gdpr, "art-32"));
    c.compliance[0].status = ComplianceStatus::Implemented;
    assert!(c.is_compliant(ComplianceStandard::Gdpr, "art-32"));
    assert!(!c.is_compliant(ComplianceStandard::Hipaa, "art-32"));
    assert!(!c.is_compliant(ComplianceStandard::Gdpr, "art-33"));
    c.compliance[1].status = ComplianceStatus::Verified;
    assert!(c.is_compliant(ComplianceStandard::Hipaa, "164.312"));
}

#[test]
fn envelope_expiry() {
    let mut e = envelope();
    assert!(e.expires_at.is_none());
    assert!(!e.is_expired());
    assert!(!e.is_expired_at(Timestamp::from_micros(i64::MAX)));
    e.set_expiration_at(Timestamp::from_micros(1_000), 2);
    assert_eq!(e.expires_at, Some(Timestamp { micros: 7_200_001_000 }));
    assert!(!e.is_expired_at(Timestamp::from_micros(7_200_001_000)));
    assert!(e.is_expired_at(Timestamp::from_micros(7_200_001_001)));
    e.set_expiration(1);
    assert!(!e.is_expired());
    e.set_expiration(0);
    assert!(e.expires_at.is_some());
}

#[test]
fn far_expiry_saturates() {
    let mut e = envelope();
    e.set_expiration_at(Timestamp::from_micros(i64::MAX - 10), u32::MAX);
    assert_eq!(e.expires_at, Some(Timestamp { micros: i64::MAX }));
}
