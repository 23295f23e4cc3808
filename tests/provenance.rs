use constellation_core::provenance::TransformationRecord;
use constellation_core::{DtgDataRef, DtgProvenance, Timestamp};
use std::collections::HashMap;

#[test]
fn unsigned_ledger_fails_signature_check() {
    let ledger = DtgProvenance::new(42);
    assert_eq!(ledger.dtg_id, 42);
    assert!(ledger.signatures.is_empty());
    assert!(ledger.transformation_chain.is_empty());
    assert!(!ledger.verify_signatures());
}

#[test]
fn one_signature_passes_signature_check() {
    let mut ledger = DtgProvenance::new(42);
    ledger.add_signature("auditor".to_string(), "Ed25519".to_string(), "c2ln".to_string());
    assert!(ledger.verify_signatures());
    assert_eq!(ledger.signatures.len(), 1);
    assert_eq!(ledger.signatures[0].signer, "auditor");
    assert_eq!(ledger.signatures[0].algorithm, "Ed25519");
    assert_eq!(ledger.signatures[0].signature, "c2ln");
    assert!(ledger.signatures[0].public_key.is_none());
}

#[test]
fn co_signing_keeps_order() {
    let mut ledger = DtgProvenance::new(1);
    ledger.add_signature_at("a".to_string(), "Ed25519".to_string(), "s1".to_string(), Timestamp::from_micros(10));
    ledger.add_signature_at("b".to_string(), "Ed25519".to_string(), "s2".to_string(), Timestamp::from_micros(20));
    assert_eq!(ledger.signatures.len(), 2);
    assert_eq!(ledger.signatures[0].signer, "a");
    assert_eq!(ledger.signatures[1].signer, "b");
    assert_eq!(ledger.signatures[1].signed_at, Timestamp { micros: 20 });
    assert!(ledger.verify_signatures());
}

#[test]
fn transformations_append_in_call_order() {
    let mut ledger = DtgProvenance::new(1);
    for (node, time) in [(5u128, 300i64), (6, 100)] {
        ledger.add_transformation(TransformationRecord {
            node_id: node,
            agent_id: "agent".to_string(),
            skill_id: "skill".to_string(),
            inputs: vec![DtgDataRef::new("json".to_string())],
            outputs: vec![],
            parameters: HashMap::new(),
            timestamp: Timestamp::from_micros(time),
            transformation_hash: "h".to_string(),
        });
    }
    assert_eq!(ledger.transformation_chain.len(), 2);
    assert_eq!(ledger.transformation_chain[0].node_id, 5);
    assert_eq!(ledger.transformation_chain[1].node_id, 6);
    assert!(!ledger.verify_signatures());
}
