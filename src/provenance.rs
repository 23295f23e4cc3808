//! The provenance ledger of a data transformation graph: an append-only
//! record of transformations, data lineage, per-agent summaries and
//! signatures, tied to one graph by its id.
//!
//! Signatures are stored, not checked: `verify_signatures` only tells
//! whether any signature is present. Real verification against public keys
//! belongs to a cryptographic collaborator outside this crate.
use std::collections::HashMap;
use vstd::prelude::*;
use crate::clock::{now, Timestamp};
use crate::dtg::DtgDataRef;

verus! {

/// One transformation in the chain, with its own integrity hash. The hash is
/// computed and checked elsewhere.
#[derive(Clone, Debug)]
pub struct TransformationRecord {
    pub node_id: u128,
    pub agent_id: String,
    pub skill_id: String,
    pub inputs: Vec<DtgDataRef>,
    pub outputs: Vec<DtgDataRef>,
    pub parameters: HashMap<String, serde_json::Value>,
    pub timestamp: Timestamp,
    pub transformation_hash: String,
}

/// A version of a data schema.
#[derive(Clone, Debug)]
pub struct SchemaVersion {
    pub version: String,
    pub schema: serde_json::Value,
    pub created_at: Timestamp,
    pub created_by: String,
}

/// One quality measurement of some data. `value_micro` is the measured value
/// in millionths.
#[derive(Clone, Debug)]
pub struct QualityMetric {
    pub metric: String,
    pub value_micro: i64,
    pub measured_at: Timestamp,
    pub measurement_method: String,
}

/// Where one unit of data came from and went to.
#[derive(Clone, Debug)]
pub struct DataLineage {
    pub data_ref_id: u128,
    pub source_nodes: Vec<u128>,
    pub destination_nodes: Vec<u128>,
    pub data_type: String,
    pub schema_history: Vec<SchemaVersion>,
    pub quality_history: Vec<QualityMetric>,
}

/// Performance of one agent over the graph. The two scores are millionths.
#[derive(Clone, Copy, Debug, PartialEq, Eq, Structural)]
pub struct AgentMetrics {
    pub total_execution_time_ms: u64,
    pub avg_execution_time_ms: u64,
    pub total_nodes_executed: u32,
    pub successful_nodes: u32,
    pub failed_nodes: u32,
    pub resource_efficiency_micro: u32,
    pub quality_score_micro: u32,
}

/// GPU usage; percentages, degrees and watts in millionths.
#[derive(Clone, Copy, Debug, PartialEq, Eq, Structural)]
pub struct GpuUsage {
    pub utilization_percent_micro: u64,
    pub memory_bytes: u64,
    pub temperature_c_micro: i64,
    pub power_watts_micro: u64,
}

/// Resource usage; the CPU percentage in millionths.
#[derive(Clone, Copy, Debug, PartialEq, Eq, Structural)]
pub struct ResourceUsage {
    pub cpu_percent_micro: u64,
    pub memory_bytes: u64,
    pub network_bytes: u64,
    pub disk_bytes: u64,
    pub gpu_usage: Option<GpuUsage>,
}

/// Summary of what one agent executed; the rates are millionths.
#[derive(Clone, Debug)]
pub struct AgentExecutionRecord {
    pub agent_id: String,
    pub executed_nodes: Vec<u128>,
    pub metrics: AgentMetrics,
    pub resource_usage: ResourceUsage,
    pub error_rate_micro: u32,
    pub success_rate_micro: u32,
}

/// A signature attached to the ledger by one party.
#[derive(Clone, Debug)]
pub struct CryptographicSignature {
    pub signer: String,
    pub algorithm: String,
    pub signature: String,
    pub public_key: Option<String>,
    pub signed_at: Timestamp,
}

/// The ledger of one graph.
#[derive(Clone, Debug)]
pub struct DtgProvenance {
    pub dtg_id: u128,
    pub transformation_chain: Vec<TransformationRecord>,
    pub input_lineage: Vec<DataLineage>,
    pub output_lineage: Vec<DataLineage>,
    pub agent_records: Vec<AgentExecutionRecord>,
    pub signatures: Vec<CryptographicSignature>,
    pub recorded_at: Timestamp,
}

impl DtgProvenance {
    /// Whether the ledger carries at least one signature.
    pub open spec fn spec_is_signed(self) -> bool {
        self.signatures@.len() > 0
    }

    /// An empty ledger for graph `dtg_id`, recorded now.
    pub fn new(dtg_id: u128) -> (r: DtgProvenance)
        ensures
            r.dtg_id == dtg_id,
            r.transformation_chain@.len() == 0,
            r.input_lineage@.len() == 0,
            r.output_lineage@.len() == 0,
            r.agent_records@.len() == 0,
            r.signatures@.len() == 0,
    {
        DtgProvenance {
            dtg_id,
            transformation_chain: Vec::new(),
            input_lineage: Vec::new(),
            output_lineage: Vec::new(),
            agent_records: Vec::new(),
            signatures: Vec::new(),
            recorded_at: now(),
        }
    }

    /// Appends `record` to the chain. The ledger does not order records by
    /// time: the chain is in the order of the calls.
    pub fn add_transformation(&mut self, record: TransformationRecord)
        ensures
            final(self).transformation_chain@ == old(self).transformation_chain@.push(record),
            *final(self) == (DtgProvenance {
                transformation_chain: final(self).transformation_chain,
                ..*old(self)
            }),
    {
        self.transformation_chain.push(record);
    }

    /// Appends a signature made at `at`, with no public key. Any number of
    /// parties may sign.
    pub fn add_signature_at(&mut self, signer: String, algorithm: String, signature: String, at: Timestamp)
        ensures
            final(self).signatures@ == old(self).signatures@.push(CryptographicSignature {
                signer,
                algorithm,
                signature,
                public_key: None,
                signed_at: at,
            }),
            *final(self) == (DtgProvenance { signatures: final(self).signatures, ..*old(self) }),
    {
        let crypto_signature = CryptographicSignature {
            signer,
            algorithm,
            signature,
            public_key: None,
            signed_at: at,
        };
        self.signatures.push(crypto_signature);
    }

    /// Appends a signature made now, with no public key.
    pub fn add_signature(&mut self, signer: String, algorithm: String, signature: String)
        ensures
            final(self).signatures@.len() == old(self).signatures@.len() + 1,
            final(self).signatures@.drop_last() == old(self).signatures@,
            final(self).signatures@.last().signer == signer,
            final(self).signatures@.last().algorithm == algorithm,
            final(self).signatures@.last().signature == signature,
            final(self).signatures@.last().public_key is None,
            *final(self) == (DtgProvenance { signatures: final(self).signatures, ..*old(self) }),
    {
        let t = now();
        self.add_signature_at(signer, algorithm, signature, t);
        assert(self.signatures@.drop_last() =~= old(self).signatures@);
    }

    /// True when the ledger carries at least one signature. No signature is
    /// checked cryptographically.
    pub fn verify_signatures(&self) -> (r: bool)
        ensures
            r == self.spec_is_signed(),
    {
        self.signatures.len() > 0
    }
}

/// The signature gate opens with the first signature and stays open: a
/// ledger that `after` extends by one signature is signed, whatever
/// `before` held.
pub proof fn lemma_signed_after_add_signature(before: DtgProvenance, after: DtgProvenance)
    requires
        after.signatures@.len() == before.signatures@.len() + 1,
    ensures
        after.spec_is_signed(),
        before.signatures@.len() == 0 ==> !before.spec_is_signed(),
{
}

} // verus!
