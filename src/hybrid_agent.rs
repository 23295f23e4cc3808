//! Hybrid agents: one large-model strategist that plans, and small-model
//! executors that carry out the work.
//!
//! Rates, scores, costs and factors are fixed-point integers in millionths
//! (the `_micro` fields): 1.0 is 1_000_000.
use vstd::prelude::*;
use crate::clock::new_id;

verus! {

broadcast use vstd::string::to_string_from_display_ensures_for_str;

#[derive(Clone, Debug, PartialEq, Eq)]
pub enum ModelProvider {
    Openai,
    Anthropic,
    Google,
    Meta,
    Mistral,
    Cohere,
    Local,
    Custom(String),
}

/// Size class of a strategist model, by parameter count.
#[derive(Clone, Copy, Debug, PartialEq, Eq, Structural)]
pub enum ModelSize {
    /// Under 1B parameters.
    Tiny,
    /// 1B to 7B.
    Small,
    /// 7B to 30B.
    Medium,
    /// 30B to 100B.
    Large,
    /// 100B to 500B.
    XLarge,
    /// 500B and more.
    XXLarge,
}

#[derive(Clone, Copy, Debug, PartialEq, Eq, Structural)]
pub enum StrategistCapability {
    Planning,
    Reasoning,
    ProblemDecomposition,
    TaskAllocation,
    QualityAssessment,
    RiskAssessment,
    CreativeThinking,
    StrategicThinking,
    MetaCognition,
    SelfReflection,
}

/// The planning model.
#[derive(Clone, Debug)]
pub struct StrategistConfig {
    pub model_id: String,
    pub provider: ModelProvider,
    pub model_size: ModelSize,
    pub capabilities: Vec<StrategistCapability>,
    /// Context window in tokens.
    pub context_window: u32,
    pub temperature_micro: u32,
    pub max_tokens: u32,
    pub cost_per_1k_tokens_micro: u64,
    pub latency_target_ms: u32,
    pub streaming: bool,
}

#[derive(Clone, Copy, Debug, PartialEq, Eq, Structural)]
pub enum ExecutorDomain {
    CodeGeneration,
    DataAnalysis,
    Research,
    Writing,
    Mathematics,
    Science,
    Engineering,
    Design,
    Business,
    Legal,
    Medical,
    Security,
    Operations,
    Monitoring,
    Debugging,
}

/// Size class of an executor model, by parameter count.
#[derive(Clone, Copy, Debug, PartialEq, Eq, Structural)]
pub enum ExecutorModelSize {
    /// Under 100M parameters.
    Nano,
    /// 100M to 500M.
    Micro,
    /// 500M to 1B.
    Mini,
    /// 1B to 3B.
    Small,
    /// 3B to 7B.
    Compact,
}

#[derive(Clone, Debug)]
pub struct ExecutorModel {
    pub model_id: String,
    pub provider: ModelProvider,
    pub size: ExecutorModelSize,
    pub fine_tuned: bool,
    pub fine_tuning_dataset: Option<String>,
    pub specialized_capabilities: Vec<String>,
}

#[derive(Clone, Debug)]
pub struct ExecutorSkill {
    pub id: String,
    pub name: String,
    pub description: String,
    pub input_schema: serde_json::Value,
    pub output_schema: serde_json::Value,
    pub avg_execution_time_ms: u32,
    pub success_rate_micro: u32,
    pub quality_score_micro: u32,
    pub deterministic: bool,
}

#[derive(Clone, Copy, Debug, PartialEq, Eq, Structural)]
pub struct ExecutorPerformance {
    /// Tasks per second, in millionths.
    pub throughput_tps_micro: u64,
    pub avg_latency_ms: u32,
    pub p95_latency_ms: u32,
    pub p99_latency_ms: u32,
    pub error_rate_micro: u32,
    pub availability_micro: u32,
    pub cost_per_1k_tasks_micro: u64,
}

/// What an executor needs to run.
#[derive(Clone, Copy, Debug, PartialEq, Eq, Structural)]
pub struct ResourceRequirements {
    pub cpu_cores: u32,
    pub memory_mb: u32,
    pub gpu_memory_mb: Option<u32>,
    pub disk_mb: u32,
    /// Network bandwidth in Mbit/s.
    pub network_mbps: u32,
}

/// One executor model.
#[derive(Clone, Debug)]
pub struct ExecutorConfig {
    pub id: String,
    pub domain: ExecutorDomain,
    pub model: ExecutorModel,
    pub skills: Vec<ExecutorSkill>,
    pub performance: ExecutorPerformance,
    pub resource_requirements: ResourceRequirements,
    pub local_execution: bool,
    pub max_concurrent_tasks: u32,
}

#[derive(Clone, Copy, Debug, PartialEq, Eq, Structural)]
pub enum CoordinationStrategyType {
    Hierarchical,
    Collaborative,
    Competitive,
    MarketBased,
    Federated,
    Swarm,
}

#[derive(Clone, Copy, Debug, PartialEq, Eq, Structural)]
pub enum CommunicationPattern {
    Centralized,
    Decentralized,
    PeerToPeer,
    PubSub,
    RequestResponse,
    Streaming,
}

#[derive(Clone, Copy, Debug, PartialEq, Eq, Structural)]
pub enum DecisionMakingApproach {
    Centralized,
    Distributed,
    Consensus,
    Voting,
    Auction,
    ReinforcementLearning,
}

#[derive(Clone, Copy, Debug, PartialEq, Eq, Structural)]
pub enum FeedbackMechanism {
    Immediate,
    Delayed,
    Batch,
    Continuous,
    EventDriven,
    Periodic,
}

/// How the strategist and the executors work together.
#[derive(Clone, Copy, Debug, PartialEq, Eq, Structural)]
pub struct CoordinationStrategy {
    pub strategy_type: CoordinationStrategyType,
    pub communication_pattern: CommunicationPattern,
    pub decision_making: DecisionMakingApproach,
    pub feedback_mechanism: FeedbackMechanism,
    pub sync_frequency_ms: u32,
    pub max_retries: u32,
    pub timeout_ms: u32,
}

#[derive(Clone, Copy, Debug, PartialEq, Eq, Structural)]
pub enum AllocationStrategy {
    Static,
    Dynamic,
    Predictive,
    Reactive,
    Optimistic,
    Conservative,
}

/// Bounds and default of one resource, and how fast it scales.
#[derive(Clone, Copy, Debug, PartialEq, Eq, Structural)]
pub struct AllocationPolicy {
    pub min: u32,
    pub max: u32,
    pub default: u32,
    pub scaling_factor_micro: u64,
}

/// A budget and its split, in percent (millionths of a percent).
#[derive(Clone, Copy, Debug, PartialEq, Eq, Structural)]
pub struct BudgetAllocation {
    pub total_budget_micro: u64,
    pub strategist_percentage_micro: u64,
    pub executors_percentage_micro: u64,
    pub infrastructure_percentage_micro: u64,
    pub reserve_percentage_micro: u64,
}

#[derive(Clone, Copy, Debug, PartialEq, Eq, Structural)]
pub enum ScalingStrategy {
    Horizontal,
    Vertical,
    Hybrid,
    Burstable,
    Reserved,
    Spot,
}

/// A named priority; a higher value is more important.
#[derive(Clone, Debug)]
pub struct PriorityLevel {
    pub name: String,
    pub value: u32,
    pub resource_multiplier_micro: u64,
    pub cost_multiplier_micro: u64,
}

#[derive(Clone, Debug)]
pub struct ResourceAllocation {
    pub strategy: AllocationStrategy,
    pub cpu_policy: AllocationPolicy,
    pub memory_policy: AllocationPolicy,
    pub gpu_policy: Option<AllocationPolicy>,
    pub budget_allocation: BudgetAllocation,
    pub scaling_strategy: ScalingStrategy,
    pub priority_levels: Vec<PriorityLevel>,
}

#[derive(Clone, Copy, Debug, PartialEq, Eq, Structural)]
pub struct PerformanceTargets {
    pub success_rate_target_micro: u32,
    pub quality_score_target_micro: u32,
    pub latency_target_ms: u32,
    /// Tasks per second, in millionths.
    pub throughput_target_tps_micro: u64,
    pub cost_efficiency_target_micro: u32,
    pub resource_utilization_target_micro: u32,
    pub availability_target_micro: u32,
}

#[derive(Clone, Copy, Debug, PartialEq, Eq, Structural)]
pub enum FallbackTrigger {
    HighLatency,
    LowSuccessRate,
    HighErrorRate,
    ResourceExhaustion,
    BudgetExceeded,
    QualityBelowThreshold,
    AvailabilityBelowThreshold,
    Timeout,
}

#[derive(Clone, Copy, Debug, PartialEq, Eq, Structural)]
pub enum FallbackAction {
    SwitchExecutor,
    ReduceQuality,
    IncreaseBudget,
    ScaleResources,
    NotifyHuman,
    RetryWithBackoff,
    AbortTask,
    UseAlternativeStrategy,
}

/// What to do, and how urgently, when a condition arises.
#[derive(Clone, Copy, Debug, PartialEq, Eq, Structural)]
pub struct FallbackStrategy {
    pub trigger: FallbackTrigger,
    pub action: FallbackAction,
    pub priority: u32,
    pub timeout_ms: u32,
}

/// A hybrid agent.
#[derive(Clone, Debug)]
pub struct HybridAgentConfig {
    pub id: u128,
    pub name: String,
    pub description: String,
    pub strategist: StrategistConfig,
    pub executors: Vec<ExecutorConfig>,
    pub coordination: CoordinationStrategy,
    pub resource_allocation: ResourceAllocation,
    pub performance_targets: PerformanceTargets,
    pub fallback_strategies: Vec<FallbackStrategy>,
}

/// Tokens the strategist is estimated to spend per task: a thousand tasks
/// cost this many times its price for a thousand tokens.
pub const STRATEGIST_TOKENS_PER_TASK: u64 = 10;

/// The resources that the strategist needs besides its executors: CPU for
/// the model API calls, memory for its context, bandwidth for the API.
pub const STRATEGIST_CPU_CORES: u32 = 4;
pub const STRATEGIST_MEMORY_MB: u32 = 1024;
pub const STRATEGIST_NETWORK_MBPS: u32 = 100;

/// One kind of resource of `ResourceRequirements`.
pub enum Resource {
    Cpu,
    Memory,
    Gpu,
    Disk,
    Network,
}

/// The amount of `kind` in `r`; a missing GPU requirement counts as none.
pub open spec fn amount(r: ResourceRequirements, kind: Resource) -> nat {
    match kind {
        Resource::Cpu => r.cpu_cores as nat,
        Resource::Memory => r.memory_mb as nat,
        Resource::Gpu => match r.gpu_memory_mb {
            Some(g) => g as nat,
            None => 0,
        },
        Resource::Disk => r.disk_mb as nat,
        Resource::Network => r.network_mbps as nat,
    }
}

/// The total amount of `kind` that `executors` require.
pub open spec fn total_required(executors: Seq<ExecutorConfig>, kind: Resource) -> nat
    decreases executors.len(),
{
    if executors.len() == 0 {
        0
    } else {
        total_required(executors.drop_last(), kind) + amount(executors.last().resource_requirements, kind)
    }
}

/// Some executor states a GPU requirement.
pub open spec fn any_needs_gpu(executors: Seq<ExecutorConfig>) -> bool {
    exists|i: int| 0 <= i < executors.len() && (#[trigger] executors[i].resource_requirements).gpu_memory_mb is Some
}

/// The executors' costs per thousand tasks, summed.
pub open spec fn executors_cost(executors: Seq<ExecutorConfig>) -> nat
    decreases executors.len(),
{
    if executors.len() == 0 {
        0
    } else {
        executors_cost(executors.drop_last()) + executors.last().performance.cost_per_1k_tasks_micro as nat
    }
}

proof fn lemma_total_required_prefix(executors: Seq<ExecutorConfig>, kind: Resource, i: int)
    requires
        0 <= i <= executors.len(),
    ensures
        total_required(executors.subrange(0, i), kind) <= total_required(executors, kind),
    decreases executors.len(),
{
    if i < executors.len() {
        lemma_total_required_prefix(executors.drop_last(), kind, i);
        assert(executors.drop_last().subrange(0, i) == executors.subrange(0, i));
    } else {
        assert(executors.subrange(0, i) == executors);
    }
}

proof fn lemma_prefix_step(executors: Seq<ExecutorConfig>, i: int)
    requires
        0 <= i < executors.len(),
    ensures
        executors.subrange(0, i + 1).drop_last() == executors.subrange(0, i),
        executors.subrange(0, i + 1).last() == executors[i],
{
    assert(executors.subrange(0, i + 1).drop_last() =~= executors.subrange(0, i));
}

impl Default for StrategistConfig {
    /// GPT-4 from OpenAI, extra large, able to plan, reason and decompose
    /// problems, with a 128000-token window, temperature 0.7, at most 4096
    /// tokens per request, 0.03 per thousand tokens, a 5 s latency target
    /// and no streaming.
    fn default() -> (r: StrategistConfig)
        ensures
            r.model_id@ == "gpt-4"@,
            r.provider == ModelProvider::Openai,
            r.model_size == ModelSize::XLarge,
            r.capabilities@ == seq![
                StrategistCapability::Planning,
                StrategistCapability::Reasoning,
                StrategistCapability::ProblemDecomposition,
            ],
            r.context_window == 128000,
            r.temperature_micro == 700_000,
            r.max_tokens == 4096,
            r.cost_per_1k_tokens_micro == 30_000,
            r.latency_target_ms == 5000,
            !r.streaming,
    {
        let r = StrategistConfig {
            model_id: "gpt-4".to_string(),
            provider: ModelProvider::Openai,
            model_size: ModelSize::XLarge,
            capabilities: vec![
                StrategistCapability::Planning,
                StrategistCapability::Reasoning,
                StrategistCapability::ProblemDecomposition,
            ],
            context_window: 128000,
            temperature_micro: 700_000,
            max_tokens: 4096,
            cost_per_1k_tokens_micro: 30_000,
            latency_target_ms: 5000,
            streaming: false,
        };
        assert(r.capabilities@ =~= seq![
            StrategistCapability::Planning,
            StrategistCapability::Reasoning,
            StrategistCapability::ProblemDecomposition,
        ]);
        r
    }
}

impl CoordinationStrategy {
    pub open spec fn spec_default() -> CoordinationStrategy {
        CoordinationStrategy {
            strategy_type: CoordinationStrategyType::Hierarchical,
            communication_pattern: CommunicationPattern::Centralized,
            decision_making: DecisionMakingApproach::Centralized,
            feedback_mechanism: FeedbackMechanism::Immediate,
            sync_frequency_ms: 1000,
            max_retries: 3,
            timeout_ms: 30000,
        }
    }
}

impl Default for CoordinationStrategy {
    /// Hierarchical, centralised, immediate feedback, syncing every second,
    /// three retries, a 30 s timeout.
    fn default() -> (r: CoordinationStrategy)
        ensures
            r == CoordinationStrategy::spec_default(),
    {
        CoordinationStrategy {
            strategy_type: CoordinationStrategyType::Hierarchical,
            communication_pattern: CommunicationPattern::Centralized,
            decision_making: DecisionMakingApproach::Centralized,
            feedback_mechanism: FeedbackMechanism::Immediate,
            sync_frequency_ms: 1000,
            max_retries: 3,
            timeout_ms: 30000,
        }
    }
}

fn priority_level(name: &str, value: u32, resource_multiplier_micro: u64, cost_multiplier_micro: u64) -> (r: PriorityLevel)
    ensures
        r.name@ == name@,
        r.value == value,
        r.resource_multiplier_micro == resource_multiplier_micro,
        r.cost_multiplier_micro == cost_multiplier_micro,
{
    PriorityLevel { name: name.to_string(), value, resource_multiplier_micro, cost_multiplier_micro }
}

impl Default for ResourceAllocation {
    /// Dynamic allocation: 1 to 16 cores (default 4, scaling 1.5), 1 to 32 GB
    /// of memory (default 8 GB, scaling 2), up to 16 GB of GPU memory
    /// (default 4 GB, scaling 2); a budget of 1000 split 40/40/15/5 between
    /// strategist, executors, infrastructure and reserve; hybrid scaling;
    /// priorities critical (100), high (75), normal (50) and low (25).
    fn default() -> (r: ResourceAllocation)
        ensures
            r.strategy == AllocationStrategy::Dynamic,
            r.cpu_policy == (AllocationPolicy { min: 1, max: 16, default: 4, scaling_factor_micro: 1_500_000 }),
            r.memory_policy == (AllocationPolicy { min: 1024, max: 32768, default: 8192, scaling_factor_micro: 2_000_000 }),
            r.gpu_policy == Some(AllocationPolicy { min: 0, max: 16384, default: 4096, scaling_factor_micro: 2_000_000 }),
            r.budget_allocation == (BudgetAllocation {
                total_budget_micro: 1_000_000_000,
                strategist_percentage_micro: 40_000_000,
                executors_percentage_micro: 40_000_000,
                infrastructure_percentage_micro: 15_000_000,
                reserve_percentage_micro: 5_000_000,
            }),
            r.scaling_strategy == ScalingStrategy::Hybrid,
            r.priority_levels@.len() == 4,
            r.priority_levels@[0].name@ == "critical"@,
            r.priority_levels@[0].value == 100,
            r.priority_levels@[0].resource_multiplier_micro == 2_000_000,
            r.priority_levels@[0].cost_multiplier_micro == 3_000_000,
            r.priority_levels@[1].name@ == "high"@,
            r.priority_levels@[1].value == 75,
            r.priority_levels@[1].resource_multiplier_micro == 1_500_000,
            r.priority_levels@[1].cost_multiplier_micro == 2_000_000,
            r.priority_levels@[2].name@ == "normal"@,
            r.priority_levels@[2].value == 50,
            r.priority_levels@[2].resource_multiplier_micro == 1_000_000,
            r.priority_levels@[2].cost_multiplier_micro == 1_000_000,
            r.priority_levels@[3].name@ == "low"@,
            r.priority_levels@[3].value == 25,
            r.priority_levels@[3].resource_multiplier_micro == 500_000,
            r.priority_levels@[3].cost_multiplier_micro == 500_000,
    {
        ResourceAllocation {
            strategy: AllocationStrategy::Dynamic,
            cpu_policy: AllocationPolicy { min: 1, max: 16, default: 4, scaling_factor_micro: 1_500_000 },
            memory_policy: AllocationPolicy {
                min: 1024,
                max: 32768,
                default: 8192,
                scaling_factor_micro: 2_000_000,
            },
            gpu_policy: Some(
                AllocationPolicy { min: 0, max: 16384, default: 4096, scaling_factor_micro: 2_000_000 },
            ),
            budget_allocation: BudgetAllocation {
                total_budget_micro: 1_000_000_000,
                strategist_percentage_micro: 40_000_000,
                executors_percentage_micro: 40_000_000,
                infrastructure_percentage_micro: 15_000_000,
                reserve_percentage_micro: 5_000_000,
            },
            scaling_strategy: ScalingStrategy::Hybrid,
            priority_levels: vec![
                priority_level("critical", 100, 2_000_000, 3_000_000),
                priority_level("high", 75, 1_500_000, 2_000_000),
                priority_level("normal", 50, 1_000_000, 1_000_000),
                priority_level("low", 25, 500_000, 500_000),
            ],
        }
    }
}

impl PerformanceTargets {
    pub open spec fn spec_default() -> PerformanceTargets {
        PerformanceTargets {
            success_rate_target_micro: 950_000,
            quality_score_target_micro: 900_000,
            latency_target_ms: 10000,
            throughput_target_tps_micro: 10_000_000,
            cost_efficiency_target_micro: 800_000,
            resource_utilization_target_micro: 700_000,
            availability_target_micro: 990_000,
        }
    }
}

impl Default for PerformanceTargets {
    /// 95% success, quality 0.9, 10 s latency, 10 tasks per second, cost
    /// efficiency 0.8, utilisation 0.7, 99% availability.
    fn default() -> (r: PerformanceTargets)
        ensures
            r == PerformanceTargets::spec_default(),
    {
        PerformanceTargets {
            success_rate_target_micro: 950_000,
            quality_score_target_micro: 900_000,
            latency_target_ms: 10000,
            throughput_target_tps_micro: 10_000_000,
            cost_efficiency_target_micro: 800_000,
            resource_utilization_target_micro: 700_000,
            availability_target_micro: 990_000,
        }
    }
}

impl Default for ExecutorModel {
    /// Meta's codellama-7b, small, not fine-tuned, specialised in code
    /// generation.
    fn default() -> (r: ExecutorModel)
        ensures
            r.model_id@ == "codellama-7b"@,
            r.provider == ModelProvider::Meta,
            r.size == ExecutorModelSize::Small,
            !r.fine_tuned,
            r.fine_tuning_dataset is None,
            r.specialized_capabilities@.len() == 1,
            r.specialized_capabilities@[0]@ == "code_generation"@,
    {
        ExecutorModel {
            model_id: "codellama-7b".to_string(),
            provider: ModelProvider::Meta,
            size: ExecutorModelSize::Small,
            fine_tuned: false,
            fine_tuning_dataset: None,
            specialized_capabilities: vec!["code_generation".to_string()],
        }
    }
}

impl ExecutorPerformance {
    pub open spec fn spec_default() -> ExecutorPerformance {
        ExecutorPerformance {
            throughput_tps_micro: 5_000_000,
            avg_latency_ms: 2000,
            p95_latency_ms: 5000,
            p99_latency_ms: 10000,
            error_rate_micro: 50_000,
            availability_micro: 990_000,
            cost_per_1k_tasks_micro: 500_000,
        }
    }
}

impl Default for ExecutorPerformance {
    /// 5 tasks per second; latencies 2 s on average, 5 s at p95, 10 s at
    /// p99; 5% errors; 99% availability; 0.5 per thousand tasks.
    fn default() -> (r: ExecutorPerformance)
        ensures
            r == ExecutorPerformance::spec_default(),
    {
        ExecutorPerformance {
            throughput_tps_micro: 5_000_000,
            avg_latency_ms: 2000,
            p95_latency_ms: 5000,
            p99_latency_ms: 10000,
            error_rate_micro: 50_000,
            availability_micro: 990_000,
            cost_per_1k_tasks_micro: 500_000,
        }
    }
}

impl ResourceRequirements {
    pub open spec fn spec_default() -> ResourceRequirements {
        ResourceRequirements {
            cpu_cores: 2,
            memory_mb: 4096,
            gpu_memory_mb: Some(4096),
            disk_mb: 1024,
            network_mbps: 100,
        }
    }
}

impl Default for ResourceRequirements {
    /// 2 cores, 4 GB of memory, 4 GB of GPU memory, 1 GB of disk, 100 Mbit/s.
    fn default() -> (r: ResourceRequirements)
        ensures
            r == ResourceRequirements::spec_default(),
    {
        ResourceRequirements {
            cpu_cores: 2,
            memory_mb: 4096,
            gpu_memory_mb: Some(4096),
            disk_mb: 1024,
            network_mbps: 100,
        }
    }
}

impl ExecutorConfig {
    /// An executor for `domain` with the default model, performance and
    /// requirements, no skills, run remotely, one task at a time.
    pub fn new(id: String, domain: ExecutorDomain) -> (r: ExecutorConfig)
        ensures
            r.id == id,
            r.domain == domain,
            r.model.model_id@ == "codellama-7b"@,
            r.skills@.len() == 0,
            r.performance == ExecutorPerformance::spec_default(),
            r.resource_requirements == ResourceRequirements::spec_default(),
            !r.local_execution,
            r.max_concurrent_tasks == 1,
    {
        ExecutorConfig {
            id,
            domain,
            model: ExecutorModel::default(),
            skills: Vec::new(),
            performance: ExecutorPerformance::default(),
            resource_requirements: ResourceRequirements::default(),
            local_execution: false,
            max_concurrent_tasks: 1,
        }
    }

    /// Appends a skill.
    pub fn add_skill(&mut self, skill: ExecutorSkill)
        ensures
            final(self).skills@ == old(self).skills@.push(skill),
            *final(self) == (ExecutorConfig { skills: final(self).skills, ..*old(self) }),
    {
        self.skills.push(skill);
    }
}

impl HybridAgentConfig {
    /// A hybrid agent with a fresh id, the default strategist, coordination,
    /// allocation and targets, and no executors or fallbacks.
    pub fn new(name: String, description: String) -> (r: HybridAgentConfig)
        ensures
            r.name == name,
            r.description == description,
            r.strategist.model_id@ == "gpt-4"@,
            r.strategist.cost_per_1k_tokens_micro == 30_000,
            r.executors@.len() == 0,
            r.coordination == CoordinationStrategy::spec_default(),
            r.resource_allocation.strategy == AllocationStrategy::Dynamic,
            r.performance_targets == PerformanceTargets::spec_default(),
            r.fallback_strategies@.len() == 0,
    {
        HybridAgentConfig {
            id: new_id(),
            name,
            description,
            strategist: StrategistConfig::default(),
            executors: Vec::new(),
            coordination: CoordinationStrategy::default(),
            resource_allocation: ResourceAllocation::default(),
            performance_targets: PerformanceTargets::default(),
            fallback_strategies: Vec::new(),
        }
    }

    /// Appends an executor.
    pub fn add_executor(&mut self, executor: ExecutorConfig)
        ensures
            final(self).executors@ == old(self).executors@.push(executor),
            *final(self) == (HybridAgentConfig { executors: final(self).executors, ..*old(self) }),
    {
        self.executors.push(executor);
    }

    /// Appends a fallback strategy.
    pub fn add_fallback_strategy(&mut self, strategy: FallbackStrategy)
        ensures
            final(self).fallback_strategies@ == old(self).fallback_strategies@.push(strategy),
            *final(self) == (HybridAgentConfig { fallback_strategies: final(self).fallback_strategies, ..*old(self) }),
    {
        self.fallback_strategies.push(strategy);
    }

    /// The estimated cost per thousand tasks: the strategist's cost for
    /// `STRATEGIST_TOKENS_PER_TASK` thousand tokens plus every executor's cost
    /// per thousand tasks.
    pub open spec fn spec_estimated_cost(self) -> nat {
        (self.strategist.cost_per_1k_tokens_micro * STRATEGIST_TOKENS_PER_TASK) as nat + executors_cost(self.executors@)
    }

    /// The estimated cost per thousand tasks, in millionths; a total beyond
    /// `u128::MAX` reads as `u128::MAX`.
    pub fn estimated_cost_per_1k_tasks(&self) -> (r: u128)
        ensures
            r == (if self.spec_estimated_cost() > u128::MAX { u128::MAX as nat } else { self.spec_estimated_cost() }),
    {
        let strategist_cost: u128 = self.strategist.cost_per_1k_tokens_micro as u128 * STRATEGIST_TOKENS_PER_TASK as u128;
        let mut total: u128 = strategist_cost;
        let n = self.executors.len();
        for i in 0..n
            invariant
                n == self.executors@.len(),
                strategist_cost == self.strategist.cost_per_1k_tokens_micro * STRATEGIST_TOKENS_PER_TASK,
                total == (if strategist_cost + executors_cost(self.executors@.subrange(0, i as int)) > u128::MAX {
                    u128::MAX as nat
                } else {
                    (strategist_cost + executors_cost(self.executors@.subrange(0, i as int))) as nat
                }),
        {
            proof { lemma_prefix_step(self.executors@, i as int); }
            let c = self.executors[i].performance.cost_per_1k_tasks_micro as u128;
            if total > u128::MAX - c {
                total = u128::MAX;
            } else {
                total = total + c;
            }
        }
        assert(self.executors@.subrange(0, n as int) == self.executors@);
        total
    }

    /// Whether the total requirements fit the 32-bit fields of
    /// `ResourceRequirements`, strategist overhead included.
    pub open spec fn requirements_fit(self) -> bool {
        let e = self.executors@;
        &&& STRATEGIST_CPU_CORES + total_required(e, Resource::Cpu) <= u32::MAX
        &&& STRATEGIST_MEMORY_MB + total_required(e, Resource::Memory) <= u32::MAX
        &&& total_required(e, Resource::Gpu) <= u32::MAX
        &&& total_required(e, Resource::Disk) <= u32::MAX
        &&& STRATEGIST_NETWORK_MBPS + total_required(e, Resource::Network) <= u32::MAX
    }

    /// What the agent needs in all: the strategist's CPU, memory and network
    /// overhead plus every executor's requirements. GPU memory is the sum of
    /// the executors that state one, and absent if none does.
    pub fn total_resource_requirements(&self) -> (r: ResourceRequirements)
        requires
            self.requirements_fit(),
        ensures
            r.cpu_cores == STRATEGIST_CPU_CORES + total_required(self.executors@, Resource::Cpu),
            r.memory_mb == STRATEGIST_MEMORY_MB + total_required(self.executors@, Resource::Memory),
            r.gpu_memory_mb == (if any_needs_gpu(self.executors@) {
                Some(total_required(self.executors@, Resource::Gpu) as u32)
            } else {
                None
            }),
            r.disk_mb == total_required(self.executors@, Resource::Disk),
            r.network_mbps == STRATEGIST_NETWORK_MBPS + total_required(self.executors@, Resource::Network),
    {
        let mut total = ResourceRequirements {
            cpu_cores: STRATEGIST_CPU_CORES,
            memory_mb: STRATEGIST_MEMORY_MB,
            gpu_memory_mb: None,
            disk_mb: 0,
            network_mbps: STRATEGIST_NETWORK_MBPS,
        };
        let n = self.executors.len();
        let ghost e = self.executors@;
        for i in 0..n
            invariant
                n == e.len(),
                e == self.executors@,
                self.requirements_fit(),
                total.cpu_cores == STRATEGIST_CPU_CORES + total_required(e.subrange(0, i as int), Resource::Cpu),
                total.memory_mb == STRATEGIST_MEMORY_MB + total_required(e.subrange(0, i as int), Resource::Memory),
                total.gpu_memory_mb == (if any_needs_gpu(e.subrange(0, i as int)) {
                    Some(total_required(e.subrange(0, i as int), Resource::Gpu) as u32)
                } else {
                    None
                }),
                !any_needs_gpu(e.subrange(0, i as int)) ==> total_required(e.subrange(0, i as int), Resource::Gpu) == 0,
                total.disk_mb == total_required(e.subrange(0, i as int), Resource::Disk),
                total.network_mbps == STRATEGIST_NETWORK_MBPS + total_required(e.subrange(0, i as int), Resource::Network),
        {
            let ghost pre = e.subrange(0, i as int);
            let ghost cur = e.subrange(0, i as int + 1);
            proof {
                lemma_prefix_step(e, i as int);
                lemma_total_required_prefix(e, Resource::Cpu, i as int + 1);
                lemma_total_required_prefix(e, Resource::Memory, i as int + 1);
                lemma_total_required_prefix(e, Resource::Gpu, i as int + 1);
                lemma_total_required_prefix(e, Resource::Disk, i as int + 1);
                lemma_total_required_prefix(e, Resource::Network, i as int + 1);
                assert forall|k: int| 0 <= k < pre.len() implies #[trigger] cur[k] == pre[k] by {}
                assert(cur[i as int] == e[i as int]);
                if any_needs_gpu(pre) {
                    let k = choose|k: int| 0 <= k < pre.len() && (#[trigger] pre[k].resource_requirements).gpu_memory_mb is Some;
                    assert(cur[k] == pre[k]);
                }
                if any_needs_gpu(cur) && !any_needs_gpu(pre) {
                    let k = choose|k: int| 0 <= k < cur.len() && (#[trigger] cur[k].resource_requirements).gpu_memory_mb is Some;
                    if k < pre.len() {
                        assert(cur[k] == pre[k]);
                    }
                }
            }
            let req = self.executors[i].resource_requirements;
            total.cpu_cores = total.cpu_cores + req.cpu_cores;
            total.memory_mb = total.memory_mb + req.memory_mb;
            if let Some(executor_gpu) = req.gpu_memory_mb {
                let so_far: u32 = match total.gpu_memory_mb {
                    Some(g) => g,
                    None => 0,
                };
                total.gpu_memory_mb = Some(so_far + executor_gpu);
            }
            total.disk_mb = total.disk_mb + req.disk_mb;
            total.network_mbps = total.network_mbps + req.network_mbps;
        }
        proof {
            assert(e.subrange(0, n as int) == e);
        }
        total
    }
}

} // verus!
