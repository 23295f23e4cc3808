use constellation_core::hybrid_agent::{
    AllocationStrategy, ExecutorDomain, FallbackAction, FallbackStrategy, FallbackTrigger, ModelProvider, ModelSize,
    ResourceRequirements,
};
use constellation_core::{CoordinationStrategy, ExecutorConfig, HybridAgentConfig, PerformanceTargets, ResourceAllocation};

#[test]
fn new_hybrid_agent_uses_defaults() {
    let h = HybridAgentConfig::new("planner".to_string(), "plans work".to_string());
    assert_eq!(h.name, "planner");
    assert_eq!(h.strategist.model_id, "gpt-4");
    assert_eq!(h.strategist.provider, ModelProvider::Openai);
    assert_eq!(h.strategist.model_size, ModelSize::XLarge);
    assert_eq!(h.strategist.capabilities.len(), 3);
    assert_eq!(h.strategist.temperature_micro, 700_000);
    assert_eq!(h.coordination, CoordinationStrategy::default());
    assert_eq!(h.coordination.timeout_ms, 30000);
    assert_eq!(h.performance_targets, PerformanceTargets::default());
    assert_eq!(h.performance_targets.success_rate_target_micro, 950_000);
    assert!(h.executors.is_empty());
    assert!(h.fallback_strategies.is_empty());
}

#[test]
fn default_resource_allocation() {
    let r = ResourceAllocation::default();
    assert_eq!(r.strategy, AllocationStrategy::Dynamic);
    assert_eq!(r.cpu_policy.max, 16);
    assert_eq!(r.memory_policy.default, 8192);
    assert_eq!(r.gpu_policy.unwrap().max, 16384);
    assert_eq!(r.budget_allocation.total_budget_micro, 1_000_000_000);
    assert_eq!(r.priority_levels.len(), 4);
    assert_eq!(r.priority_levels[0].name, "critical");
    assert_eq!(r.priority_levels[3].value, 25);
}

#[test]
fn requirements_of_strategist_alone() {
    let h = HybridAgentConfig::new("n".to_string(), "d".to_string());
    let r = h.total_resource_requirements();
    assert_eq!(
        r,
        ResourceRequirements { cpu_cores: 4, memory_mb: 1024, gpu_memory_mb: None, disk_mb: 0, network_mbps: 100 }
    );
}

#[test]
fn requirements_add_up_over_executors() {
    let mut h = HybridAgentConfig::new("n".to_string(), "d".to_string());
    h.add_executor(ExecutorConfig::new("coder".to_string(), ExecutorDomain::CodeGeneration));
    let mut cpu_only = ExecutorConfig::new("analyst".to_string(), ExecutorDomain::DataAnalysis);
    cpu_only.resource_requirements =
        ResourceRequirements { cpu_cores: 8, memory_mb: 2048, gpu_memory_mb: None, disk_mb: 10, network_mbps: 5 };
    h.add_executor(cpu_only);
    h.add_executor(ExecutorConfig::new("writer".to_string(), ExecutorDomain::Writing));
    let r = h.total_resource_requirements();
    assert_eq!(r.cpu_cores, 4 + 2 + 8 + 2);
    assert_eq!(r.memory_mb, 1024 + 4096 + 2048 + 4096);
    assert_eq!(r.gpu_memory_mb, Some(8192));
    assert_eq!(r.disk_mb, 1024 + 10 + 1024);
    assert_eq!(r.network_mbps, 100 + 100 + 5 + 100);
}

#[test]
fn gpu_absent_when_no_executor_needs_one() {
    let mut h = HybridAgentConfig::new("n".to_string(), "d".to_string());
    let mut e = ExecutorConfig::new("x".to_string(), ExecutorDomain::Research);
    e.resource_requirements.gpu_memory_mb = None;
    h.add_executor(e);
    assert_eq!(h.total_resource_requirements().gpu_memory_mb, None);
}

#[test]
fn estimated_cost_per_thousand_tasks() {
    let mut h = HybridAgentConfig::new("n".to_string(), "d".to_string());
    assert_eq!(h.estimated_cost_per_1k_tasks(), 300_000);
    h.add_executor(ExecutorConfig::new("a".to_string(), ExecutorDomain::Writing));
    h.add_executor(ExecutorConfig::new("b".to_string(), ExecutorDomain::Legal));
    assert_eq!(h.estimated_cost_per_1k_tasks(), 300_000 + 500_000 + 500_000);
}

#[test]
fn estimated_cost_handles_large_prices() {
    let mut h = HybridAgentConfig::new("n".to_string(), "d".to_string());
    h.strategist.cost_per_1k_tokens_micro = u64::MAX;
    assert_eq!(h.estimated_cost_per_1k_tasks(), u64::MAX as u128 * 10);
}

#[test]
fn executor_defaults_and_fallbacks() {
    let e = ExecutorConfig::new("x".to_string(), ExecutorDomain::Security);
    assert_eq!(e.model.model_id, "codellama-7b");
    assert_eq!(e.model.provider, ModelProvider::Meta);
    assert_eq!(e.performance.cost_per_1k_tasks_micro, 500_000);
    assert_eq!(e.resource_requirements, ResourceRequirements::default());
    assert_eq!(e.max_concurrent_tasks, 1);
    assert!(!e.local_execution);
    let mut h = HybridAgentConfig::new("n".to_string(), "d".to_string());
    let f = FallbackStrategy {
        trigger: FallbackTrigger::HighLatency,
        action: FallbackAction::SwitchExecutor,
        priority: 1,
        timeout_ms: 500,
    };
    h.add_fallback_strategy(f);
    assert_eq!(h.fallback_strategies, vec![f]);
}
