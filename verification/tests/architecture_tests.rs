use cell_arch::arch_service::{record_module, validate_architecture, ArchitectureRules, ModuleDeps};

/// The import lines of the toolkit's own source tree, file by file: the
/// layering the architecture rules are checked against.
fn project_modules() -> Vec<ModuleDeps> {
    let files: Vec<(&str, &str)> = vec![
        ("adapters/ast_analyzer.rs", "use super::*;\n"),
        ("adapters/file_evolution_store.rs", "use crate::application::ports::evolution_store::EvolutionStorePort;\nuse crate::domain::errors::CellResult;\nuse crate::domain::evolution::EvolutionLog;\nuse super::*;\n"),
        ("adapters/file_progress_store.rs", "use crate::application::ports::progress_store::ProgressStorePort;\nuse crate::domain::errors::CellResult;\nuse crate::domain::progress::ProgressLog;\nuse super::*;\nuse crate::domain::progress::ProgressStatus;\n"),
        ("adapters/template_engine.rs", "use crate::application::ports::code_generator::{CodeGeneratorPort, GeneratedFile};\nuse crate::domain::cell_spec::{CellSpec, PortSpec, AdapterSpec};\nuse super::*;\nuse crate::domain::cell_spec::PortKind;\nuse crate::domain::cell_spec::AdapterKind;\n"),
        ("adapters/web_dashboard.rs", "use crate::application::auto_progress_service::{AutoProgressTracker, AutoProgressSnapshot};\nuse crate::adapters::file_decision_store::FileDecisionStore;\nuse crate::adapters::file_evolution_store::FileEvolutionStore;\nuse crate::adapters::file_progress_store::FileProgressStore;\nuse crate::application::decision_service::DecisionService;\nuse crate::application::entropy_service::run_entropy_check;\nuse crate::application::evolution_service::EvolutionService;\nuse crate::application::observability::{build_dashboard, ObservabilityService};\nuse crate::application::progress_service::ProgressService;\nuse crate::domain::entropy::EntropyReport;\nuse crate::domain::errors::CellResult;\nuse crate::domain::observability::DashboardData;\n"),
        ("application/ab_test_service.rs", "use crate::domain::ab_experiment::{ABTestManager, Experiment, ExperimentType};\nuse crate::domain::errors::{CellError, CellResult};\nuse super::*;\n"),
        ("application/arch_advisor.rs", "use crate::application::arch_service::{ArchitectureRules, ValidationResult, Severity};\nuse crate::application::entropy_service;\nuse crate::domain::errors::CellResult;\n"),
        ("application/arch_fixer.rs", "use crate::application::arch_service::{ArchitectureRules, Violation};\nuse crate::domain::errors::CellResult;\n"),
        ("application/arch_linter.rs", "use super::*;\nuse crate::domain::Entity;\nuse crate::application::Service;\nuse crate::application::Service;\nuse crate::application::Service;\n"),
        ("application/arch_service.rs", "use super::*;\nuse crate::domain::Entity;\nuse crate::application::Service;\nuse crate::application::Service;\nuse crate::application::Service;\n"),
        ("application/architecture_tests.rs", "use crate::application::arch_service::{ArchitectureRules, validate_architecture};\n"),
        ("application/auto_instrumentation.rs", "use super::*;\n"),
        ("application/auto_progress_service.rs", "use crate::domain::errors::CellResult;\nuse crate::domain::progress::{EventType, ProgressLog, ProgressStatus, NextStep};\n"),
        ("application/canary_service.rs", "use crate::domain::canary_release::{CanaryManager, CanaryRelease, CanaryStrategy, CanaryError};\nuse crate::domain::errors::{CellError, CellResult};\nuse super::*;\n"),
        ("application/complexity_quota_service.rs", "use crate::domain::errors::{CellError, CellResult};\nuse crate::domain::complexity_quota::ComplexityQuota;\n"),
        ("application/config_schema_validator.rs", "use crate::domain::cell_spec::CellSpec;\nuse crate::domain::config_schema::{CellConfigSchema, ValidationError, ValidationResult};\nuse crate::domain::errors::CellError;\nuse crate::domain::errors::CellResult;\nuse super::*;\nuse crate::domain::cell_spec::CellSpec;\n"),
        ("application/config_service.rs", "use crate::domain::errors::CellResult;\n"),
        ("application/decision_engine.rs", "use crate::domain::errors::CellResult;\nuse super::*;\n"),
        ("application/decision_service.rs", "use crate::application::ports::decision_store::DecisionStorePort;\nuse crate::domain::decision::{\nuse crate::domain::errors::CellResult;\nuse super::*;\n"),
        ("application/dependency_analyzer.rs", "use crate::domain::errors::CellResult;\n"),
        ("application/dev_env_service.rs", "use crate::domain::errors::CellResult;\nuse super::*;\n"),
        ("application/dev_workflow_service.rs", "use crate::application::arch_service::{ArchitectureRules, validate_architecture};\nuse crate::application::entropy_service;\nuse crate::application::entropy_trend_service::EntropyTrendService;\nuse crate::application::fast_verify_service::FastVerifyService;\nuse crate::application::ports::decision_store::DecisionStorePort;\nuse crate::application::ports::evolution_store::EvolutionStorePort;\nuse crate::application::ports::handoff_exporter::HandoffExporterPort;\nuse crate::application::ports::progress_store::ProgressStorePort;\nuse crate::domain::decision::DecisionCategory;\nuse crate::domain::errors::CellResult;\nuse crate::domain::evolution::{IssueCategory, IssueSeverity};\nuse crate::domain::progress::EventType;\nuse crate::application::progress_service::ProgressService;\nuse crate::application::handoff_service::HandoffService;\nuse crate::application::evolution_service::EvolutionService;\nuse crate::application::decision_service::DecisionService;\n"),
        ("application/enforcement_service.rs", "use crate::domain::errors::CellResult;\nuse crate::application::arch_service::{ArchitectureRules, validate_architecture};\nuse crate::application::entropy_service::run_entropy_check;\nuse crate::application::dependency_analyzer::DependencyAnalyzer;\n"),
        ("application/entropy_service.rs", "use crate::domain::entropy::{\nuse crate::domain::errors::CellResult;\nuse super::*;\n"),
        ("application/event_schema_service.rs", "use crate::domain::event_schema::EventSchema;\n"),
        ("application/evolution_service.rs", "use crate::application::ports::evolution_store::EvolutionStorePort;\nuse crate::domain::errors::{CellError, CellResult};\nuse crate::domain::evolution::*;\nuse super::*;\n"),
        ("application/fast_verify_service.rs", "use crate::application::entropy_service;\nuse crate::domain::errors::CellResult;\n"),
        ("application/generate_service.rs", "use crate::application::ports::code_generator::{CodeGeneratorPort, GeneratedFile};\nuse crate::domain::cell_spec::{CellSpec, PortKind, AdapterKind};\nuse crate::domain::errors::{CellError, CellResult};\nuse crate::domain::cell_spec::PortSpec;\nuse super::*;\n"),
        ("application/handoff_service.rs", "use crate::application::ports::decision_store::DecisionStorePort;\nuse crate::application::ports::handoff_exporter::HandoffExporterPort;\nuse crate::application::ports::progress_store::ProgressStorePort;\nuse crate::domain::errors::CellResult;\nuse crate::domain::handoff::*;\nuse crate::application::entropy_service::run_entropy_check;\nuse super::*;\nuse crate::application::ports::progress_store::ProgressStorePort;\nuse crate::application::ports::decision_store::DecisionStorePort;\nuse crate::domain::progress::ProgressLog;\nuse crate::domain::decision::DecisionRecord;\n"),
        ("application/impact_analysis_service.rs", "use crate::domain::errors::CellResult;\n"),
        ("application/mod.rs", ""),
        ("application/mount_service.rs", "use crate::domain::errors::{CellError, CellResult};\nuse crate::domain::mount_manager::{MountPoint, MountStatus};\nuse super::*;\n"),
        ("application/multi_env_config_service.rs", "use crate::domain::errors::CellResult;\n"),
        ("application/observability/metrics.rs", "use crate::domain::observability::{CommandExecution, CommandStat, PerformanceMetrics};\nuse super::*;\n"),
        ("application/observability/mod.rs", ""),
        ("application/observability/phases.rs", "use crate::domain::observability::{PhaseStatus, ProjectPhase};\n"),
        ("application/onboarding_service.rs", "use crate::domain::errors::CellResult;\nuse super::*;\n"),
        ("application/plugin_sandbox_service.rs", "use crate::domain::errors::{CellError, CellResult};\nuse crate::domain::plugin_sandbox::{\nuse super::*;\n"),
        ("application/plugin_validator_service.rs", "use crate::domain::errors::CellResult;\nuse crate::domain::plugin_system::PluginManifest;\nuse crate::domain::plugin_validator::{\nuse super::*;\nuse crate::domain::plugin_system::{Permission, PluginId, PluginKind, PluginManifest};\n"),
    ];
    let mut modules = Vec::new();
    for (rel, content) in files {
        record_module(&mut modules, rel, &format!("src/{}", rel), content);
    }
    modules
}

fn violations_between(from: &str, to: &str) -> usize {
    let rules = ArchitectureRules::default();
    let result = validate_architecture(&project_modules(), &rules);
    result
        .violations
        .iter()
        .filter(|v| v.from_module.contains(from) && v.to_module.contains(to))
        .count()
}

#[test]
fn domain_must_not_depend_on_application() {
    assert_eq!(violations_between("domain", "application"), 0);
}

#[test]
fn domain_must_not_depend_on_adapters() {
    assert_eq!(violations_between("domain", "adapters"), 0);
}

#[test]
fn domain_must_not_depend_on_interfaces() {
    assert_eq!(violations_between("domain", "interfaces"), 0);
}

#[test]
fn application_must_not_depend_on_interfaces() {
    assert_eq!(violations_between("application", "interfaces"), 0);
}

#[test]
fn application_must_not_depend_on_adapters() {
    assert_eq!(violations_between("application", "adapters"), 0);
}

#[test]
fn adapters_must_not_depend_on_interfaces() {
    assert_eq!(violations_between("adapters", "interfaces"), 0);
}

#[test]
fn architecture_must_pass_all_rules() {
    let rules = ArchitectureRules::default();
    let result = validate_architecture(&project_modules(), &rules);
    assert!(result.passed, "Architecture validation FAILED. Violations: {:?}", result.violations);
}

#[test]
fn domain_has_zero_external_deps() {
    let rules = ArchitectureRules::default();
    let result = validate_architecture(&project_modules(), &rules);
    let domain_stats = result
        .layer_stats
        .iter()
        .find(|(name, _)| name == "domain")
        .map(|(_, s)| s.clone())
        .unwrap();
    assert_eq!(domain_stats.external_deps, 0);
}
