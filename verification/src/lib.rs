//! Architecture governance toolkit: linting, dependency analysis and
//! project bookkeeping for layered ("cell") Rust projects.
use vstd::prelude::*;

pub mod text;
pub mod errors;
pub mod cell_spec;
pub mod arch_linter;
pub mod arch_service;
pub mod auto_instrumentation;
pub mod template_engine;
pub mod generate_service;
pub mod config_schema_validator;
pub mod mount_service;
pub mod entropy_service;
pub mod clock;
pub mod plugin_sandbox_service;
pub mod decision_engine;
pub mod evolution_service;
pub mod dev_env_service;
pub mod onboarding_service;
pub mod phases;
pub mod plugin_validator_service;
pub mod arch_fixer;
pub mod arch_advisor;
pub mod lint_report;
pub mod quota_service;
pub mod multi_env_config_service;
pub mod enforcement_service;
pub mod fast_verify_service;
pub mod impact_analysis_service;
pub mod dependency_analyzer;
pub mod config_service;
pub mod dev_workflow_service;
pub mod decision_service;
pub mod auto_progress_service;
pub mod handoff_service;
pub mod ast_analyzer;

verus! {
} // verus!
