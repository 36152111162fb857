use cell_arch::arch_service::{Severity, Violation};
use cell_arch::enforcement_service::{CiProvider, EnforcementService, PolicyLevel};

fn violation() -> Violation {
    Violation {
        rule: "layer_dependency".to_string(),
        from_module: "domain".to_string(),
        to_module: "adapters".to_string(),
        file: "f.rs".to_string(),
        line: 1,
        severity: Severity::Error,
        message: "no".to_string(),
    }
}

#[test]
fn defaults_and_labels() {
    let config = EnforcementService::default_config();
    assert!(config.enabled);
    assert_eq!(config.policy.naming_violations, PolicyLevel::Warn);
    assert_eq!(config.ci_gate.enabled_checks, vec!["architecture", "entropy", "tests"]);
    assert_eq!(PolicyLevel::Block.label(), "阻断");
    assert!(PolicyLevel::Block.is_blocking());
    assert!(!PolicyLevel::Warn.is_blocking());
    assert_eq!(CiProvider::Github.label(), "GitHub Actions");
}

#[test]
fn set_policy_known_and_unknown() {
    let service = EnforcementService::new();
    let mut config = EnforcementService::default_config();
    service.set_policy(&mut config, "test_failure", PolicyLevel::Allow).unwrap();
    assert_eq!(config.policy.test_failure, PolicyLevel::Allow);
    let err = service.set_policy(&mut config, "nope", PolicyLevel::Allow).unwrap_err();
    assert_eq!(format!("{:?}", err), "Config(\"Unknown policy: nope\")");
}

#[test]
fn pre_commit_blocks_on_violation() {
    let service = EnforcementService::new();
    let config = EnforcementService::default_config();
    let report = service.run_pre_commit_check(&config, &vec![violation()], "now").unwrap();
    assert_eq!(report.checks.len(), 2);
    assert!(!report.passed);
    assert_eq!(report.block_count, 1);
    assert_eq!(report.checks[0].message, "发现 1 个架构违规");
    assert_eq!(report.checks[0].details, vec!["domain -> adapters: no".to_string()]);
    let ok = service.run_pre_commit_check(&config, &vec![], "now").unwrap();
    assert!(ok.passed);
}

#[test]
fn cycles_and_hook_script() {
    let service = EnforcementService::new();
    let config = EnforcementService::default_config();
    let check = service.check_circular_dependency(&config, &vec![vec!["a".to_string(), "b".to_string(), "a".to_string()]]);
    assert_eq!(check.details, vec!["a -> b -> a".to_string()]);
    assert_eq!(check.level, PolicyLevel::Block);
    let script = service.generate_hook_script("/bin/cell", "pre-push");
    assert!(script.starts_with("#!/bin/sh\n# Cell Architecture Enforcement Hook\n"));
    assert!(script.contains("\"/bin/cell\" enforcement pre-push\n"));
    assert!(script.contains("git push --no-verify"));
    assert_eq!(service.hooks_to_install(&config), vec!["pre-commit".to_string(), "pre-push".to_string()]);
}
