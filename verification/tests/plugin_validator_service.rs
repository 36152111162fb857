use cell_arch::plugin_validator_service::{
    PluginAuditResult, PluginValidatorService, RiskLevel, ValidationFinding, ValidationReport, ValidationResult,
    ValidationSeverity,
};

fn valid_result() -> ValidationResult {
    ValidationResult {
        plugin_id: "test-plugin".to_string(),
        plugin_name: "Test Plugin".to_string(),
        findings: vec![],
        duration_ms: 3,
    }
}

fn finding(sev: ValidationSeverity) -> ValidationFinding {
    ValidationFinding {
        rule_id: "R1".to_string(),
        message: "bad".to_string(),
        severity: sev,
        field: Some("id".to_string()),
        suggestion: None,
    }
}

#[test]
fn test_format_validation_result() {
    let service = PluginValidatorService::new();
    let result = valid_result();
    let formatted = service.format_validation_result(&result);
    assert!(formatted.contains("Plugin Validation Result"));
    assert!(formatted.contains("Validation passed"));
}

#[test]
fn test_format_audit_result() {
    let service = PluginValidatorService::new();
    let report = ValidationReport { total_plugins: 0, passed: 0, failed: 0, results: vec![] };
    let summary = service.generate_audit_summary(&report);
    let result = PluginAuditResult { report, summary };
    let formatted = service.format_audit_result(&result);
    assert!(formatted.contains("Plugin Audit Report"));
}

#[test]
fn audit_summary_counts_and_risk() {
    let service = PluginValidatorService::new();
    let mut bad = valid_result();
    bad.findings = vec![finding(ValidationSeverity::Error), finding(ValidationSeverity::Warning)];
    let report = ValidationReport { total_plugins: 2, passed: 1, failed: 1, results: vec![valid_result(), bad] };
    let summary = service.generate_audit_summary(&report);
    assert_eq!(summary.error_count, 1);
    assert_eq!(summary.warning_count, 1);
    assert_eq!(summary.total_findings, 2);
    assert_eq!(summary.risk_level, RiskLevel::Medium);
    assert_eq!(summary.recommendations, vec!["Fix 1 Error issues".to_string(), "Review 1 Warning issues".to_string()]);
    let audit = service.audit(report);
    let text = service.format_audit_result(&audit);
    assert!(text.contains("Risk Level: Medium\n"));
    assert!(text.contains("[PASS] Test Plugin (test-plugin)\n\n[FAIL] Test Plugin (test-plugin)\n  [Error] R1 - bad\n  [Warning] R1 - bad\n\n"));
    let empty = service.audit(ValidationReport { total_plugins: 0, passed: 0, failed: 0, results: vec![] });
    assert_eq!(empty.summary.recommendations, vec!["No plugins found to audit".to_string()]);
}

#[test]
fn failing_result_text() {
    let service = PluginValidatorService::new();
    let mut r = valid_result();
    r.findings = vec![finding(ValidationSeverity::Critical)];
    let text = service.format_validation_result(&r);
    assert!(text.contains("Critical: 1\nError: 0\nWarning: 0\nInfo: 0\n"));
    assert!(text.contains("[Critical] R1 - bad\n  Field: id\n\n"));
    assert!(text.ends_with("Duration: 3ms\n"));
}
