use cell_arch::onboarding_service::OnboardingService;

#[test]
fn test_env_check() {
    let service = OnboardingService::new();
    let report = service
        .check_environment(Some("rustc 1.80.0".to_string()), Some("cargo 1.80.0".to_string()), None)
        .unwrap();
    assert!(!report.checks.is_empty());
}

#[test]
fn onboarding_service_test_get_status() {
    let service = OnboardingService::new();
    let status = service.get_status(false, false, false, false, false).unwrap();
    let _ = status;
}

#[test]
fn missing_git_is_an_error() {
    let service = OnboardingService::new();
    let report = service
        .check_environment(Some("rustc 1.80.0".to_string()), Some("cargo 1.80.0".to_string()), None)
        .unwrap();
    assert!(!report.all_passed);
    assert_eq!(report.errors, vec!["Git 未安装".to_string()]);
    assert!(report.warnings.is_empty());
    let text = service.format_doctor_report(&report);
    assert!(text.contains("  Rust\n    状态: ✅ 已安装 (rustc 1.80.0)\n"));
    assert!(text.contains("  Git\n    状态: ❌ 未安装 (必需)\n    提示: 请安装 Git: https://git-scm.com/\n"));
    assert!(text.ends_with("❌ 检测到 1 个问题\n   - Git 未安装\n"));
}

#[test]
fn ready_only_when_all_done() {
    let service = OnboardingService::new();
    assert!(service.get_status(true, true, true, true, true).unwrap().ready);
    assert!(!service.get_status(true, true, false, true, true).unwrap().ready);
}
