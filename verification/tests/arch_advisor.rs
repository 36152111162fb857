use cell_arch::arch_advisor::{AdviceSeverity, ArchitectureAdvisor};
use cell_arch::arch_service::{LayerStats, Severity, ValidationResult, Violation};

fn validation() -> ValidationResult {
    ValidationResult {
        passed: false,
        violations: vec![Violation {
            rule: "layer_dependency".to_string(),
            from_module: "domain".to_string(),
            to_module: "adapters".to_string(),
            file: "src/domain/a.rs".to_string(),
            line: 1,
            severity: Severity::Error,
            message: "bad".to_string(),
        }],
        layer_stats: vec![
            ("domain".to_string(), LayerStats { file_count: 1, internal_deps: 0, external_deps: 1, violations: 4 }),
            ("application".to_string(), LayerStats { file_count: 1, internal_deps: 1, external_deps: 2, violations: 0 }),
        ],
    }
}

#[test]
fn advice_from_validation() {
    let advisor = ArchitectureAdvisor::new();
    let result = advisor.advise(&validation(), Vec::new());
    let ids: Vec<&str> = result.advices.iter().map(|a| a.id.as_str()).collect();
    assert_eq!(ids, vec!["arch-domain", "coupling-domain", "violation-src/domain/a.rs"]);
    assert_eq!(result.advices[0].severity, AdviceSeverity::Critical);
    assert_eq!(result.summary.critical_count, 2);
    assert_eq!(result.summary.medium_count, 1);
    assert_eq!(result.summary.total_issues, 3);
    assert_eq!(
        result.summary.recommended_actions,
        vec!["立即修复所有Critical级别的架构违规".to_string(), "制定计划降低模块耦合度".to_string()]
    );
    let text = advisor.format_result(&result);
    assert!(text.contains("总建议数: 3\n🔴 Critical: 2\n"));
    assert!(text.contains("🔴 domain层存在架构违规 - ⭐\n"));
    assert!(text.contains("   📎 影响文件:\n      • src/domain/a.rs\n"));
}

#[test]
fn advice_texts_and_files() {
    let result = ArchitectureAdvisor::new().advise(&validation(), Vec::new());
    let a = &result.advices;
    assert_eq!(a[0].description, "domain层有4个依赖违规，违反了分层架构原则");
    assert_eq!(
        a[0].suggestion,
        "检查domain层的import语句，确保只依赖内层（domain -> application -> adapters -> interfaces）"
    );
    assert!(a[0].affected_files.is_empty());
    assert_eq!(a[1].description, "domain层外部依赖(1)远多于内部依赖(0)，可能导致过度耦合");
    assert_eq!(a[1].suggestion, "考虑将部分依赖抽象为Port接口，减少直接依赖");
    assert_eq!(a[2].title, "非法层间依赖: domain -> adapters");
    assert_eq!(a[2].description, "bad");
    assert_eq!(a[2].suggestion, "移除domain对adapters的依赖，通过Port接口或领域事件进行通信");
    assert_eq!(a[2].affected_files, vec!["src/domain/a.rs".to_string()]);
}
