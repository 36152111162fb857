use cell_arch::arch_linter::{ArchitectureLinter, LintCategory, LintSeverity, SourceFile};

fn src(path: &str, content: &str) -> SourceFile {
    SourceFile { path: path.to_string(), content: content.to_string() }
}

fn test_project() -> Vec<SourceFile> {
    vec![
        src("domain/mod.rs", "\npub struct Entity;\nimpl Entity {\n    pub fn new() -> Self { Entity }\n}\n"),
        src(
            "application/mod.rs",
            "\nuse crate::domain::Entity;\npub struct Service;\nimpl Service {\n    pub fn do_work() -> Entity { Entity::new() }\n}\n",
        ),
        src(
            "adapters/mod.rs",
            "\nuse crate::application::Service;\npub struct Adapter;\nimpl Adapter {\n    pub fn run() { Service::do_work(); }\n}\n",
        ),
        src("interfaces/cli.rs", "\nuse crate::application::Service;\npub fn run() { Service::do_work(); }\n"),
        src("lib.rs", "\npub mod domain;\npub mod application;\npub mod adapters;\npub mod interfaces;\n"),
    ]
}

fn with_domain(content: &str) -> Vec<SourceFile> {
    let mut files = test_project();
    files[0] = src("domain/mod.rs", content);
    files
}

#[test]
fn test_linter_has_25_rules() {
    let linter = ArchitectureLinter::new();
    assert!(linter.list_rules().len() >= 20);
}

#[test]
fn test_valid_architecture_no_errors() {
    let linter = ArchitectureLinter::new();
    let result = linter.lint(&test_project());
    let layer_errors: Vec<_> = result
        .violations
        .iter()
        .filter(|v| v.category == LintCategory::Layering && v.severity == LintSeverity::Error)
        .collect();
    assert!(layer_errors.is_empty(), "Valid architecture should have no layer errors: {:?}", layer_errors);
}

#[test]
fn test_domain_depends_on_application_detected() {
    let files = with_domain(
        "\nuse crate::application::Service;\npub struct Entity;\nimpl Entity {\n    pub fn new() -> Self { Entity }\n}\n",
    );
    let linter = ArchitectureLinter::new();
    let result = linter.lint(&files);
    let has_l001 = result.violations.iter().any(|v| v.rule_id == "L001");
    assert!(has_l001, "Should detect L001 violation");
}

#[test]
fn test_unwrap_detected() {
    let files = with_domain(
        "\npub struct Entity;\nimpl Entity {\n    pub fn new() -> Self {\n        let x = Some(1);\n        let _y = x.unwrap();\n        Entity\n    }\n}\n",
    );
    let linter = ArchitectureLinter::new();
    let result = linter.lint(&files);
    let has_b001 = result.violations.iter().any(|v| v.rule_id == "B001");
    assert!(has_b001, "Should detect B001 (unwrap) violation");
}

#[test]
fn test_categories_present() {
    let linter = ArchitectureLinter::new();
    let rules = linter.list_rules();
    let cats: std::collections::HashSet<_> = rules.iter().map(|r| format!("{:?}", r.category)).collect();
    assert!(cats.contains("Layering"));
    assert!(cats.contains("Complexity"));
    assert!(cats.contains("Naming"));
    assert!(cats.contains("Testing"));
    assert!(cats.contains("BestPractice"));
}

#[test]
fn lint_counts_and_tallies() {
    let files = with_domain("use crate::application::X;\nuse crate::adapters::Y;\nfn f() { let a = b.unwrap(); }\n");
    let linter = ArchitectureLinter::new();
    let r = linter.lint(&files);
    assert_eq!(r.total_files, 5);
    assert_eq!(r.error_count, 2);
    assert_eq!(r.warning_count, 1);
    assert_eq!(r.total_violations, 3);
    assert_eq!(r.by_severity, vec![("Error".to_string(), 2), ("Warning".to_string(), 1)]);
    assert_eq!(r.by_category, vec![("BestPractice".to_string(), 1), ("Layering".to_string(), 2)]);
    let l002 = r.violations.iter().find(|v| v.rule_id == "L002").unwrap();
    assert_eq!(l002.line, 2);
    assert_eq!(l002.suggestion.as_deref(), Some("移除 domain → adapters 的依赖"));
}

#[test]
fn long_function_and_params_flagged() {
    let mut body = String::from("pub fn big(a: u8, b: u8, c: u8, d: u8, e: u8, f: u8, g: u8) {\n");
    for _ in 0..85 {
        body.push_str("    let x = 1;\n");
    }
    body.push_str("}\n");
    let linter = ArchitectureLinter::new();
    let r = linter.lint(&[src("application/big.rs", &body)]);
    let c004 = r.violations.iter().find(|v| v.rule_id == "C004").unwrap();
    assert_eq!(c004.message, "函数 `big` 参数过多 (7)，建议 ≤ 6 个");
    let c001 = r.violations.iter().find(|v| v.rule_id == "C001").unwrap();
    assert_eq!(c001.line, 1);
    assert_eq!(c001.message, "函数 `big` 过长 (86 行)，建议 ≤ 80 行");
}

#[test]
fn deep_nesting_flagged() {
    let code = "fn deep() {\n if a {\n if b {\n if c {\n if d {\n if e {\n }\n }\n }\n }\n }\n}\n";
    let linter = ArchitectureLinter::new();
    let r = linter.lint(&[src("domain/x.rs", code)]);
    let c003 = r.violations.iter().find(|v| v.rule_id == "C003").unwrap();
    assert_eq!(c003.message, "函数 `deep` 嵌套过深 (5 层)，建议 ≤ 4 层");
}

#[test]
fn global_state_flagged_at_line() {
    let code = "use std::x;\n\nstatic mut COUNTER: u32 = 0;\n";
    let linter = ArchitectureLinter::new();
    let r = linter.lint(&[src("application/state.rs", code)]);
    let inv = r.violations.iter().find(|v| v.rule_id == "INV03").unwrap();
    assert_eq!(inv.line, 3);
}

#[test]
fn format_result_texts() {
    let linter = ArchitectureLinter::new();
    let clean = linter.lint(&[]);
    let text = linter.format_result(&clean);
    assert!(text.contains("✅ 没有发现问题！架构很健康。\n"));
    assert!(text.ends_with("✅ 检查通过！\n"));
    let bad = linter.lint(&with_domain("use crate::application::X;\n"));
    let text = linter.format_result(&bad);
    assert!(text.contains("🔍 违规详情:\n\n  ❌ ["));
    assert!(text.contains("❌ 检查失败：存在 "));
}

#[test]
fn tallies_add_up_to_the_total() {
    let files = with_domain("use crate::application::X;\nuse crate::adapters::Y;\nfn f() { let a = b.unwrap(); }\n");
    let r = ArchitectureLinter::new().lint(&files);
    let by_category: usize = r.by_category.iter().map(|(_, n)| n).sum();
    let by_severity: usize = r.by_severity.iter().map(|(_, n)| n).sum();
    assert_eq!(by_category, r.total_violations);
    assert_eq!(by_severity, r.total_violations);
    assert_eq!(r.error_count + r.warning_count + r.info_count, r.total_violations);
}
