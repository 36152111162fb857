use cell_arch::decision_engine::{AutoDecision, DecisionConfidence, DecisionEngineService, DecisionSeverity};

#[test]
fn test_decision_engine_new() {
    let engine = DecisionEngineService::new();
    assert!(!engine.get_rules().is_empty());
}

#[test]
fn decision_engine_test_list_decisions() {
    let engine = DecisionEngineService::new();
    let report = engine.list_decisions(Vec::new(), false);
    let _ = report;
}

#[test]
fn test_make_decision_naming() {
    let engine = DecisionEngineService::new();
    let decision = engine.make_decision("命名规范", "变量命名不统一", "test-agent");
    assert_eq!(decision.confidence, DecisionConfidence::High);
    assert!(!decision.decision.is_empty());
    assert!(decision.id.starts_with("dec-"));
    assert_eq!(decision.id.len(), 36);
}

#[test]
fn test_make_decision_security() {
    let engine = DecisionEngineService::new();
    let decision = engine.make_decision("安全方案", "数据加密方式选择", "test-agent");
    assert!(decision.needs_human_review);
    assert_eq!(decision.severity, DecisionSeverity::Critical);
}

#[test]
fn severity_from_context() {
    let engine = DecisionEngineService::new();
    assert_eq!(engine.make_decision("x", "Architecture change", "a").severity, DecisionSeverity::High);
    assert_eq!(engine.make_decision("x", "数据库迁移", "a").severity, DecisionSeverity::Medium);
    assert_eq!(engine.make_decision("x", "y", "a").severity, DecisionSeverity::Low);
    assert_eq!(engine.make_decision("x", "y", "a").confidence, DecisionConfidence::Low);
}

fn decision(id: &str, at: &str, conf: DecisionConfidence, review: bool) -> AutoDecision {
    AutoDecision {
        id: id.to_string(),
        title: format!("t-{}", id),
        context: String::new(),
        decision: String::new(),
        rationale: String::new(),
        alternatives: vec![],
        severity: DecisionSeverity::Low,
        confidence: conf,
        needs_human_review: review,
        created_at: at.to_string(),
        agent_id: "a".to_string(),
        related_adr: None,
    }
}

#[test]
fn report_sorts_newest_first_and_tallies() {
    let engine = DecisionEngineService::new();
    let ds = vec![
        decision("1", "2024-01-01", DecisionConfidence::High, false),
        decision("2", "2024-03-01", DecisionConfidence::Low, true),
        decision("3", "2024-02-01", DecisionConfidence::High, false),
    ];
    let report = engine.list_decisions(ds, false);
    assert_eq!(report.total_decisions, 3);
    assert_eq!(report.pending_review, 1);
    let ids: Vec<&str> = report.decisions.iter().map(|d| d.id.as_str()).collect();
    assert_eq!(ids, vec!["2", "3", "1"]);
    assert_eq!(report.by_confidence, vec![("High".to_string(), 2), ("Low".to_string(), 1)]);
    assert_eq!(report.by_severity, vec![("Low".to_string(), 3)]);
    let text = engine.format_report(&report);
    assert!(text.contains("  总决策数: 3\n"));
    assert!(text.contains("  1. [Low] t-2 ⚠️\n"));
    let only = engine.list_decisions(
        vec![decision("1", "a", DecisionConfidence::High, false), decision("2", "b", DecisionConfidence::Low, true)],
        true,
    );
    assert_eq!(only.total_decisions, 1);
    assert_eq!(only.decisions[0].id, "2");
}

#[test]
fn decision_text() {
    let engine = DecisionEngineService::new();
    let d = decision("9", "now", DecisionConfidence::Medium, false);
    let text = engine.format_decision(&d);
    assert!(text.starts_with("\n🟢 决策: t-9\n\n  ID: 9\n  置信度: 🤔 Medium\n"));
    assert!(text.ends_with("  时间: now\n"));
}

#[test]
fn mixed_case_context_is_matched_in_lowercase() {
    let engine = DecisionEngineService::new();
    let d = engine.make_decision("存储方案。", "Choose a DATABASE", "a1");
    assert_eq!(d.decision, "使用 Repository 模式抽象数据访问，具体实现放在 Adapters 层");
    assert_eq!(d.confidence, DecisionConfidence::Medium);
}
