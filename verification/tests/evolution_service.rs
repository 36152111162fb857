use cell_arch::errors::CellResult;
use cell_arch::evolution_service::{
    diagnose, EffortEstimate, EvolutionLog, EvolutionPhase, EvolutionService, EvolutionStorePort, ImpactLevel,
    ImprovementCategory, ImprovementStatus, IssueCategory, IssueSeverity, IssueStatus, ProjectFacts,
};
use std::cell::RefCell;

struct MockStore {
    current: RefCell<Option<EvolutionLog>>,
    history: RefCell<Vec<EvolutionLog>>,
}

impl MockStore {
    fn new() -> Self {
        Self { current: RefCell::new(None), history: RefCell::new(Vec::new()) }
    }
}

impl EvolutionStorePort for MockStore {
    fn load_current_cycle(&self, _project_path: &str) -> CellResult<Option<EvolutionLog>> {
        Ok(self.current.borrow().clone())
    }

    fn save_current_cycle(&self, _project_path: &str, log: &EvolutionLog) -> CellResult<()> {
        *self.current.borrow_mut() = Some(log.clone());
        Ok(())
    }

    fn list_history(&self, _project_path: &str) -> CellResult<Vec<EvolutionLog>> {
        Ok(self.history.borrow().clone())
    }

    fn archive_cycle(&self, _project_path: &str, log: &EvolutionLog) -> CellResult<()> {
        self.history.borrow_mut().push(log.clone());
        *self.current.borrow_mut() = None;
        Ok(())
    }

    fn get_next_cycle_number(&self, _project_path: &str) -> CellResult<u32> {
        Ok((self.history.borrow().len() + 1) as u32)
    }
}

#[test]
fn test_start_cycle() {
    let service = EvolutionService::new(MockStore::new());
    let log = service.start_cycle(".").unwrap();
    assert_eq!(log.cycle_number, 1);
    assert_eq!(log.phase, EvolutionPhase::CollectingIssues);
}

#[test]
fn test_report_issue() {
    let service = EvolutionService::new(MockStore::new());
    service.start_cycle(".").unwrap();
    let log = service
        .report_issue(".", "交接包信息不全", "接手时缺少架构状态信息", IssueCategory::HandoffCompleteness, IssueSeverity::High)
        .unwrap();
    assert_eq!(log.issues.len(), 1);
    assert_eq!(log.issues[0].title, "交接包信息不全");
    assert_eq!(log.issues[0].severity, IssueSeverity::High);
}

#[test]
fn test_generate_suggestions() {
    let service = EvolutionService::new(MockStore::new());
    service.start_cycle(".").unwrap();
    service.report_issue(".", "流程太慢", "步骤太多", IssueCategory::ProcessEfficiency, IssueSeverity::Medium).unwrap();
    service.report_issue(".", "还是慢", "效率低", IssueCategory::ProcessEfficiency, IssueSeverity::Low).unwrap();
    let suggestions = service.generate_suggestions(".").unwrap();
    assert!(!suggestions.is_empty());
    assert_eq!(suggestions.len(), 1);
    assert_eq!(suggestions[0].category, ImprovementCategory::ProcessOptimization);
    assert_eq!(suggestions[0].related_issue_ids.len(), 2);
}

#[test]
fn test_apply_improvement() {
    let service = EvolutionService::new(MockStore::new());
    service.start_cycle(".").unwrap();
    let log = service
        .add_improvement(".", "优化流程", "减少步骤", ImprovementCategory::ProcessOptimization, ImpactLevel::High, EffortEstimate::Hours)
        .unwrap();
    let imp_id = log.improvements[0].id.to_string();
    let log = service.apply_improvement(".", &imp_id, Some("agent-1")).unwrap();
    assert_eq!(log.improvements[0].status, ImprovementStatus::Applied);
    assert_eq!(log.improvements[0].applied_by, Some("agent-1".to_string()));
    assert!(service.apply_improvement(".", "not-a-uuid", None).is_err());
    assert!(service.apply_improvement(".", "00000000-0000-0000-0000-000000000000", None).is_err());
}

#[test]
fn test_no_active_cycle_fails() {
    let service = EvolutionService::new(MockStore::new());
    let result = service.report_issue(".", "test", "desc", IssueCategory::Other, IssueSeverity::Low);
    assert!(result.is_err());
}

#[test]
fn test_complete_cycle() {
    let service = EvolutionService::new(MockStore::new());
    service.start_cycle(".").unwrap();
    let log = service.complete_cycle(".").unwrap();
    assert_eq!(log.phase, EvolutionPhase::Completed);
    assert!(log.completed_at.is_some());
    let history = service.list_history(".").unwrap();
    assert_eq!(history.len(), 1);
    let summary = service.get_evolution_summary(".").unwrap();
    assert_eq!(summary.cycles_completed, 1);
    assert!(!summary.current_cycle_active);
}

#[test]
fn second_active_cycle_refused() {
    let service = EvolutionService::new(MockStore::new());
    service.start_cycle(".").unwrap();
    let err = service.start_cycle(".").unwrap_err();
    assert_eq!(format!("{:?}", err), "Config(\"There is already an active evolution cycle #1. Complete it first.\")");
}

#[test]
fn diagnose_bare_project() {
    let facts = ProjectFacts {
        has_progress: false,
        has_decisions: true,
        has_handoffs: true,
        has_evolution: true,
        has_tests: false,
        has_ci: false,
        has_readme: true,
        file_count: 21,
        total_lines: 100,
    };
    let found = diagnose(facts);
    let titles: Vec<&str> = found.iter().map(|f| f.0.as_str()).collect();
    assert_eq!(titles, vec!["缺少进度追踪工具", "测试覆盖率不足", "构建速度可能成为瓶颈", "缺少CI/CD流水线"]);
    assert_eq!(found[1].1, "项目有 21 个文件但缺少测试，容易引入回归bug。建议添加单元测试和架构测试。");
    let service = EvolutionService::new(MockStore::new());
    service.start_cycle(".").unwrap();
    let log = service.auto_diagnose(".", facts).unwrap();
    assert_eq!(log.issues.len(), 4);
    let log = service.auto_diagnose(".", facts).unwrap();
    assert_eq!(log.issues.len(), 4);
    assert_eq!(log.issues[0].status, IssueStatus::Open);
}

#[test]
fn suggestions_describe_their_issues() {
    let service = EvolutionService::new(MockStore::new());
    service.start_cycle(".").unwrap();
    service.report_issue(".", "慢", "步骤多", IssueCategory::ProcessEfficiency, IssueSeverity::Medium).unwrap();
    service.report_issue(".", "文档缺", "没写", IssueCategory::Documentation, IssueSeverity::Low).unwrap();
    service.report_issue(".", "还是慢", "效率低", IssueCategory::ProcessEfficiency, IssueSeverity::Low).unwrap();
    let s = service.generate_suggestions(".").unwrap();
    assert_eq!(s.len(), 2);
    assert_eq!(s[0].title, "Address ProcessEfficiency issues");
    assert_eq!(s[0].description, "Reported issues in this category: 2");
    assert_eq!(s[0].expected_impact, ImpactLevel::Medium);
    assert_eq!(s[0].implementation_effort, EffortEstimate::Hours);
    assert!(s[0].applied_at.is_none() && s[0].acceptance_criteria.is_empty());
    assert_eq!(s[1].description, "Reported issues in this category: 1");
}

struct NoNumberStore {
    inner: MockStore,
}

impl EvolutionStorePort for NoNumberStore {
    fn load_current_cycle(&self, p: &str) -> CellResult<Option<EvolutionLog>> {
        self.inner.load_current_cycle(p)
    }

    fn save_current_cycle(&self, p: &str, log: &EvolutionLog) -> CellResult<()> {
        self.inner.save_current_cycle(p, log)
    }

    fn list_history(&self, p: &str) -> CellResult<Vec<EvolutionLog>> {
        self.inner.list_history(p)
    }

    fn archive_cycle(&self, p: &str, log: &EvolutionLog) -> CellResult<()> {
        self.inner.archive_cycle(p, log)
    }

    fn get_next_cycle_number(&self, _p: &str) -> CellResult<u32> {
        Err(cell_arch::errors::CellError::Io("no history".to_string()))
    }
}

#[test]
fn active_cycle_is_refused_before_numbering() {
    let inner = MockStore::new();
    *inner.current.borrow_mut() = Some(EvolutionService::new(MockStore::new()).start_cycle(".").unwrap());
    let service = EvolutionService::new(NoNumberStore { inner });
    let err = service.start_cycle(".").unwrap_err();
    assert_eq!(
        err,
        cell_arch::errors::CellError::Config("There is already an active evolution cycle #1. Complete it first.".to_string())
    );
    let fresh = EvolutionService::new(NoNumberStore { inner: MockStore::new() });
    assert_eq!(fresh.start_cycle(".").unwrap_err(), cell_arch::errors::CellError::Io("no history".to_string()));
}
