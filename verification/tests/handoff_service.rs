use cell_arch::decision_service::{DecisionMetrics, DecisionRecord, DecisionStorePort};
use cell_arch::errors::CellResult;
use cell_arch::handoff_service::{
    collect_open_questions, detect_file_role, most_recent_files, HandoffExporterPort, HandoffPackage, HandoffService,
    ProgressLog,
    ProgressStorePort, ProjectFacts, RecentFileInfo,
};
use std::cell::RefCell;

struct MockExporter;

impl HandoffExporterPort for MockExporter {
    fn export_json(&self, _package: &HandoffPackage, _output_path: &str) -> CellResult<String> {
        Ok("output.json".to_string())
    }

    fn export_markdown(&self, _package: &HandoffPackage, _output_path: &str) -> CellResult<String> {
        Ok("output.md".to_string())
    }

    fn import_json(&self, _path: &str) -> CellResult<HandoffPackage> {
        Ok(HandoffPackage::new("test"))
    }
}

struct MockProgressStore {
    current: RefCell<Option<ProgressLog>>,
}

impl MockProgressStore {
    fn new() -> Self {
        Self { current: RefCell::new(None) }
    }
}

impl ProgressStorePort for MockProgressStore {
    fn load_current(&self, _project_path: &str) -> CellResult<Option<ProgressLog>> {
        Ok(self.current.borrow().clone())
    }
}

struct MockDecisionStore;

impl DecisionStorePort for MockDecisionStore {
    fn save(&self, _path: &str, _decision: &DecisionRecord) -> CellResult<()> {
        Ok(())
    }

    fn load_all(&self, _path: &str) -> CellResult<Vec<DecisionRecord>> {
        Ok(Vec::new())
    }

    fn load_by_id(&self, _path: &str, _id: &str) -> CellResult<Option<DecisionRecord>> {
        Ok(None)
    }

    fn delete(&self, _path: &str, _id: &str) -> CellResult<()> {
        Ok(())
    }

    fn get_metrics(&self, _path: &str) -> CellResult<DecisionMetrics> {
        Ok(DecisionMetrics {
            total_decisions: 0,
            accepted_count: 0,
            rejected_count: 0,
            superseded_count: 0,
            by_category: Vec::new(),
            last_7_days: 0,
            last_30_days: 0,
        })
    }
}

fn no_facts() -> ProjectFacts {
    ProjectFacts {
        layer_files: Vec::new(),
        has_decision_log: false,
        recent_files: Vec::new(),
        source_files: Vec::new(),
        todo: None,
        rust_version: None,
    }
}

#[test]
fn test_generate_package() {
    let exporter = MockExporter;
    let store = MockProgressStore::new();
    let decision_store = MockDecisionStore;
    let service = HandoffService::new(exporter, store, decision_store);
    let pkg = service.generate(".", "test-project", Some("agent-1"), no_facts()).unwrap();

    assert_eq!(pkg.project_name, "test-project");
    assert_eq!(pkg.generated_by, Some("agent-1".to_string()));
    assert_eq!(pkg.project_overview.architecture_style, "Cell Architecture (Hexagonal + DDD)");
}

#[test]
fn test_validate_empty_package() {
    let mut pkg = HandoffPackage::new("test");
    let validation = pkg.validate();
    assert!(!validation.is_complete);
    assert!(validation.missing_fields.contains(&"current_task.name".to_string()));
}

#[test]
fn test_to_markdown() {
    let pkg = HandoffPackage::new("test-project");
    let md = pkg.to_markdown();
    assert!(md.contains("# 交接包: test-project"));
    assert!(md.contains("## 1. 项目概览"));
}

fn recent(path: &str, at: &str) -> RecentFileInfo {
    RecentFileInfo {
        path: path.to_string(),
        last_modified: at.to_string(),
        lines_of_code: 1,
        change_type: "modified".to_string(),
    }
}

#[test]
fn package_from_facts() {
    let service = HandoffService::new(MockExporter, MockProgressStore::new(), MockDecisionStore);
    let mut facts = no_facts();
    facts.layer_files = vec![("domain".to_string(), 3)];
    facts.has_decision_log = true;
    facts.recent_files = (0..25).map(|i| recent(&format!("src/f{}.rs", i), &format!("2024-01-{:02}T00:00:00+00:00", i + 1))).collect();
    facts.source_files = vec![("src/application/user_service.rs".to_string(), 10)];
    facts.todo = Some("- [ ] decide storage\n- [x] done\n* [ ] name things\n".to_string());
    let pkg = service.generate(".", "demo", None, facts).unwrap();
    assert_eq!(pkg.project_overview.key_directories[0].path, "src/domain");
    assert_eq!(pkg.project_overview.key_directories[0].purpose, "领域内核：核心业务模型、实体、值对象、领域服务");
    assert_eq!(pkg.development_rules.len(), 8);
    assert_eq!(pkg.recent_files.len(), 20);
    assert_eq!(pkg.recent_files[0].path, "src/f24.rs");
    assert_eq!(pkg.related_files[0].role, "应用服务");
    assert_eq!(pkg.open_questions, vec!["decide storage", "name things"]);
    assert!(!pkg.validation.is_complete);
}

#[test]
fn roles_and_questions() {
    assert_eq!(detect_file_role("src/Domain/user.rs"), "领域模型");
    assert_eq!(detect_file_role("src/application/ports/store.rs"), "端口接口");
    assert_eq!(detect_file_role("src/interfaces/cli.rs"), "接口层");
    assert_eq!(detect_file_role("build.rs"), "其他");
    assert_eq!(collect_open_questions("  - [ ] a\n"), vec!["a"]);
}

#[test]
fn package_ids_are_hyphenated_uuids() {
    let p = HandoffPackage::new("p");
    assert_eq!(p.package_id.len(), 36);
    assert_eq!(p.package_id.matches('-').count(), 4);
}

struct OneDecisionStore;

impl DecisionStorePort for OneDecisionStore {
    fn save(&self, _path: &str, _decision: &DecisionRecord) -> CellResult<()> {
        Ok(())
    }

    fn load_all(&self, _path: &str) -> CellResult<Vec<DecisionRecord>> {
        Ok(vec![cell_arch::decision_service::new_record(
            "d-1".to_string(),
            "2024-01-01T00:00:00+00:00".to_string(),
            "Use ports",
            "ctx",
            "adopt ports",
            "testability",
            cell_arch::decision_service::DecisionCategory::Architecture,
            None,
        )])
    }

    fn load_by_id(&self, _path: &str, _id: &str) -> CellResult<Option<DecisionRecord>> {
        Ok(None)
    }

    fn delete(&self, _path: &str, _id: &str) -> CellResult<()> {
        Ok(())
    }

    fn get_metrics(&self, _path: &str) -> CellResult<DecisionMetrics> {
        Err(cell_arch::errors::CellError::Other("none".to_string()))
    }
}

fn step(id: &str, description: &str, done: bool) -> cell_arch::auto_progress_service::NextStep {
    cell_arch::auto_progress_service::NextStep {
        id: id.to_string(),
        description: description.to_string(),
        priority: 2,
        estimated_minutes: Some(15),
        done,
    }
}

#[test]
fn package_carries_the_current_task_and_decisions() {
    let store = MockProgressStore::new();
    *store.current.borrow_mut() = Some(ProgressLog {
        task_name: "Add login".to_string(),
        description: "OAuth flow".to_string(),
        status: "in_progress".to_string(),
        started_at: "2024-01-01T00:00:00Z".to_string(),
        updated_at: "2024-01-02T00:00:00Z".to_string(),
        next_steps: vec![step("s1", "write tests", false), step("s2", "done already", true), step("s3", "wire adapter", false)],
    });
    let service = HandoffService::new(MockExporter, store, OneDecisionStore);
    let pkg = service.generate(".", "demo", None, no_facts()).unwrap();
    assert_eq!(pkg.current_task.name, "Add login");
    assert_eq!(pkg.current_task.description, "OAuth flow");
    assert_eq!(pkg.current_task.status, "in_progress");
    assert_eq!(pkg.current_task.started_at.as_deref(), Some("2024-01-01T00:00:00Z"));
    assert_eq!(pkg.current_task.last_activity_at.as_deref(), Some("2024-01-02T00:00:00Z"));
    let actions: Vec<&str> = pkg.next_actions.iter().map(|a| a.description.as_str()).collect();
    assert_eq!(actions, vec!["write tests", "wire adapter"]);
    assert_eq!(pkg.next_actions[1].id, "s3");
    assert_eq!(pkg.decisions.len(), 1);
    assert_eq!(pkg.decisions[0].title, "Use ports");
}

#[test]
fn package_without_progress_has_an_empty_task() {
    let service = HandoffService::new(MockExporter, MockProgressStore::new(), MockDecisionStore);
    let pkg = service.generate(".", "demo", None, no_facts()).unwrap();
    assert!(pkg.current_task.name.is_empty());
    assert!(pkg.current_task.started_at.is_none());
    assert!(pkg.next_actions.is_empty());
    assert!(pkg.decisions.is_empty());
}

#[test]
fn recent_files_newest_first_ties_keep_order() {
    let files = vec![
        recent("a.rs", "2024-01-01T00:00:00Z"),
        recent("b.rs", "2024-03-01T00:00:00Z"),
        recent("c.rs", "2024-01-01T00:00:00Z"),
        recent("d.rs", "2024-02-01T00:00:00Z"),
    ];
    let r = most_recent_files(files);
    let paths: Vec<&str> = r.iter().map(|f| f.path.as_str()).collect();
    assert_eq!(paths, vec!["b.rs", "d.rs", "a.rs", "c.rs"]);
    let many: Vec<RecentFileInfo> = (0..25).map(|i| recent(&format!("f{i}.rs"), "2024-01-01T00:00:00Z")).collect();
    let kept = most_recent_files(many);
    assert_eq!(kept.len(), 20);
    assert_eq!(kept[0].path, "f0.rs");
    assert_eq!(kept[19].path, "f19.rs");
}
