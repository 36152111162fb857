use cell_arch::decision_service::{
    calculate_decision_metrics, parse_category, parse_status, select_and_sort, DecisionCategory, DecisionMetrics,
    DecisionRecord, DecisionService, DecisionStatus, DecisionStorePort,
};
use cell_arch::errors::{CellError, CellResult};
use std::cell::RefCell;

struct MockDecisionStore {
    decisions: RefCell<Vec<DecisionRecord>>,
}

impl MockDecisionStore {
    fn new() -> Self {
        Self { decisions: RefCell::new(Vec::new()) }
    }
}

impl DecisionStorePort for MockDecisionStore {
    fn save(&self, _path: &str, decision: &DecisionRecord) -> CellResult<()> {
        let mut decs = self.decisions.borrow_mut();
        if let Some(pos) = decs.iter().position(|d| d.id == decision.id) {
            decs[pos] = decision.clone();
        } else {
            decs.push(decision.clone());
        }
        Ok(())
    }

    fn load_all(&self, _path: &str) -> CellResult<Vec<DecisionRecord>> {
        Ok(self.decisions.borrow().clone())
    }

    fn load_by_id(&self, _path: &str, id: &str) -> CellResult<Option<DecisionRecord>> {
        Ok(self.decisions.borrow().iter().find(|d| d.id == id).cloned())
    }

    fn delete(&self, _path: &str, _id: &str) -> CellResult<()> {
        Ok(())
    }

    fn get_metrics(&self, path: &str) -> CellResult<DecisionMetrics> {
        let decisions = self.load_all(path)?;
        let now = chrono::Utc::now();
        let seven = (now - chrono::Duration::days(7)).to_rfc3339();
        let thirty = (now - chrono::Duration::days(30)).to_rfc3339();
        Ok(calculate_decision_metrics(&decisions, &seven, &thirty))
    }
}

#[test]
fn test_record_decision() {
    let store = MockDecisionStore::new();
    let service = DecisionService::new(store);

    let result = service.record_decision(
        ".",
        "测试决策",
        "背景",
        "决策内容",
        "理由",
        DecisionCategory::Architecture,
        Some("agent-1"),
    );

    assert!(result.is_ok());
    let d = result.unwrap();
    assert_eq!(d.title, "测试决策");
    assert_eq!(d.status, DecisionStatus::Accepted);
    assert_eq!(d.made_by, Some("agent-1".to_string()));
}

#[test]
fn decision_service_test_list_decisions() {
    let store = MockDecisionStore::new();
    let service = DecisionService::new(store);

    service.record_decision(".", "决策1", "", "", "", DecisionCategory::Architecture, None).unwrap();
    service.record_decision(".", "决策2", "", "", "", DecisionCategory::Technology, None).unwrap();

    let all = service.list_decisions(".", None, None).unwrap();
    assert_eq!(all.len(), 2);

    let arch = service.list_decisions(".", Some(DecisionCategory::Architecture), None).unwrap();
    assert_eq!(arch.len(), 1);
}

#[test]
fn amending_decisions() {
    let service = DecisionService::new(MockDecisionStore::new());
    let d = service.record_decision(".", "t", "", "", "", DecisionCategory::Design, None).unwrap();
    let d2 = service.add_tag(".", &d.id, "api").unwrap();
    assert_eq!(d2.tags, vec!["api"]);
    let d3 = service.add_tag(".", &d.id, "api").unwrap();
    assert_eq!(d3.tags, vec!["api"]);
    let d4 = service.update_status(".", &d.id, DecisionStatus::Superseded).unwrap();
    assert!(d4.revoked_at.is_some());
    let d5 = service.add_alternative(".", &d.id, "other", "desc", Vec::new(), Vec::new()).unwrap();
    assert_eq!(d5.alternatives.len(), 1);
    assert!(service.add_tag(".", "missing", "x").is_err());
}

fn record(id: &str, at: &str, category: DecisionCategory, status: DecisionStatus) -> DecisionRecord {
    DecisionRecord {
        id: id.to_string(),
        title: id.to_string(),
        context: String::new(),
        decision: String::new(),
        rationale: String::new(),
        category,
        status,
        made_by: None,
        made_at: at.to_string(),
        updated_at: at.to_string(),
        revoked_at: None,
        alternatives: Vec::new(),
        tags: Vec::new(),
        related_files: Vec::new(),
    }
}

#[test]
fn newest_first_and_metrics() {
    let ds = vec![
        record("a", "2024-01-01T00:00:00+00:00", DecisionCategory::Architecture, DecisionStatus::Accepted),
        record("b", "2024-03-01T00:00:00+00:00", DecisionCategory::Technology, DecisionStatus::Rejected),
        record("c", "2024-02-01T00:00:00+00:00", DecisionCategory::Architecture, DecisionStatus::Superseded),
    ];
    let sorted = select_and_sort(ds.clone(), None, None);
    let ids: Vec<&str> = sorted.iter().map(|d| d.id.as_str()).collect();
    assert_eq!(ids, vec!["b", "c", "a"]);
    let arch = select_and_sort(ds.clone(), Some(DecisionCategory::Architecture), Some(DecisionStatus::Accepted));
    assert_eq!(arch.len(), 1);
    let m = calculate_decision_metrics(&ds, "2024-02-15T00:00:00+00:00", "2024-01-15T00:00:00+00:00");
    assert_eq!((m.total_decisions, m.accepted_count, m.rejected_count, m.superseded_count), (3, 1, 1, 1));
    assert_eq!((m.last_7_days, m.last_30_days), (1, 2));
    assert_eq!(m.by_category, vec![(DecisionCategory::Architecture, 2), (DecisionCategory::Technology, 1)]);
}

#[test]
fn parsing_names() {
    assert_eq!(parse_category("arch"), Some(DecisionCategory::Architecture));
    assert_eq!(parse_category("perf"), Some(DecisionCategory::Performance));
    assert_eq!(parse_category("x"), None);
    assert_eq!(parse_status("Accepted"), Some(DecisionStatus::Accepted));
    assert_eq!(parse_status("supersede"), Some(DecisionStatus::Superseded));
    assert_eq!(parse_status("done"), None);
}

#[test]
fn test_calculate_metrics() {
    let store = MockDecisionStore::new();
    let service = DecisionService::new(store);

    service
        .record_decision(".", "决策1", "", "", "", DecisionCategory::Architecture, None)
        .unwrap();
    service
        .record_decision(".", "决策2", "", "", "", DecisionCategory::Technology, None)
        .unwrap();

    let metrics = service.get_metrics(".").unwrap();
    assert_eq!(metrics.total_decisions, 2);
    assert_eq!(metrics.accepted_count, 2);
    assert!(metrics.last_7_days >= 2);
}

#[test]
fn decision_ids_are_simple_uuids() {
    let service = DecisionService::new(MockDecisionStore::new());
    let d = service.record_decision(".", "t", "", "", "", DecisionCategory::Other, None).unwrap();
    assert_eq!(d.id.len(), 32);
    assert!(d.id.chars().all(|c| c.is_ascii_hexdigit() && !c.is_ascii_uppercase()));
}

struct FailingStore;

impl DecisionStorePort for FailingStore {
    fn save(&self, _path: &str, _decision: &DecisionRecord) -> CellResult<()> {
        Err(CellError::Io("disk full".to_string()))
    }

    fn load_all(&self, _path: &str) -> CellResult<Vec<DecisionRecord>> {
        Err(CellError::Io("unreadable".to_string()))
    }

    fn load_by_id(&self, _path: &str, _id: &str) -> CellResult<Option<DecisionRecord>> {
        Ok(None)
    }

    fn delete(&self, _path: &str, _id: &str) -> CellResult<()> {
        Ok(())
    }

    fn get_metrics(&self, _path: &str) -> CellResult<DecisionMetrics> {
        Err(CellError::Io("unreadable".to_string()))
    }
}

#[test]
fn store_errors_are_passed_on() {
    let service = DecisionService::new(FailingStore);
    let r = service.record_decision(".", "t", "", "", "", DecisionCategory::Other, None);
    assert_eq!(r.unwrap_err(), CellError::Io("disk full".to_string()));
    assert_eq!(service.list_decisions(".", None, None).unwrap_err(), CellError::Io("unreadable".to_string()));
    assert_eq!(
        service.update_status(".", "x", DecisionStatus::Accepted).unwrap_err(),
        CellError::Config("Decision not found".to_string())
    );
}
