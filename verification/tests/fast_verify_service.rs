use cell_arch::fast_verify_service::{CommandOutcome, FastVerifyService, VerifyCheck};

fn outcome(success: bool, stdout: &str, stderr: &str, ms: u64) -> CommandOutcome {
    CommandOutcome { success, stdout: stdout.to_string(), stderr: stderr.to_string(), duration_ms: ms }
}

fn file(path: &str, content: &str) -> (String, String) {
    (path.to_string(), content.to_string())
}

#[test]
fn quick_check_names_its_three_checks() {
    let svc = FastVerifyService::new();
    let domain = vec![file("src/domain/a.rs", "use crate::adapters::db;\n")];
    let app = vec![file("src/application/b.rs", "use crate::domain::A;\n")];
    let r = svc
        .quick_check(outcome(true, "", "", 5), outcome(false, "out", "err", 7), &domain, &app, 2, 20)
        .unwrap();
    let names: Vec<&str> = r.checks.iter().map(|c| c.name.as_str()).collect();
    assert_eq!(names, vec!["编译检查 (cargo check)", "快速单元测试", "架构分层规则检查"]);
    assert!(!r.passed);
    assert_eq!(r.duration_ms, 20);
    assert!(r.checks[0].passed && r.checks[0].details.is_none());
    assert_eq!(r.checks[1].details.as_deref(), Some("err\nout"));
    assert_eq!(r.checks[1].duration_ms, 7);
    assert!(!r.checks[2].passed);
    for c in &r.checks {
        assert_eq!(c.passed, c.details.is_none());
    }
}

#[test]
fn quick_check_passes_when_every_check_does() {
    let svc = FastVerifyService::new();
    let r = svc.quick_check(outcome(true, "", "", 1), outcome(true, "ok", "", 1), &Vec::new(), &Vec::new(), 0, 3).unwrap();
    assert!(r.passed);
    assert!(r.checks.iter().all(|c| c.passed));
}

#[test]
fn deep_check_keeps_the_entropy_check() {
    let svc = FastVerifyService::new();
    let entropy = VerifyCheck { name: "熵值检查".to_string(), passed: false, duration_ms: 4, details: Some("高".to_string()) };
    let r = svc
        .deep_check(outcome(false, "", "boom", 1), outcome(true, "", "", 2), entropy, &Vec::new(), &Vec::new(), 0, 9)
        .unwrap();
    let names: Vec<&str> = r.checks.iter().map(|c| c.name.as_str()).collect();
    assert_eq!(names, vec!["编译检查 (cargo check)", "完整测试套件", "熵值检查", "架构分层规则检查"]);
    assert_eq!(r.checks[0].details.as_deref(), Some("boom"));
    assert!(!r.passed);
}
