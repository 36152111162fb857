use cell_arch::arch_service::ValidationResult;
use cell_arch::dev_workflow_service::{DevPhase, DevWorkflowService, DevWorkflowState, PhaseCheck, PhaseResult};
use cell_arch::errors::CellError;
use cell_arch::fast_verify_service::{VerifyCheck, VerifyResult};

fn arch(passed: bool) -> ValidationResult {
    ValidationResult { passed, violations: Vec::new(), layer_stats: Vec::new() }
}

fn state(baseline: usize) -> Option<DevWorkflowState> {
    Some(DevWorkflowState {
        task_name: "task".to_string(),
        current_phase: DevPhase::Starting,
        baseline_violations: baseline,
        decisions: Vec::new(),
        started_at: "t0".to_string(),
        last_updated: "t0".to_string(),
    })
}

fn not_started() -> CellError {
    CellError::Config("工作流未启动，请先运行 cell dev start".to_string())
}

fn check(name: &str, passed: bool, detail: &str) -> PhaseCheck {
    PhaseCheck { name: name.to_string(), passed, detail: detail.to_string() }
}

#[test]
fn phases_in_order() {
    let mut p = DevPhase::Starting;
    let mut labels = vec![p.label().to_string()];
    while let Some(n) = p.next() {
        p = n;
        labels.push(p.label().to_string());
    }
    assert_eq!(p, DevPhase::Complete);
    assert_eq!(labels.len(), 6);
    assert_eq!(labels[0], "🚀 启动阶段");
    assert_eq!(labels[5], "🎉 完成");
}

#[test]
fn checkpoint_reports_architecture_first() {
    let s = DevWorkflowService::new();
    let r = s
        .code_checkpoint(Ok(()), &state(0), &arch(true), vec![check("熵值变化监控", true, "ok")], vec!["w".to_string()], 12)
        .unwrap();
    assert_eq!(r.phase, DevPhase::Coding);
    assert!(r.success);
    assert_eq!(r.checks.len(), 2);
    assert_eq!(r.checks[0].name, "架构合规检查");
    assert_eq!(r.checks[0].detail, "0 个违规");
    assert_eq!(r.warnings, vec!["w"]);
}

#[test]
fn verify_phase_counts_new_violations() {
    let s = DevWorkflowService::new();
    let v = VerifyResult {
        passed: false,
        duration_ms: 3,
        checks: vec![VerifyCheck { name: "编译检查".to_string(), passed: false, duration_ms: 3, details: None }],
    };
    let (r, next) = s.verify_phase(Ok(()), state(2), Ok(v), 5, 40).unwrap();
    assert_eq!(next.current_phase, DevPhase::Verifying);
    assert_eq!(next.baseline_violations, 2);
    assert!(!r.success);
    assert_eq!(r.checks.len(), 2);
    assert_eq!(r.checks[1].detail, "基线: 2, 当前: 5, 变化: +3");
    assert_eq!(r.warnings, vec!["验证未全部通过，请检查失败项"]);
    let (r, _) = s.verify_phase(Ok(()), state(3), Err("boom".to_string()), 1, 1).unwrap();
    assert_eq!(r.checks[0].detail, "失败: boom");
    assert_eq!(r.checks[1].detail, "基线: 3, 当前: 1, 变化: -2");
    assert!(r.checks[1].passed);
}

#[test]
fn handoff_phase_checks() {
    let s = DevWorkflowService::new();
    let (r, next) = s
        .handoff_phase(Ok(()), state(0), Err("no store".to_string()), Vec::new(), Vec::new(), Some(Ok(())), Ok(()), 5)
        .unwrap();
    assert_eq!(next.current_phase, DevPhase::HandingOff);
    let names: Vec<&str> = r.checks.iter().map(|c| c.name.as_str()).collect();
    assert_eq!(names, vec!["交接包生成", "自进化记录", "任务完成"]);
    assert_eq!(r.warnings, vec!["交接包生成失败: no store"]);
    assert!(r.success);
}

#[test]
fn start_and_design() {
    let s = DevWorkflowService::new();
    let (r, started) = s.start_task("login", Ok(()), Vec::new(), Vec::new(), &arch(false), 0).unwrap();
    assert_eq!(r.checks[1].detail, "0 个违规");
    assert_eq!(r.warnings, vec!["架构存在 0 个违规，请在开发中注意"]);
    assert_eq!(started.task_name, "login");
    assert_eq!(started.current_phase, DevPhase::Starting);
    assert_eq!(started.started_at, started.last_updated);
    let (d, designed) = s.design_phase(Ok(()), Some(started), Vec::new(), Vec::new(), &arch(true), 0).unwrap();
    assert_eq!(d.checks[0].detail, "0 层, 0 个违规");
    assert_eq!(designed.current_phase, DevPhase::Designing);
    assert_eq!(designed.task_name, "login");
}

#[test]
fn phase_report_text() {
    let s = DevWorkflowService::new();
    let r = PhaseResult {
        phase: DevPhase::Coding,
        success: false,
        duration_ms: 7,
        checks: vec![check("a", true, "fine"), check("b", false, "bad")],
        warnings: vec!["careful".to_string()],
    };
    let text = s.format_phase_result(&r);
    let expected = format!(
        "\n💻 开发阶段 {}\n  耗时: 7ms\n\n  检查结果:\n    ✅ {:<20} - fine\n    ❌ {:<20} - bad\n\n  ⚠️  警告:\n    • careful\n\n  阶段结果: ❌ 失败\n",
        "═".repeat(50),
        "a",
        "b"
    );
    assert_eq!(text, expected);
}

#[test]
fn phases_refuse_a_workflow_never_started() {
    let s = DevWorkflowService::new();
    assert_eq!(s.code_checkpoint(Ok(()), &None, &arch(true), Vec::new(), Vec::new(), 1).unwrap_err(), not_started());
    assert_eq!(s.design_phase(Ok(()), None, Vec::new(), Vec::new(), &arch(true), 1).unwrap_err(), not_started());
    assert_eq!(s.verify_phase(Ok(()), None, Err("x".to_string()), 0, 1).unwrap_err(), not_started());
    assert_eq!(
        s.handoff_phase(Ok(()), None, Ok("p".to_string()), Vec::new(), Vec::new(), None, Ok(()), 1).unwrap_err(),
        not_started()
    );
    assert_eq!(s.current_status(None).unwrap_err(), not_started());
}

#[test]
fn logging_and_completion_errors_are_passed_on() {
    let s = DevWorkflowService::new();
    let io = CellError::Io("disk".to_string());
    assert_eq!(s.code_checkpoint(Err(io.clone()), &None, &arch(true), Vec::new(), Vec::new(), 1).unwrap_err(), io);
    assert_eq!(s.start_task("t", Err(io.clone()), Vec::new(), Vec::new(), &arch(true), 1).unwrap_err(), io);
    assert_eq!(
        s.handoff_phase(Ok(()), state(0), Ok("p".to_string()), Vec::new(), Vec::new(), None, Err(io.clone()), 1)
            .unwrap_err(),
        io
    );
}

#[test]
fn decisions_are_noted_in_simple_form() {
    let s = DevWorkflowService::new();
    let next = s.record_decision(Ok("a1b2-c3-d4".to_string()), state(0)).unwrap();
    assert_eq!(next.decisions, vec!["a1b2c3d4".to_string()]);
    assert_eq!(next.task_name, "task");
    assert_eq!(s.record_decision(Ok("x".to_string()), None).unwrap_err(), not_started());
}
