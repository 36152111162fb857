use cell_arch::dev_env_service::{DevEnvFacts, DevEnvService};
use cell_arch::dev_env_service::DevEnvStatus;

fn facts(agent: &str, phase: &str, healthy: bool, dirty: bool) -> DevEnvFacts {
    DevEnvFacts {
        agent_id: agent.to_string(),
        current_phase: phase.to_string(),
        architecture_healthy: healthy,
        git_dirty: dirty,
    }
}

#[test]
fn test_next_suggestions() {
    let service = DevEnvService::new();
    let suggestions = service.get_next_suggestions(&facts("unregistered", "Idle", true, false));
    assert!(!suggestions.is_empty());
}

#[test]
fn suggestions_by_phase() {
    let service = DevEnvService::new();
    let s = service.get_next_suggestions(&facts("agent-1", "Coding", false, true));
    let priorities: Vec<u8> = s.iter().map(|x| x.priority).collect();
    assert_eq!(priorities, vec![1, 2, 10]);
    assert_eq!(s[0].command, "cell dev checkpoint");
    assert_eq!(s[2].command, "cell arch lint --fix");
    let s = service.get_next_suggestions(&facts("agent-1", "Idle", true, false));
    assert_eq!(s.len(), 2);
    assert_eq!(s[1].command, "cell arch status");
    let s = service.get_next_suggestions(&facts("agent-1", "Other", true, false));
    assert_eq!(s[0].command, "cell dev status");
}

#[test]
fn format_suggestions_numbers_steps() {
    let service = DevEnvService::new();
    let s = service.get_next_suggestions(&facts("unregistered", "Idle", true, false));
    let text = service.format_suggestions(&s);
    assert_eq!(
        text,
        "\n💡 下一步建议\n\n  1. 注册 Agent 身份 [优先级: 1]\n     命令: cell dev start\n     原因: 尚未注册 Agent 身份，需要先初始化开发环境\n\n"
    );
}

#[test]
fn snapshot_and_text() {
    let service = DevEnvService::new();
    let s = service.get_next_suggestions(&facts("a", "Verifying", false, false));
    let snap = service.context_snapshot("proj", "ok", vec![], vec!["t1".to_string()], vec![], false, &s, "now");
    assert_eq!(snap.known_issues, vec!["架构健康度不达标，需要修复".to_string()]);
    assert_eq!(snap.next_steps[0], "运行完整验证 - cell dev verify --deep");
    let text = service.format_context_snapshot(&snap);
    assert!(text.starts_with("# 项目上下文快照: proj\n\n> 生成时间: now\n\n"));
    assert!(text.contains("## 关键决策\n\n- 暂无记录\n\n## 当前任务\n\n- t1\n\n"));
    assert!(text.contains("## 已知问题\n\n- ⚠️  架构健康度不达标，需要修复\n\n"));
    assert!(text.ends_with("1. 运行完整验证 - cell dev verify --deep\n2. 修复架构问题 - cell arch lint --fix\n"));
}

#[test]
fn dev_env_service_test_get_status() {
    let service = DevEnvService::new();
    let status: DevEnvStatus = service.get_status(None, None, true, None, 0, 0, None, false);
    assert!(!status.agent_id.is_empty());
}

#[test]
fn status_defaults_and_facts() {
    let service = DevEnvService::new();
    let blank = service.get_status(None, None, false, None, 2, 1, None, true);
    assert_eq!(blank.agent_id, "unregistered");
    assert_eq!(blank.current_phase, "Idle");
    assert_eq!(blank.entropy_level, "Unknown");
    assert_eq!(blank.git_branch, "unknown");
    assert_eq!(blank.agent_role, "Developer");
    assert_eq!(blank.entropy_trend, "stable");
    assert_eq!((blank.pending_tasks, blank.pending_decisions), (2, 1));
    let known = service.get_status(
        Some("agent-7".to_string()),
        Some("Coding".to_string()),
        true,
        Some("Low".to_string()),
        0,
        0,
        Some("main".to_string()),
        false,
    );
    assert_eq!(known.agent_id, "agent-7");
    assert_eq!(known.git_branch, "main");
    let facts = service.facts_of(&known);
    assert_eq!(facts.current_phase, "Coding");
    assert!(facts.architecture_healthy && !facts.git_dirty);
}
