use cell_arch::plugin_sandbox_service::PluginSandboxService;

#[test]
fn test_create_sandbox() {
    let mut service = PluginSandboxService::new();
    let result = service.create_sandbox("test-sandbox");
    assert!(result.is_ok());
    let info = result.unwrap();
    assert_eq!(info.id, "test-sandbox");
    assert_eq!(info.status, "Created");
}

#[test]
fn test_create_duplicate_sandbox() {
    let mut service = PluginSandboxService::new();
    service.create_sandbox("dup-sandbox").unwrap();
    let result = service.create_sandbox("dup-sandbox");
    assert!(result.is_err());
}

#[test]
fn test_list_sandboxes() {
    let mut service = PluginSandboxService::new();
    service.create_sandbox("list-test-1").unwrap();
    service.create_sandbox("list-test-2").unwrap();
    let result = service.list_sandboxes();
    assert!(result.is_ok());
    let sandboxes = result.unwrap();
    assert!(sandboxes.len() >= 2);
}

#[test]
fn test_get_sandbox_limits() {
    let mut service = PluginSandboxService::new();
    service.create_sandbox("limits-test").unwrap();
    let result = service.get_sandbox_limits("limits-test");
    assert!(result.is_ok());
    let limits = result.unwrap();
    assert_eq!(limits.memory_bytes, 128 * 1024 * 1024);
    assert_eq!(limits.execution_time_ms, 5000);
}

#[test]
fn test_exec_in_sandbox() {
    let mut service = PluginSandboxService::new();
    service.create_sandbox("exec-test").unwrap();
    let result = service.exec_in_sandbox("exec-test", "echo hello");
    assert!(result.is_ok());
    let exec_result = result.unwrap();
    assert!(exec_result.success);
    assert!(exec_result.output.is_some());
}

#[test]
fn test_exec_in_nonexistent_sandbox() {
    let mut service = PluginSandboxService::new();
    let result = service.exec_in_sandbox("nonexistent", "echo hello");
    assert!(result.is_err());
}

#[test]
fn exec_is_counted_and_destroy_removes() {
    let mut service = PluginSandboxService::new();
    let info = service.create_sandbox("s").unwrap();
    assert_eq!(info.plugin_id, "plugin-s");
    let r = service.exec_in_sandbox("s", "ls").unwrap();
    assert_eq!(r.output.as_deref(), Some("Command executed: ls"));
    let list = service.list_sandboxes().unwrap();
    assert_eq!(list[0].total_calls, 1);
    assert_eq!(list[0].status, "Running");
    assert_eq!(list[0].peak_memory_bytes, 1024 * 1024);
    service.destroy_sandbox("s").unwrap();
    assert!(service.list_sandboxes().unwrap().is_empty());
    assert!(service.destroy_sandbox("s").is_err());
    assert!(service.get_sandbox_limits("s").is_err());
}

#[test]
fn call_limit_reached() {
    let mut service = PluginSandboxService::new();
    service.create_sandbox("s").unwrap();
    for _ in 0..1000 {
        assert!(service.exec_in_sandbox("s", "x").unwrap().success);
    }
    let r = service.exec_in_sandbox("s", "x").unwrap();
    assert!(!r.success);
    assert_eq!(r.error.as_deref(), Some("Call limit exceeded: s"));
}

#[test]
fn create_then_destroy_restores_the_sandboxes() {
    let mut service = PluginSandboxService::new();
    service.create_sandbox("a").unwrap();
    let before: Vec<(String, String, u64)> =
        service.list_sandboxes().unwrap().into_iter().map(|s| (s.id, s.status, s.total_calls)).collect();
    service.create_sandbox("b").unwrap();
    service.destroy_sandbox("b").unwrap();
    let after: Vec<(String, String, u64)> =
        service.list_sandboxes().unwrap().into_iter().map(|s| (s.id, s.status, s.total_calls)).collect();
    assert_eq!(before, after);
}
