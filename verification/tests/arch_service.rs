use cell_arch::arch_service::{path_to_module, record_module, validate_architecture, ArchitectureRules, ModuleDeps};

fn project(domain: &str) -> Vec<ModuleDeps> {
    let files = [
        ("domain/mod.rs", domain),
        ("application/mod.rs", "\nuse crate::domain::Entity;\npub struct Service;\n"),
        ("adapters/mod.rs", "\nuse crate::application::Service;\npub struct Adapter;\n"),
        ("interfaces/cli.rs", "\nuse crate::application::Service;\npub fn run() { Service::do_work(); }\n"),
        ("lib.rs", "\npub mod domain;\npub mod application;\npub mod adapters;\npub mod interfaces;\n"),
    ];
    let mut modules = Vec::new();
    for (rel, content) in files {
        record_module(&mut modules, rel, &format!("/p/src/{}", rel), content);
    }
    modules
}

const DOMAIN_OK: &str = "\npub struct Entity;\nimpl Entity {\n    pub fn new() -> Self { Entity }\n}\n";

#[test]
fn test_valid_architecture_passes() {
    let rules = ArchitectureRules::default();
    let result = validate_architecture(&project(DOMAIN_OK), &rules);
    assert!(result.passed, "Expected valid arch to pass: {:?}", result.violations);
}

#[test]
fn test_domain_depends_on_application_fails() {
    let rules = ArchitectureRules::default();
    let domain = "\nuse crate::application::Service;\npub struct Entity;\n";
    let result = validate_architecture(&project(domain), &rules);
    assert!(!result.passed);
    assert!(result.violations.iter().any(|v| v.from_module.contains("domain")));
}

#[test]
fn test_layer_stats_collected() {
    let rules = ArchitectureRules::default();
    let result = validate_architecture(&project(DOMAIN_OK), &rules);
    assert!(result.stats_of("domain").is_some());
    assert!(result.stats_of("application").is_some());
    assert_eq!(result.stats_of("domain").unwrap().file_count, 1);
}

#[test]
fn module_paths() {
    assert_eq!(path_to_module("domain/mod.rs"), "domain");
    assert_eq!(path_to_module("application/ports/store.rs"), "application::ports::store");
    assert_eq!(path_to_module("mod.rs"), "lib");
    assert_eq!(path_to_module("lib.rs"), "lib");
}

#[test]
fn violation_message_and_stats() {
    let rules = ArchitectureRules::default();
    let domain = "use crate::application::Service;\n";
    let result = validate_architecture(&project(domain), &rules);
    assert_eq!(result.violations.len(), 1);
    let v = &result.violations[0];
    assert_eq!(v.message, "domain → application: 领域层不能依赖应用层");
    assert_eq!(v.to_module, "crate::application::Service");
    assert_eq!(v.line, 1);
    let d = result.stats_of("domain").unwrap();
    assert_eq!((d.external_deps, d.violations), (1, 1));
    let a = result.stats_of("application").unwrap();
    assert_eq!(a.external_deps, 1);
}
