use cell_arch::dependency_analyzer::{DependencyAnalyzer, ModuleSource};

fn source(src_path: &str, content: &str) -> ModuleSource {
    ModuleSource {
        rel_path: format!("src/{}", src_path),
        src_path: src_path.to_string(),
        content: Some(content.to_string()),
    }
}

fn analyzer() -> DependencyAnalyzer {
    DependencyAnalyzer::new("/tmp/project")
}

#[test]
fn module_names_by_depth() {
    let a = analyzer();
    assert_eq!(a.get_module_name("lib.rs"), "root");
    assert_eq!(a.get_module_name("domain/user.rs"), "domain");
    assert_eq!(a.get_module_name("application/ports/store.rs"), "application::ports");
    assert_eq!(a.get_module_name("adapters\\web\\mod.rs"), "adapters::web");
}

#[test]
fn layers_from_names() {
    let a = analyzer();
    assert_eq!(a.detect_layer_from_name("crate::domain::x"), "domain");
    assert_eq!(a.detect_layer_from_name("Application::svc"), "application");
    assert_eq!(a.detect_layer_from_name("config"), "");
}

#[test]
fn dependencies_with_line_numbers() {
    let a = analyzer();
    let deps = a.extract_dependencies("use crate::domain::user::User;\n\nuse crate::config;\nuse std::fmt;\n");
    assert_eq!(deps, vec![("domain::user".to_string(), 1), ("config".to_string(), 3)]);
}

#[test]
fn missing_source_directory_is_refused() {
    let a = analyzer();
    assert!(a.analyze(None).is_err());
}

#[test]
fn graph_of_a_small_project() {
    let a = analyzer();
    let files = vec![
        source("domain/model/user.rs", "pub struct User;\n"),
        source("application/svc/mod.rs", "use crate::domain::model::User;\nuse crate::interfaces::cli::Cli;\n"),
        source("interfaces/cli/mod.rs", "use crate::application::svc::Svc;\n"),
    ];
    let g = a.analyze(Some(files)).unwrap();
    assert_eq!(g.total_modules, 3);
    assert_eq!(g.total_dependencies, 3);
    let svc = g.modules.iter().find(|m| m.name == "application::svc").unwrap();
    assert_eq!(svc.depends_on, vec!["domain::model", "interfaces::cli"]);
    assert_eq!(svc.dependents, vec!["interfaces::cli"]);
    assert_eq!((svc.outgoing_deps, svc.incoming_deps), (2, 1));
    assert!(g.has_circular_deps);
    assert_eq!(g.circular_deps.len(), 1);
    let mut cycle = g.circular_deps[0].clone();
    cycle.sort();
    assert_eq!(cycle, vec!["application::svc", "interfaces::cli"]);
    assert_eq!(g.layer_violations.len(), 1);
    assert_eq!(g.layer_violations[0].description, "application层 (application::svc) 依赖了 interfaces层 (interfaces::cli), 违反依赖方向");
}

#[test]
fn acyclic_graph_reports_no_cycle() {
    let a = analyzer();
    let files = vec![
        source("domain/model/user.rs", "pub struct User;\n"),
        source("application/svc/mod.rs", "use crate::domain::model::User;\nuse crate::application::svc::Helper;\n"),
    ];
    let g = a.analyze(Some(files)).unwrap();
    assert!(!g.has_circular_deps);
    assert!(g.circular_deps.is_empty());
    assert!(g.layer_violations.is_empty());
}

#[test]
fn summary_and_mermaid() {
    let a = analyzer();
    let files = vec![
        source("domain/model/a.rs", "x\ny\n"),
        source("domain/model/b.rs", "z\n"),
        source("application/svc/mod.rs", "use crate::domain::model::A;\n"),
    ];
    let g = a.analyze(Some(files)).unwrap();
    let s = a.format_summary(&g);
    assert!(s.contains("| 模块数 | 2 |\n"));
    assert!(s.contains("- **domain**: 1 个模块\n"));
    assert!(s.contains("| domain::model | domain | 1 | 0 | 3 |\n"));
    let m = a.generate_mermaid(&g);
    assert!(m.starts_with("```mermaid\ngraph TD\n\n  subgraph 领域层\n    domain::model[\"domain::model\"]\n  end\n\n"));
    assert!(m.contains("  application::svc -.-> domain::model\n"));
    assert!(m.ends_with("```\n"));
}
