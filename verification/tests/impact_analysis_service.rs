use cell_arch::impact_analysis_service::{
    ChangeType, ChangedFile, ImpactAnalysisService, ImpactLevel, ImpactRisk, ImpactedModule, SourceFile,
};

fn service() -> ImpactAnalysisService {
    ImpactAnalysisService::new("/tmp/project")
}

fn changed(path: &str, added: usize, deleted: usize) -> ChangedFile {
    service().changed_file(path.to_string(), ChangeType::Modified, added, deleted)
}

fn source(path: &str, content: &str) -> SourceFile {
    let src_path = path.trim_start_matches("src/").to_string();
    let file_name = path.rsplit('/').next().unwrap().to_string();
    SourceFile { path: path.to_string(), src_path, file_name, content: content.to_string() }
}

#[test]
fn module_names_follow_the_source_tree() {
    let s = service();
    assert_eq!(s.get_module_name("src/main.rs"), "root");
    assert_eq!(s.get_module_name("src/lib.rs"), "root");
    assert_eq!(s.get_module_name("src/config.rs"), "config");
    assert_eq!(s.get_module_name("src/application/arch_service.rs"), "application::arch_service");
    assert_eq!(s.get_module_name("src/domain/model/user.rs"), "domain::model");
    assert_eq!(s.get_module_name("src\\adapters\\web.rs"), "adapters::web");
}

#[test]
fn layers_of_paths_and_modules() {
    let s = service();
    assert_eq!(s.detect_layer("src/domain/user.rs"), "domain");
    assert_eq!(s.detect_layer("crates/x/application/a.rs"), "application");
    assert_eq!(s.detect_layer("adapters/db.rs"), "adapters");
    assert_eq!(s.detect_layer("src/interfaces/cli.rs"), "interfaces");
    assert_eq!(s.detect_layer("src/main.rs"), "other");
    assert_eq!(s.get_module_layer("Domain::user"), "domain");
    assert_eq!(s.get_module_layer("interfaces::cli"), "interfaces");
    assert_eq!(s.get_module_layer("root"), "other");
}

#[test]
fn name_status_lines() {
    let (k, p) = ImpactAnalysisService::parse_name_status_line("M\tsrc/lib.rs").unwrap();
    assert_eq!(k, ChangeType::Modified);
    assert_eq!(p, "src/lib.rs");
    let (k, p) = ImpactAnalysisService::parse_name_status_line("R100 src/old.rs src/new.rs").unwrap();
    assert_eq!(k, ChangeType::Renamed);
    assert_eq!(p, "src/new.rs");
    let (k, _) = ImpactAnalysisService::parse_name_status_line("A  src/a.rs").unwrap();
    assert_eq!(k, ChangeType::Added);
    let (k, _) = ImpactAnalysisService::parse_name_status_line("D src/a.rs").unwrap();
    assert_eq!(k, ChangeType::Deleted);
    let (k, _) = ImpactAnalysisService::parse_name_status_line("T src/a.rs").unwrap();
    assert_eq!(k, ChangeType::Modified);
    assert!(ImpactAnalysisService::parse_name_status_line("M README.md").is_none());
    assert!(ImpactAnalysisService::parse_name_status_line("   ").is_none());
    assert!(ImpactAnalysisService::parse_name_status_line("M").is_none());
}

#[test]
fn numstat_lines() {
    assert_eq!(ImpactAnalysisService::parse_line_stats("12\t3\tsrc/lib.rs\n"), (12, 3));
    assert_eq!(ImpactAnalysisService::parse_line_stats("-\t-\tlogo.png"), (0, 0));
    assert_eq!(ImpactAnalysisService::parse_line_stats("+7 x"), (7, 0));
    assert_eq!(ImpactAnalysisService::parse_line_stats(""), (0, 0));
    assert_eq!(ImpactAnalysisService::parse_line_stats("99999999999999999999999 1"), (0, 1));
}

#[test]
fn use_lines_name_their_module() {
    let dep = |l: &str| ImpactAnalysisService::use_dependency(&l.chars().collect::<Vec<char>>());
    assert_eq!(dep("use crate::domain::user::User;"), Some("domain::user".to_string()));
    assert_eq!(dep("  use crate::application::svc;"), Some("application::svc".to_string()));
    assert_eq!(dep("use crate::config;"), None);
    assert_eq!(dep("use std::fmt;"), None);
}

#[test]
fn impacts_of_a_domain_change() {
    let s = service();
    let changed = vec!["domain::user".to_string()];
    let edges = vec![
        ("domain::user".to_string(), "application::svc".to_string()),
        ("domain::other".to_string(), "application::x".to_string()),
        ("domain::user".to_string(), "application::svc".to_string()),
    ];
    let r = s.analyze_impact(&changed, &edges);
    assert_eq!(r.len(), 2);
    assert_eq!(r[0].name, "domain::user");
    assert_eq!(r[0].impact_reason, "直接修改");
    assert_eq!(r[1].name, "application::svc");
    assert_eq!(r[1].impact_level, ImpactLevel::High);
    assert_eq!(r[1].impact_reason, "依赖被修改的模块 domain::user");
}

#[test]
fn impacts_are_ordered_strongest_first() {
    let s = service();
    let changed = vec!["application::a".to_string(), "application::b".to_string()];
    let edges = vec![("application::a".to_string(), "interfaces::cli".to_string())];
    let r = s.analyze_impact(&changed, &edges);
    let names: Vec<&str> = r.iter().map(|m| m.name.as_str()).collect();
    assert_eq!(names, vec!["application::a", "application::b", "interfaces::cli"]);
    assert_eq!(r[2].impact_level, ImpactLevel::Medium);
}

#[test]
fn suggestions_per_level() {
    let s = service();
    let m = |name: &str, level: ImpactLevel| ImpactedModule {
        name: name.to_string(),
        layer: "other".to_string(),
        impact_reason: String::new(),
        impact_level: level,
        dependent_files: Vec::new(),
    };
    let r = s.suggest_tests(&vec![m("a", ImpactLevel::High), m("b", ImpactLevel::Medium), m("c", ImpactLevel::Low)]);
    assert_eq!(r, vec!["cargo test -p a -- --nocapture", "cargo test b::", "cargo test --lib"]);
}

#[test]
fn risk_levels() {
    let s = service();
    let small = vec![changed("src/application/a.rs", 10, 5)];
    assert_eq!(s.assess_risk(&small, &Vec::new(), false), ImpactRisk::Low);
    let big = vec![changed("src/domain/a.rs", 400, 200), changed("src/application/b.rs", 1, 1)];
    assert_eq!(s.assess_risk(&big, &Vec::new(), true), ImpactRisk::High);
    let mid = vec![changed("src/application/a.rs", 150, 100)];
    assert_eq!(s.assess_risk(&mid, &Vec::new(), true), ImpactRisk::Medium);
}

#[test]
fn full_analysis_and_report() {
    let s = service();
    let files = vec![changed("src/domain/user.rs", 30, 2), changed("src/application/svc.rs", 5, 1)];
    let sources = vec![
        source("src/application/svc.rs", "use crate::domain::user::User;\n#[test]\nfn t() {}\n"),
        source("src/domain/user.rs", "pub struct User;\n#[cfg(test)]\nmod tests {}\n"),
        source("src/interfaces/cli.rs", "use crate::application::svc::Svc;\n"),
    ];
    let a = s.analyze(files, Some(sources));
    assert_eq!(a.summary.total_changed_files, 2);
    assert_eq!(a.summary.total_lines_changed, 38);
    assert_eq!(a.summary.layers_affected, vec!["domain", "application"]);
    assert!(a.summary.cross_layer_changes);
    assert_eq!(a.impacted_modules.len(), 3);
    assert_eq!(a.impacted_tests, vec!["src/application/svc.rs", "src/domain/user.rs"]);
    assert_eq!(a.risk_level, ImpactRisk::Medium);
    let report = s.format_report(&a);
    assert!(report.contains("风险等级: 🟡 Medium"));
    assert!(report.contains(&format!("  │  变更文件数:  {:<36}│\n", 2)));
    assert!(report.contains("     • src/domain/user.rs\n"));
    assert!(report.contains("     $ cargo test --lib\n"));
}

#[test]
fn without_a_source_directory_nothing_is_impacted() {
    let s = service();
    let a = s.analyze(vec![changed("src/domain/user.rs", 1, 1)], None);
    assert!(a.impacted_modules.is_empty());
    assert!(a.impacted_tests.is_empty());
    assert_eq!(a.suggested_tests, vec!["cargo test --lib"]);
}
