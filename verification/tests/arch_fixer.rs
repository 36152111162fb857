use cell_arch::arch_fixer::{extract_layer, replace_line, ArchitectureFixer, FixType, SuggestionSeverity};
use cell_arch::arch_linter::Layer;
use cell_arch::arch_service::{Severity, Violation};

fn violation(rule: &str, from: &str, to: &str) -> Violation {
    Violation {
        rule: rule.to_string(),
        from_module: from.to_string(),
        to_module: to.to_string(),
        file: "src/domain/user.rs".to_string(),
        line: 3,
        severity: Severity::Error,
        message: "m".to_string(),
    }
}

#[test]
fn layers_from_module_paths() {
    assert_eq!(extract_layer("crate::domain::user"), Some(Layer::Domain));
    assert_eq!(extract_layer("src/adapters/db"), Some(Layer::Adapters));
    assert_eq!(extract_layer("domainx::application"), Some(Layer::Application));
    assert_eq!(extract_layer("misc"), None);
    assert_eq!(extract_layer(""), None);
}

#[test]
fn fix_lines() {
    let fixer = ArchitectureFixer::new();
    let (line, desc, kind) = fixer.generate_fix_line("  use crate::application::X;", Layer::Application, Layer::Domain, "f.rs");
    assert_eq!(line, "// FIXME: 架构违规 - application 禁止依赖 domain: use crate::application::X;");
    assert_eq!(desc, "标记违规: application 层 → domain 层依赖");
    assert_eq!(kind, FixType::TodoMark);
    let (line, _, kind) = fixer.generate_fix_line("use x;", Layer::Domain, Layer::Adapters, "f.rs");
    assert_eq!(line, "// TODO: 需要移至正确层 - use x;");
    assert_eq!(kind, FixType::ImportComment);
    let (line, _, kind) = fixer.generate_fix_line("let a = b;", Layer::Domain, Layer::Adapters, "f.rs");
    assert_eq!(line, "let a = b;");
    assert_eq!(kind, FixType::CodeRefactor);
    assert_eq!(FixType::TodoMark.label(), "标记TODO");
    assert_eq!(SuggestionSeverity::High.label(), "🟠 高");
}

#[test]
fn plan_and_tally() {
    let fixer = ArchitectureFixer::new();
    let v = violation("layer_dependency", "crate::domain::user", "crate::adapters::db");
    let change = fixer.plan_change(&v, "/p/src/domain/user.rs", "use crate::adapters::db;").unwrap();
    assert_eq!(change.fix_type, FixType::ImportComment);
    assert!(!change.success);
    assert!(fixer.plan_change(&violation("circular_dependency", "a", "b"), "f", "x").is_none());
    let naming = fixer.plan_change(&violation("module_naming", "a", "B"), "f", " mod B; ").unwrap();
    assert_eq!(naming.new_content, "// FIXME: 命名违规 - mod B;");
    let mut done = change.clone();
    done.success = true;
    let vs = vec![
        violation("layer_dependency", "m1", "x"),
        violation("layer_dependency", "m1", "x"),
        violation("layer_dependency", "m1", "x"),
        violation("module_naming", "a", "b"),
    ];
    let result = fixer.fix("/p", &vs, vec![Ok(Some(done)), Ok(None), Err(cell_arch::errors::CellError::Io("x".into())), Ok(None)], false);
    assert_eq!((result.fixed, result.skipped, result.failed), (1, 2, 1));
    assert_eq!(result.changes.len(), 1);
    assert_eq!(result.suggestions.len(), 2);
    assert_eq!(result.suggestions[0].severity, SuggestionSeverity::High);
    assert_eq!(result.suggestions[0].title, "模块 'm1' 存在大量架构违规");
    assert_eq!(result.suggestions[1].title, "发现 1 个命名违规");
    let text = fixer.format_result(&result);
    assert!(text.contains("✅ 已修复: 1 个违规\n⏭️  跳过: 2 个（无法自动修复）\n❌ 失败: 1 个\n"));
    assert!(text.contains("  1. 🟠 高 - 模块 'm1' 存在大量架构违规\n"));
}

#[test]
fn suggestions_rank_modules_then_cycles_then_naming() {
    let fixer = ArchitectureFixer::new();
    let mut vs = Vec::new();
    for _ in 0..5 {
        vs.push(violation("layer_dependency", "crate::domain::a", "crate::adapters::x"));
    }
    for _ in 0..3 {
        vs.push(violation("layer_dependency", "crate::domain::b", "crate::adapters::x"));
    }
    vs.push(violation("layer_dependency", "crate::domain::c", "crate::adapters::x"));
    vs.push(violation("module_naming", "m", "m"));
    vs.push(violation("circular_dependency", "m", "m"));
    vs.push(violation("circular_dependency", "m", "m"));
    let attempts = vs.iter().map(|_| Ok(None)).collect();
    let r = fixer.fix("proj", &vs, attempts, true);
    let s = &r.suggestions;
    assert_eq!(s.len(), 4);
    assert_eq!(s[0].file, "crate::domain::a");
    assert_eq!(s[0].severity, SuggestionSeverity::Critical);
    assert_eq!(s[0].description, "该模块有 5 个跨层依赖违规，建议重构到正确的层级");
    assert_eq!(s[1].file, "crate::domain::b");
    assert_eq!(s[1].severity, SuggestionSeverity::High);
    assert_eq!(s[2].title, "检测到 2 个循环依赖");
    assert_eq!(s[3].title, "发现 1 个命名违规");
    assert_eq!(s[3].severity, SuggestionSeverity::Medium);
}

#[test]
fn replacing_a_line_rejoins_the_lines() {
    assert_eq!(replace_line("a\nb\nc", 2, "X"), Some("a\nX\nc".to_string()));
    assert_eq!(replace_line("a\nb\n", 1, "X"), Some("X\nb".to_string()));
    assert_eq!(replace_line("only", 1, ""), Some("".to_string()));
    assert_eq!(replace_line("a\nb", 0, "X"), None);
    assert_eq!(replace_line("a\nb", 3, "X"), None);
    assert_eq!(replace_line("", 1, "X"), None);
}

#[test]
fn every_attempt_is_counted_once() {
    let fixer = ArchitectureFixer::new();
    let v = violation("layer_dependency", "crate::domain::user", "crate::adapters::db");
    let mut made = fixer.plan_change(&v, "f", "use crate::adapters::db;").unwrap();
    made.success = true;
    let vs = vec![v.clone(), v.clone(), v.clone(), v];
    let attempts = vec![
        Ok(Some(made.clone())),
        Ok(Some(made)),
        Ok(None),
        Err(cell_arch::errors::CellError::Other("boom".into())),
    ];
    let r = fixer.fix("p", &vs, attempts.clone(), false);
    assert_eq!(r.changes.len() + r.skipped + r.failed, 4);
    assert_eq!(r.fixed, 2);
    let dry = fixer.fix("p", &vs, attempts, true);
    assert_eq!(dry.fixed, 0);
    assert_eq!(dry.changes.len() + dry.skipped + dry.failed, 4);
}

#[test]
fn dry_run_reports_planned_changes_as_made() {
    let fixer = ArchitectureFixer::new();
    let v = violation("layer_dependency", "crate::domain::user", "crate::adapters::db");
    let planned = fixer.plan_change(&v, "f", "use crate::adapters::db;").unwrap();
    assert!(!planned.success);
    let vs = vec![v.clone(), v];
    let r = fixer.fix("p", &vs, vec![Ok(Some(planned)), Ok(None)], true);
    assert_eq!(r.fixed, 0);
    assert_eq!(r.changes.len(), 1);
    assert!(r.changes[0].success);
    assert_eq!(r.changes.len() + r.skipped + r.failed, vs.len());
}
