use cell_arch::entropy_service::{analyze_dependencies_fast, 
    check_cross_layer_dependency, count_test_metrics, detect_cycles, detect_cyclic_nodes, is_test_file,
};

#[test]
fn test_is_test_file_detection() {
    assert!(is_test_file("foo_test.rs", ""));
    assert!(is_test_file("bar.test.ts", ""));
    assert!(!is_test_file("lib.rs", ""));
    assert!(is_test_file("lib.rs", "#[cfg(test)]\nmod tests {}"));
}

#[test]
fn test_count_test_metrics() {
    let code = r#"
#[cfg(test)]
mod tests {
    #[test]
    fn test_one() {
        assert_eq!(1, 1);
    }
    #[test]
    fn test_two() {
        assert!(true);
    }
}
"#;
    let (tests, asserts, _) = count_test_metrics(code, true);
    assert_eq!(tests, 2);
    assert_eq!(asserts, 2);
}

#[test]
fn test_lines_without_module_in_test_file() {
    assert_eq!(count_test_metrics("a\nb\nc", true), (0, 0, 3));
    assert_eq!(count_test_metrics("a\nb\nc", false), (0, 0, 0));
}

#[test]
fn cycle_found_exactly_when_present() {
    let acyclic = vec![vec![false, true, false], vec![false, false, true], vec![false, false, false]];
    assert!(!detect_cyclic_nodes(&acyclic).iter().any(|b| *b));
    let cyclic = vec![vec![false, true, false], vec![false, false, true], vec![true, false, false]];
    let marks = detect_cyclic_nodes(&cyclic);
    assert!(marks.iter().any(|b| *b));
    let self_loop = vec![vec![true]];
    assert_eq!(detect_cyclic_nodes(&self_loop), vec![true]);
}

#[test]
fn cycles_by_path_containment() {
    let paths = vec!["a/b".to_string(), "a_b".to_string(), "a_b".to_string()];
    let marks = detect_cycles(&paths);
    assert!(marks.iter().any(|b| *b));
    let paths = vec!["x".to_string(), "y".to_string()];
    assert_eq!(detect_cycles(&paths), vec![false, false]);
}

#[test]
fn cross_layer_imports() {
    let imports = vec!["crate::adapters::db".to_string()];
    assert!(check_cross_layer_dependency("src/Domain/user.rs", &imports));
    assert!(!check_cross_layer_dependency("src/interfaces/cli.rs", &imports));
    assert!(!check_cross_layer_dependency("src/misc.rs", &imports));
}

#[test]
fn coupling_counts_users_imports_and_named_files() {
    let files = vec![
        ("src/domain/user.rs".to_string(), "pub struct User;".to_string()),
        ("src/application/service.rs".to_string(), "use crate::domain::user::User;\nfn f() {}".to_string()),
        ("src/adapters/repo.rs".to_string(), "use crate::application::service;\n".to_string()),
    ];
    let r = analyze_dependencies_fast("src/application/service.rs", &files[1].1, &files);
    assert_eq!(r, (1, 2, false));
}

#[test]
fn coupling_flags_an_outward_import() {
    let content = "use crate::adapters::db;\n".to_string();
    let files = vec![("src/domain/model.rs".to_string(), content.clone())];
    let r = analyze_dependencies_fast("src/domain/model.rs", &content, &files);
    assert_eq!(r, (0, 1, true));
}

#[test]
fn search_marks_the_path_to_the_back_edge() {
    let two_cycle = vec![vec![false, true], vec![true, false]];
    assert_eq!(detect_cyclic_nodes(&two_cycle), vec![true, true]);
    let chain = vec![vec![false, true], vec![false, false]];
    assert_eq!(detect_cyclic_nodes(&chain), vec![false, false]);
    // 0 -> 1 -> 2 -> 1: the search path 0, 1, 2 meets the edge back to 1.
    let tail_into_cycle = vec![vec![false, true, false], vec![false, false, true], vec![false, true, false]];
    assert_eq!(detect_cyclic_nodes(&tail_into_cycle), vec![true, true, true]);
}
