use cell_arch::auto_progress_service::{
    AutoProgressTracker, BuildStatus, ChangedFile, FileChangeType, GitState, ProgressStatus, TestStatus,
};

fn file(path: &str, change_type: FileChangeType) -> ChangedFile {
    ChangedFile { path: path.to_string(), change_type, lines_added: 3, lines_removed: 1 }
}

fn git(branch: &str, message: &str, files: Vec<ChangedFile>, uncommitted: bool) -> GitState {
    GitState {
        branch: branch.to_string(),
        commit_hash: "abcdef12".to_string(),
        commit_message: message.to_string(),
        author: "dev".to_string(),
        timestamp: "2024-01-01T00:00:00+00:00".to_string(),
        changed_files: files,
        uncommitted_changes: uncommitted,
    }
}

#[test]
fn porcelain_lines() {
    let f = AutoProgressTracker::parse_status_line("?? src/new.rs").unwrap();
    assert_eq!((f.path.as_str(), f.change_type), ("src/new.rs", FileChangeType::Added));
    let f = AutoProgressTracker::parse_status_line(" M src/lib.rs").unwrap();
    assert_eq!(f.change_type, FileChangeType::Modified);
    let f = AutoProgressTracker::parse_status_line("D  old.rs").unwrap();
    assert_eq!((f.path.as_str(), f.change_type), ("old.rs", FileChangeType::Deleted));
    assert!(AutoProgressTracker::parse_status_line("M").is_none());
}

#[test]
fn diff_and_hash() {
    assert!(AutoProgressTracker::uncommitted(" 1 file changed, 2 insertions(+)"));
    assert!(!AutoProgressTracker::uncommitted("   "));
    assert_eq!(AutoProgressTracker::short_commit_hash("0123456789abcdef"), "01234567");
    assert_eq!(AutoProgressTracker::short_commit_hash("abc"), "abc");
}

#[test]
fn steps_from_state() {
    let t = AutoProgressTracker::new();
    let g = git("feature/x", "feat: add", vec![file("src/a.rs", FileChangeType::Added)], false);
    let (status, steps) = t.infer_progress_state(&g, TestStatus::SomeFailing, BuildStatus::Passing);
    assert_eq!(status, ProgressStatus::Blocked);
    let descs: Vec<&str> = steps.iter().map(|s| s.description.as_str()).collect();
    assert_eq!(
        descs,
        vec!["提交当前更改", "修复失败的测试", "编译检查 - 通过", "合并分支到 main (当前: feature/x)", "添加新功能的测试"]
    );
    assert_eq!(AutoProgressTracker::count_steps(&steps), (1, 4));
    let (status, steps) = t.infer_progress_state(&git("main", "", Vec::new(), true), TestStatus::Unknown, BuildStatus::Unknown);
    assert_eq!(status, ProgressStatus::InProgress);
    assert!(steps.is_empty());
}

#[test]
fn task_names_from_commits() {
    let t = AutoProgressTracker::new();
    assert_eq!(t.infer_task_name(&git("main", "feat: add login", Vec::new(), false)), "add login");
    assert_eq!(t.infer_task_name(&git("main", "chore fix: typo", Vec::new(), false)), "typo");
    assert_eq!(t.infer_task_name(&git("main", "No commits", Vec::new(), false)), "初始开发");
    let long = "x".repeat(60);
    assert_eq!(t.infer_task_name(&git("main", &long, Vec::new(), false)).len(), 50);
}

#[test]
fn task_description_text() {
    let t = AutoProgressTracker::new();
    let g = git(
        "dev",
        "m",
        vec![file("README.md", FileChangeType::Modified), file("src/a.rs", FileChangeType::Modified)],
        true,
    );
    assert_eq!(t.infer_task_description(&g), "分支: dev, 作者: dev, 文件变更: 2 个, 有未提交更改\n最近修改: src/a.rs ");
    assert_eq!(AutoProgressTracker::count_lines_changed(&g.changed_files), 8);
}
