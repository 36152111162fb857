use cell_arch::phases::{build_project_phases, PhaseFacts, PhaseStatus};

#[test]
fn phases_from_facts() {
    let facts = PhaseFacts {
        decision_count: 3,
        file_count: 12,
        total_lines: 1500,
        has_progress: false,
        has_evolution: false,
        has_decisions_dir: false,
        has_progress_dir: false,
        has_evolution_dir: false,
        has_src: true,
        has_ci: false,
        has_readme: true,
        has_domain_dir: true,
        has_application_dir: true,
        has_adapters_dir: true,
        has_interfaces_dir: false,
        has_domain_tests: false,
        has_cargo_toml: false,
    };
    let phases = build_project_phases(facts);
    assert_eq!(phases.len(), 5);
    assert_eq!(phases[0].name, "Requirement Analysis");
    assert_eq!(phases[0].completed_tasks, 3);
    assert_eq!(phases[1].completed_tasks, 5);
    assert_eq!(phases[1].status, PhaseStatus::Completed);
    assert_eq!(phases[2].total_tasks, 8);
    assert_eq!(phases[2].completed_tasks, 3);
    assert_eq!(phases[4].completed_tasks, 1);
    assert_eq!(phases[4].status, PhaseStatus::InProgress);
}
