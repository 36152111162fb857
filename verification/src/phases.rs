//! Project phases: how many of each phase's tasks the project shows done.
use vstd::prelude::*;
use crate::text::owned;

verus! {

/// The state of a phase.
#[derive(Debug, Clone, Copy, PartialEq, Eq, Structural)]
pub enum PhaseStatus {
    NotStarted,
    InProgress,
    Completed,
}

/// A phase with its task counts.
#[derive(Debug, Clone)]
pub struct ProjectPhase {
    pub name: String,
    pub description: String,
    pub total_tasks: usize,
    pub completed_tasks: usize,
    pub status: PhaseStatus,
}

/// What a look at the project directory found.
#[derive(Debug, Clone, Copy)]
pub struct PhaseFacts {
    pub decision_count: usize,
    pub file_count: usize,
    pub total_lines: usize,
    pub has_progress: bool,
    pub has_evolution: bool,
    pub has_decisions_dir: bool,
    pub has_progress_dir: bool,
    pub has_evolution_dir: bool,
    pub has_src: bool,
    pub has_ci: bool,
    pub has_readme: bool,
    pub has_domain_dir: bool,
    pub has_application_dir: bool,
    pub has_adapters_dir: bool,
    pub has_interfaces_dir: bool,
    pub has_domain_tests: bool,
    pub has_cargo_toml: bool,
}

pub open spec fn b(x: bool) -> nat {
    if x { 1 } else { 0 }
}

pub open spec fn status_of(total: nat, done: nat) -> PhaseStatus {
    if done == 0 {
        PhaseStatus::NotStarted
    } else if done >= total {
        PhaseStatus::Completed
    } else {
        PhaseStatus::InProgress
    }
}

pub open spec fn has_decisions(f: PhaseFacts) -> bool {
    f.decision_count > 0 || f.has_decisions_dir
}

pub open spec fn has_tests(f: PhaseFacts) -> bool {
    f.file_count > 5
}

/// (total, done) of phase `i` of the five.
pub open spec fn phase_count(f: PhaseFacts, i: int) -> (nat, nat) {
    if i == 0 {
        (5, b(f.has_readme) + b(f.decision_count >= 2) + b(has_decisions(f)) + b(f.has_progress || f.has_progress_dir)
            + b(f.has_evolution || f.has_evolution_dir))
    } else if i == 1 {
        (5, b(has_decisions(f)) + b(f.file_count > 10) + b(f.has_domain_dir) + b(f.has_application_dir)
            + b(f.has_adapters_dir))
    } else if i == 2 {
        (8, b(f.has_src) + b(f.file_count > 15) + b(f.total_lines > 1000) + b(f.total_lines > 3000)
            + b(f.total_lines > 5000) + b(f.file_count > 30) + b(has_tests(f)) + b(f.has_interfaces_dir))
    } else if i == 3 {
        (4, b(has_tests(f)) + b(f.total_lines > 500) + b(f.file_count > 20) + b(f.has_domain_tests))
    } else {
        (4, b(f.has_ci) + b(f.has_cargo_toml) + b(f.has_readme) + b(f.total_lines > 8000))
    }
}

/// (name, description) of phase `i` of the five.
pub open spec fn phase_name(i: int) -> (Seq<char>, Seq<char>) {
    if i == 0 {
        ("Requirement Analysis"@, "需求收集、分析、技术选型决策"@)
    } else if i == 1 {
        ("Architecture Design"@, "架构分层、接口定义、核心抽象设计"@)
    } else if i == 2 {
        ("Development"@, "核心功能开发、单元测试、集成测试"@)
    } else if i == 3 {
        ("Testing & Verification"@, "单元测试、集成测试、架构验证、熵值门禁"@)
    } else {
        ("Release & Deploy"@, "CI/CD配置、文档完善、版本发布"@)
    }
}

pub open spec fn phase_ok(p: ProjectPhase, name: (Seq<char>, Seq<char>), c: (nat, nat)) -> bool {
    &&& p.name@ == name.0
    &&& p.description@ == name.1
    &&& p.total_tasks == c.0
    &&& p.completed_tasks == c.1
    &&& p.status == status_of(c.0, c.1)
}

fn n(x: bool) -> (r: usize)
    ensures
        r == b(x),
{
    if x { 1 } else { 0 }
}

fn phase(name: &str, description: &str, total: usize, done: usize) -> (r: ProjectPhase)
    ensures
        phase_ok(r, (name@, description@), (total as nat, done as nat)),
{
    let status = if done == 0 {
        PhaseStatus::NotStarted
    } else if done >= total {
        PhaseStatus::Completed
    } else {
        PhaseStatus::InProgress
    };
    ProjectPhase {
        name: owned(name),
        description: owned(description),
        total_tasks: total,
        completed_tasks: done,
        status,
    }
}

fn requirement_phase(f: PhaseFacts) -> (r: ProjectPhase)
    ensures
        phase_ok(r, phase_name(0), phase_count(f, 0)),
{
    let decisions = f.decision_count > 0 || f.has_decisions_dir;
    let done = n(f.has_readme) + n(f.decision_count >= 2) + n(decisions) + n(f.has_progress || f.has_progress_dir)
        + n(f.has_evolution || f.has_evolution_dir);
    phase("Requirement Analysis", "需求收集、分析、技术选型决策", 5, done)
}

fn architecture_phase(f: PhaseFacts) -> (r: ProjectPhase)
    ensures
        phase_ok(r, phase_name(1), phase_count(f, 1)),
{
    let decisions = f.decision_count > 0 || f.has_decisions_dir;
    let done = n(decisions) + n(f.file_count > 10) + n(f.has_domain_dir) + n(f.has_application_dir) + n(f.has_adapters_dir);
    phase("Architecture Design", "架构分层、接口定义、核心抽象设计", 5, done)
}

fn development_phase(f: PhaseFacts) -> (r: ProjectPhase)
    ensures
        phase_ok(r, phase_name(2), phase_count(f, 2)),
{
    let done = n(f.has_src) + n(f.file_count > 15) + n(f.total_lines > 1000) + n(f.total_lines > 3000)
        + n(f.total_lines > 5000) + n(f.file_count > 30) + n(f.file_count > 5) + n(f.has_interfaces_dir);
    phase("Development", "核心功能开发、单元测试、集成测试", 8, done)
}

fn test_phase(f: PhaseFacts) -> (r: ProjectPhase)
    ensures
        phase_ok(r, phase_name(3), phase_count(f, 3)),
{
    let done = n(f.file_count > 5) + n(f.total_lines > 500) + n(f.file_count > 20) + n(f.has_domain_tests);
    phase("Testing & Verification", "单元测试、集成测试、架构验证、熵值门禁", 4, done)
}

fn release_phase(f: PhaseFacts) -> (r: ProjectPhase)
    ensures
        phase_ok(r, phase_name(4), phase_count(f, 4)),
{
    let done = n(f.has_ci) + n(f.has_cargo_toml) + n(f.has_readme) + n(f.total_lines > 8000);
    phase("Release & Deploy", "CI/CD配置、文档完善、版本发布", 4, done)
}

/// The five phases of the project, with the tasks the facts show done.
pub fn build_project_phases(f: PhaseFacts) -> (r: Vec<ProjectPhase>)
    ensures
        r@.len() == 5,
        forall|i: int| 0 <= i < 5 ==> phase_ok(#[trigger] r@[i], phase_name(i), phase_count(f, i)),
{
    let mut r: Vec<ProjectPhase> = Vec::new();
    for i in 0..5
        invariant
            r@.len() == i,
            forall|k: int| 0 <= k < i ==> phase_ok(#[trigger] r@[k], phase_name(k), phase_count(f, k)),
    {
        if i == 0 {
            r.push(requirement_phase(f));
        } else if i == 1 {
            r.push(architecture_phase(f));
        } else if i == 2 {
            r.push(development_phase(f));
        } else if i == 3 {
            r.push(test_phase(f));
        } else {
            r.push(release_phase(f));
        }
    }
    r
}

} // verus!
