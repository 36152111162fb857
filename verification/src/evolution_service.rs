//! Self-evolution cycles: issues reported while working, improvements
//! proposed and applied, and a summary over finished cycles.
use vstd::prelude::*;
use crate::text::{owned, push_str, push_decimal, decimal, str_eq};
use crate::errors::{CellError, CellResult};
use crate::clock::{now_rfc3339, new_uuid};
use crate::decision_service::saved_outcome;

verus! {

broadcast use vstd::seq_lib::group_to_multiset_ensures;

/// The phase of an evolution cycle.
#[derive(Debug, Clone, Copy, PartialEq, Eq, Structural)]
pub enum EvolutionPhase {
    CollectingIssues,
    Improving,
    Completed,
}

/// What an issue is about.
#[derive(Debug, Clone, Copy, PartialEq, Eq, Structural)]
pub enum IssueCategory {
    ProcessEfficiency,
    ToolIntelligence,
    QualityGate,
    HandoffCompleteness,
    CodeGeneration,
    Documentation,
    Performance,
    Testing,
    Other,
}

#[derive(Debug, Clone, Copy, PartialEq, Eq, Structural)]
pub enum IssueSeverity {
    Low,
    Medium,
    High,
    Critical,
}

#[derive(Debug, Clone, Copy, PartialEq, Eq, Structural)]
pub enum IssueStatus {
    Open,
    FixApplied,
}

/// What an improvement changes.
#[derive(Debug, Clone, Copy, PartialEq, Eq, Structural)]
pub enum ImprovementCategory {
    ProcessOptimization,
    NewFeature,
    ConstraintAdjustment,
    TemplateImprovement,
    DocumentationUpdate,
    Automation,
    Refactoring,
}

#[derive(Debug, Clone, Copy, PartialEq, Eq, Structural)]
pub enum ImpactLevel {
    Low,
    Medium,
    High,
}

#[derive(Debug, Clone, Copy, PartialEq, Eq, Structural)]
pub enum EffortEstimate {
    Minutes,
    Hours,
    Days,
}

#[derive(Debug, Clone, Copy, PartialEq, Eq, Structural)]
pub enum ImprovementStatus {
    Proposed,
    Applied,
    Verified,
}

/// An issue reported during a cycle.
#[derive(Debug, Clone)]
pub struct Issue {
    pub id: String,
    pub title: String,
    pub description: String,
    pub category: IssueCategory,
    pub severity: IssueSeverity,
    pub status: IssueStatus,
    pub reported_at: String,
}

/// An improvement proposed or applied during a cycle.
#[derive(Debug, Clone)]
pub struct Improvement {
    pub id: String,
    pub title: String,
    pub description: String,
    pub category: ImprovementCategory,
    pub related_issue_ids: Vec<String>,
    pub expected_impact: ImpactLevel,
    pub implementation_effort: EffortEstimate,
    pub status: ImprovementStatus,
    pub proposed_at: String,
    pub applied_at: Option<String>,
    pub applied_by: Option<String>,
    pub acceptance_criteria: Vec<String>,
}

/// One evolution cycle.
#[derive(Debug, Clone)]
pub struct EvolutionLog {
    pub cycle_number: u32,
    pub phase: EvolutionPhase,
    pub started_at: String,
    pub completed_at: Option<String>,
    pub issues: Vec<Issue>,
    pub improvements: Vec<Improvement>,
}

/// Totals over the finished cycles.
#[derive(Debug, Clone)]
pub struct EvolutionSummary {
    pub cycles_completed: u32,
    pub current_cycle_active: bool,
    pub total_issues_reported: u32,
    pub total_improvements_applied: u32,
    pub total_improvements_proposed: u32,
    pub top_categories: Vec<(IssueCategory, usize)>,
}

/// Where cycles are kept; implemented by the users of the service.
/// Each request is answered as the store decides; the spec functions name
/// the answers it may give, and nothing more is assumed of them. A store
/// that does not describe its answers may give any (the default `true`).
pub trait EvolutionStorePort {
    /// `r` is an answer the store may give to loading the active cycle.
    closed spec fn loads_current(&self, project_path: Seq<char>, r: CellResult<Option<EvolutionLog>>) -> bool {
        true
    }

    /// `r` is an answer the store may give to saving `log` as the active cycle.
    closed spec fn saves_current(&self, project_path: Seq<char>, log: EvolutionLog, r: CellResult<()>) -> bool {
        true
    }

    /// `r` is an answer the store may give to listing the archived cycles.
    closed spec fn lists_history(&self, project_path: Seq<char>, r: CellResult<Vec<EvolutionLog>>) -> bool {
        true
    }

    /// `r` is an answer the store may give to archiving `log`.
    closed spec fn archives(&self, project_path: Seq<char>, log: EvolutionLog, r: CellResult<()>) -> bool {
        true
    }

    /// `r` is an answer the store may give when asked for the next cycle number.
    closed spec fn gives_next_number(&self, project_path: Seq<char>, r: CellResult<u32>) -> bool {
        true
    }

    fn load_current_cycle(&self, project_path: &str) -> (r: CellResult<Option<EvolutionLog>>)
        ensures
            self.loads_current(project_path@, r),
    ;

    fn save_current_cycle(&self, project_path: &str, log: &EvolutionLog) -> (r: CellResult<()>)
        ensures
            self.saves_current(project_path@, *log, r),
    ;

    fn list_history(&self, project_path: &str) -> (r: CellResult<Vec<EvolutionLog>>)
        ensures
            self.lists_history(project_path@, r),
    ;

    fn archive_cycle(&self, project_path: &str, log: &EvolutionLog) -> (r: CellResult<()>)
        ensures
            self.archives(project_path@, *log, r),
    ;

    fn get_next_cycle_number(&self, project_path: &str) -> (r: CellResult<u32>)
        ensures
            self.gives_next_number(project_path@, r),
    ;
}

/// The message when no cycle is active.
pub open spec fn no_cycle_message() -> Seq<char> {
    "No active evolution cycle. Start one with 'evolve cycle start' first."@
}

/// How the answer to loading the active cycle decides: the cycle, the
/// refusal when there is none, or the store's error.
pub open spec fn cycle_outcome(a: CellResult<Option<EvolutionLog>>, r: CellResult<EvolutionLog>) -> bool {
    match a {
        Ok(Some(l)) => r == Ok::<EvolutionLog, CellError>(l),
        Ok(None) => r matches Err(CellError::Config(m)) && m@ == no_cycle_message(),
        Err(e) => r == Err::<EvolutionLog, CellError>(e),
    }
}

/// A new cycle numbered `n`: collecting issues, empty, not completed.
pub open spec fn started_log(l: EvolutionLog, n: u32) -> bool {
    &&& l.cycle_number == n
    &&& l.phase == EvolutionPhase::CollectingIssues
    &&& l.issues@.len() == 0
    &&& l.improvements@.len() == 0
    &&& l.completed_at is None
}

/// A cycle just started is active: when the store gives it back, another
/// start is refused (`start_cycle` then answers with the active-cycle
/// message for its number, and saves nothing).
pub proof fn law_started_cycle_blocks_another(l: EvolutionLog, n: u32)
    requires
        started_log(l, n),
    ensures
        !may_start(Some(l)),
        l.cycle_number == n,
{
}

/// What `start_cycle` answers when the store gives `a` as the current cycle:
/// its error; a refusal while that cycle is active; otherwise the error of
/// numbering the next cycle, or the outcome of saving it freshly started.
pub open spec fn start_answer<T: EvolutionStorePort>(store: T, project_path: Seq<char>,
    a: CellResult<Option<EvolutionLog>>, r: CellResult<EvolutionLog>) -> bool {
    match a {
        Err(e) => r == Err::<EvolutionLog, CellError>(e),
        Ok(current) => if may_start(current) {
            exists|b: CellResult<u32>| #[trigger] store.gives_next_number(project_path, b)
                && match b {
                    Err(e) => r == Err::<EvolutionLog, CellError>(e),
                    Ok(n) => exists|l: EvolutionLog, s: CellResult<()>|
                        #[trigger] store.saves_current(project_path, l, s) && started_log(l, n)
                        && saved_outcome(s, l, r),
                }
        } else {
            r matches Err(CellError::Config(m)) && m@ == active_cycle_message(current->Some_0.cycle_number)
        },
    }
}

/// The store round trip of a start: when the store gives back the cycle a
/// start saved, starting again is refused with that cycle's number.
pub proof fn law_start_after_start<T: EvolutionStorePort>(store: T, project_path: Seq<char>, l: EvolutionLog, n: u32,
    r: CellResult<EvolutionLog>)
    requires
        started_log(l, n),
        start_answer(store, project_path, Ok(Some(l)), r),
    ensures
        r matches Err(CellError::Config(m)) && m@ == active_cycle_message(n),
{
}

/// `l` is `l0` with a new open issue at its end.
pub open spec fn issue_added(l0: EvolutionLog, l: EvolutionLog, title: Seq<char>, description: Seq<char>,
    category: IssueCategory, severity: IssueSeverity) -> bool {
    &&& l.cycle_number == l0.cycle_number
    &&& l.phase == l0.phase
    &&& l.improvements@ == l0.improvements@
    &&& l.issues@.len() == l0.issues@.len() + 1
    &&& l.issues@.drop_last() == l0.issues@
    &&& l.issues@.last().title@ == title
    &&& l.issues@.last().description@ == description
    &&& l.issues@.last().category == category
    &&& l.issues@.last().severity == severity
    &&& l.issues@.last().status == IssueStatus::Open
}

/// `l` is `l0` with a new proposed improvement at its end.
pub open spec fn improvement_added(l0: EvolutionLog, l: EvolutionLog, title: Seq<char>, category: ImprovementCategory,
    impact: ImpactLevel, effort: EffortEstimate) -> bool {
    &&& l.cycle_number == l0.cycle_number
    &&& l.phase == l0.phase
    &&& l.issues@ == l0.issues@
    &&& l.improvements@.len() == l0.improvements@.len() + 1
    &&& l.improvements@.drop_last() == l0.improvements@
    &&& l.improvements@.last().title@ == title
    &&& l.improvements@.last().category == category
    &&& l.improvements@.last().expected_impact == impact
    &&& l.improvements@.last().implementation_effort == effort
    &&& l.improvements@.last().status == ImprovementStatus::Proposed
    &&& l.improvements@.last().applied_by is None
}

/// `l` is `l0` completed.
pub open spec fn finished_log(l0: EvolutionLog, l: EvolutionLog) -> bool {
    &&& l.phase == EvolutionPhase::Completed
    &&& l.completed_at is Some
    &&& l.cycle_number == l0.cycle_number
    &&& l.issues@ == l0.issues@
    &&& l.improvements@ == l0.improvements@
}

/// The message refusing a second active cycle.
pub open spec fn active_cycle_message(n: u32) -> Seq<char> {
    "There is already an active evolution cycle #"@ + decimal(n as nat) + ". Complete it first."@
}

/// A new cycle may start: none is active.
pub open spec fn may_start(current: Option<EvolutionLog>) -> bool {
    match current {
        Some(c) => c.phase == EvolutionPhase::Completed,
        None => true,
    }
}

/// Starts cycle `next_num` unless `current` is still active.
pub fn begin_cycle(current: &Option<EvolutionLog>, next_num: u32) -> (r: CellResult<EvolutionLog>)
    ensures
        may_start(*current) ==> r is Ok && r->Ok_0.cycle_number == next_num && r->Ok_0.phase
            == EvolutionPhase::CollectingIssues && r->Ok_0.issues@.len() == 0 && r->Ok_0.improvements@.len() == 0
            && r->Ok_0.completed_at is None,
        !may_start(*current) ==> (r matches Err(CellError::Config(m)) && m@ == active_cycle_message(
            current->Some_0.cycle_number,
        )),
{
    match current {
        Some(c) => {
            if c.phase != EvolutionPhase::Completed {
                let mut m = owned("There is already an active evolution cycle #");
                push_decimal(&mut m, c.cycle_number as usize);
                push_str(&mut m, ". Complete it first.");
                return Err(CellError::Config(m));
            }
        },
        None => {},
    }
    Ok(EvolutionLog {
        cycle_number: next_num,
        phase: EvolutionPhase::CollectingIssues,
        started_at: now_rfc3339(),
        completed_at: None,
        issues: Vec::new(),
        improvements: Vec::new(),
    })
}

/// `log` with a new open issue at its end.
pub fn add_issue(log: &mut EvolutionLog, title: &str, description: &str, category: IssueCategory, severity: IssueSeverity)
    ensures
        final(log).cycle_number == old(log).cycle_number,
        final(log).phase == old(log).phase,
        final(log).improvements@ == old(log).improvements@,
        final(log).issues@.len() == old(log).issues@.len() + 1,
        final(log).issues@.drop_last() == old(log).issues@,
        final(log).issues@.last().title@ == title@,
        final(log).issues@.last().description@ == description@,
        final(log).issues@.last().category == category,
        final(log).issues@.last().severity == severity,
        final(log).issues@.last().status == IssueStatus::Open,
{
    log.issues.push(Issue {
        id: new_uuid(),
        title: owned(title),
        description: owned(description),
        category,
        severity,
        status: IssueStatus::Open,
        reported_at: now_rfc3339(),
    });
    assert(log.issues@.drop_last() =~= old(log).issues@);
}

/// `log` with a new proposed improvement at its end.
pub fn add_improvement(
    log: &mut EvolutionLog,
    title: &str,
    description: &str,
    category: ImprovementCategory,
    impact: ImpactLevel,
    effort: EffortEstimate,
)
    ensures
        final(log).cycle_number == old(log).cycle_number,
        final(log).phase == old(log).phase,
        final(log).issues@ == old(log).issues@,
        final(log).improvements@.len() == old(log).improvements@.len() + 1,
        final(log).improvements@.drop_last() == old(log).improvements@,
        final(log).improvements@.last().title@ == title@,
        final(log).improvements@.last().category == category,
        final(log).improvements@.last().expected_impact == impact,
        final(log).improvements@.last().implementation_effort == effort,
        final(log).improvements@.last().status == ImprovementStatus::Proposed,
        final(log).improvements@.last().applied_by is None,
{
    log.improvements.push(Improvement {
        id: new_uuid(),
        title: owned(title),
        description: owned(description),
        category,
        related_issue_ids: Vec::new(),
        expected_impact: impact,
        implementation_effort: effort,
        status: ImprovementStatus::Proposed,
        proposed_at: now_rfc3339(),
        applied_at: None,
        applied_by: None,
        acceptance_criteria: Vec::new(),
    });
    assert(log.improvements@.drop_last() =~= old(log).improvements@);
}

/// Which improvement categories address which issue categories.
pub open spec fn addresses(i: ImprovementCategory, c: IssueCategory) -> bool {
    ||| i == ImprovementCategory::ProcessOptimization && c == IssueCategory::ProcessEfficiency
    ||| i == ImprovementCategory::NewFeature && c == IssueCategory::ToolIntelligence
    ||| i == ImprovementCategory::ConstraintAdjustment && c == IssueCategory::QualityGate
    ||| i == ImprovementCategory::NewFeature && c == IssueCategory::HandoffCompleteness
    ||| i == ImprovementCategory::TemplateImprovement && c == IssueCategory::CodeGeneration
    ||| i == ImprovementCategory::DocumentationUpdate && c == IssueCategory::Documentation
    ||| i == ImprovementCategory::Automation && c == IssueCategory::ToolIntelligence
    ||| i == ImprovementCategory::Refactoring && c == IssueCategory::Performance
    ||| i == ImprovementCategory::ProcessOptimization && c == IssueCategory::Testing
}

/// Whether improvements of category `i` address issues of category `c`.
pub fn category_matches_issue(i: ImprovementCategory, c: IssueCategory) -> (r: bool)
    ensures
        r == addresses(i, c),
{
    match (i, c) {
        (ImprovementCategory::ProcessOptimization, IssueCategory::ProcessEfficiency)
        | (ImprovementCategory::NewFeature, IssueCategory::ToolIntelligence)
        | (ImprovementCategory::ConstraintAdjustment, IssueCategory::QualityGate)
        | (ImprovementCategory::NewFeature, IssueCategory::HandoffCompleteness)
        | (ImprovementCategory::TemplateImprovement, IssueCategory::CodeGeneration)
        | (ImprovementCategory::DocumentationUpdate, IssueCategory::Documentation)
        | (ImprovementCategory::Automation, IssueCategory::ToolIntelligence)
        | (ImprovementCategory::Refactoring, IssueCategory::Performance)
        | (ImprovementCategory::ProcessOptimization, IssueCategory::Testing) => true,
        _ => false,
    }
}

/// The improvement category proposed for issues of a category.
pub open spec fn remedy(c: IssueCategory) -> ImprovementCategory {
    match c {
        IssueCategory::ProcessEfficiency => ImprovementCategory::ProcessOptimization,
        IssueCategory::ToolIntelligence => ImprovementCategory::Automation,
        IssueCategory::QualityGate => ImprovementCategory::ConstraintAdjustment,
        IssueCategory::HandoffCompleteness => ImprovementCategory::NewFeature,
        IssueCategory::CodeGeneration => ImprovementCategory::TemplateImprovement,
        IssueCategory::Documentation => ImprovementCategory::DocumentationUpdate,
        IssueCategory::Performance => ImprovementCategory::Refactoring,
        IssueCategory::Testing => ImprovementCategory::ProcessOptimization,
        IssueCategory::Other => ImprovementCategory::ProcessOptimization,
    }
}

fn remedy_exec(c: IssueCategory) -> (r: ImprovementCategory)
    ensures
        r == remedy(c),
{
    match c {
        IssueCategory::ProcessEfficiency => ImprovementCategory::ProcessOptimization,
        IssueCategory::ToolIntelligence => ImprovementCategory::Automation,
        IssueCategory::QualityGate => ImprovementCategory::ConstraintAdjustment,
        IssueCategory::HandoffCompleteness => ImprovementCategory::NewFeature,
        IssueCategory::CodeGeneration => ImprovementCategory::TemplateImprovement,
        IssueCategory::Documentation => ImprovementCategory::DocumentationUpdate,
        IssueCategory::Performance => ImprovementCategory::Refactoring,
        IssueCategory::Testing => ImprovementCategory::ProcessOptimization,
        IssueCategory::Other => ImprovementCategory::ProcessOptimization,
    }
}

/// The issue categories in the order suggestions are made.
pub open spec fn category_order() -> Seq<IssueCategory> {
    seq![
        IssueCategory::ProcessEfficiency,
        IssueCategory::ToolIntelligence,
        IssueCategory::QualityGate,
        IssueCategory::HandoffCompleteness,
        IssueCategory::CodeGeneration,
        IssueCategory::Documentation,
        IssueCategory::Performance,
        IssueCategory::Testing,
        IssueCategory::Other,
    ]
}

fn category_list() -> (r: Vec<IssueCategory>)
    ensures
        r@ == category_order(),
{
    let r = vec![
        IssueCategory::ProcessEfficiency,
        IssueCategory::ToolIntelligence,
        IssueCategory::QualityGate,
        IssueCategory::HandoffCompleteness,
        IssueCategory::CodeGeneration,
        IssueCategory::Documentation,
        IssueCategory::Performance,
        IssueCategory::Testing,
        IssueCategory::Other,
    ];
    assert(r@ =~= category_order());
    r
}

pub open spec fn category_name(c: IssueCategory) -> Seq<char> {
    match c {
        IssueCategory::ProcessEfficiency => "ProcessEfficiency"@,
        IssueCategory::ToolIntelligence => "ToolIntelligence"@,
        IssueCategory::QualityGate => "QualityGate"@,
        IssueCategory::HandoffCompleteness => "HandoffCompleteness"@,
        IssueCategory::CodeGeneration => "CodeGeneration"@,
        IssueCategory::Documentation => "Documentation"@,
        IssueCategory::Performance => "Performance"@,
        IssueCategory::Testing => "Testing"@,
        IssueCategory::Other => "Other"@,
    }
}

fn category_str(c: IssueCategory) -> (r: &'static str)
    ensures
        r@ == category_name(c),
{
    match c {
        IssueCategory::ProcessEfficiency => "ProcessEfficiency",
        IssueCategory::ToolIntelligence => "ToolIntelligence",
        IssueCategory::QualityGate => "QualityGate",
        IssueCategory::HandoffCompleteness => "HandoffCompleteness",
        IssueCategory::CodeGeneration => "CodeGeneration",
        IssueCategory::Documentation => "Documentation",
        IssueCategory::Performance => "Performance",
        IssueCategory::Testing => "Testing",
        IssueCategory::Other => "Other",
    }
}

/// Number of issues of category `c`.
pub open spec fn issues_in(issues: Seq<Issue>, c: IssueCategory) -> nat
    decreases issues.len(),
{
    if issues.len() == 0 {
        0
    } else {
        issues_in(issues.drop_last(), c) + if issues.last().category == c { 1nat } else { 0nat }
    }
}

/// The categories, in order, that some issue falls under.
pub open spec fn reported_categories(issues: Seq<Issue>, ks: Seq<IssueCategory>) -> Seq<IssueCategory>
    decreases ks.len(),
{
    if ks.len() == 0 {
        Seq::empty()
    } else {
        let rest = reported_categories(issues, ks.drop_last());
        if issues_in(issues, ks.last()) > 0 { rest.push(ks.last()) } else { rest }
    }
}

/// The identifiers of the issues that improvements of category `i` address.
pub open spec fn addressed_ids(issues: Seq<Issue>, i: ImprovementCategory) -> Seq<Seq<char>>
    decreases issues.len(),
{
    if issues.len() == 0 {
        Seq::empty()
    } else {
        let rest = addressed_ids(issues.drop_last(), i);
        if addresses(i, issues.last().category) { rest.push(issues.last().id@) } else { rest }
    }
}

fn count_issues(issues: &Vec<Issue>, c: IssueCategory) -> (r: usize)
    ensures
        r as nat == issues_in(issues@, c),
{
    let mut n: usize = 0;
    for i in 0..issues.len()
        invariant
            n as nat == issues_in(issues@.take(i as int), c),
            n <= i,
    {
        assert(issues@.take(i + 1).drop_last() =~= issues@.take(i as int));
        if issues[i].category == c {
            n = n + 1;
        }
    }
    assert(issues@.take(issues@.len() as int) =~= issues@);
    n
}

fn related_ids(issues: &Vec<Issue>, i: ImprovementCategory) -> (r: Vec<String>)
    ensures
        r@.map_values(|s: String| s@) == addressed_ids(issues@, i),
{
    let mut r: Vec<String> = Vec::new();
    for k in 0..issues.len()
        invariant
            r@.map_values(|s: String| s@) == addressed_ids(issues@.take(k as int), i),
    {
        assert(issues@.take(k + 1).drop_last() =~= issues@.take(k as int));
        if category_matches_issue(i, issues[k].category) {
            let ghost before = r@;
            let id = owned(issues[k].id.as_str());
            r.push(id);
            assert(r@.map_values(|s: String| s@) =~= before.map_values(|s: String| s@).push(issues@[k as int].id@));
        }
    }
    assert(issues@.take(issues@.len() as int) =~= issues@);
    r
}

/// One proposed improvement per issue category that has issues, in the
/// order of the categories, each linked to the issues it addresses.
/// `r` are the improvements the issues call for: one per reported
/// category, in category order, proposed and tied to the issues it addresses.
pub open spec fn suggested(issues: Seq<Issue>, r: Seq<Improvement>) -> bool {
    &&& r.len() == reported_categories(issues, category_order()).len()
    &&& forall|k: int| 0 <= k < r.len() ==> {
        let c = reported_categories(issues, category_order())[k];
        &&& (#[trigger] r[k]).category == remedy(c)
        &&& r[k].status == ImprovementStatus::Proposed
        &&& r[k].related_issue_ids@.map_values(|s: String| s@) == addressed_ids(issues, remedy(c))
        &&& r[k].title@ == "Address "@ + category_name(c) + " issues"@
        &&& r[k].description@ == "Reported issues in this category: "@ + decimal(issues_in(issues, c))
        &&& r[k].expected_impact == ImpactLevel::Medium
        &&& r[k].implementation_effort == EffortEstimate::Hours
        &&& r[k].applied_at is None
        &&& r[k].applied_by is None
        &&& r[k].acceptance_criteria@.len() == 0
    }
}

pub fn generate_suggestions_for(issues: &Vec<Issue>) -> (r: Vec<Improvement>)
    ensures
        suggested(issues@, r@),
        r@.len() == reported_categories(issues@, category_order()).len(),
{
    let ks = category_list();
    let mut r: Vec<Improvement> = Vec::new();
    for j in 0..ks.len()
        invariant
            ks@ == category_order(),
            r@.len() == reported_categories(issues@, ks@.take(j as int)).len(),
            forall|k: int| 0 <= k < r@.len() ==> {
                let c = reported_categories(issues@, ks@.take(j as int))[k];
                &&& (#[trigger] r@[k]).category == remedy(c)
                &&& r@[k].status == ImprovementStatus::Proposed
                &&& r@[k].related_issue_ids@.map_values(|s: String| s@) == addressed_ids(issues@, remedy(c))
                &&& r@[k].title@ == "Address "@ + category_name(c) + " issues"@
                &&& r@[k].description@ == "Reported issues in this category: "@ + decimal(issues_in(issues@, c))
                &&& r@[k].expected_impact == ImpactLevel::Medium
                &&& r@[k].implementation_effort == EffortEstimate::Hours
                &&& r@[k].applied_at is None
                &&& r@[k].applied_by is None
                &&& r@[k].acceptance_criteria@.len() == 0
            },
    {
        assert(ks@.take(j + 1).drop_last() =~= ks@.take(j as int));
        let c = ks[j];
        let n = count_issues(issues, c);
        if n > 0 {
            let cat = remedy_exec(c);
            let mut title = owned("Address ");
            push_str(&mut title, category_str(c));
            push_str(&mut title, " issues");
            let mut desc = owned("Reported issues in this category: ");
            push_decimal(&mut desc, n);
            r.push(Improvement {
                id: new_uuid(),
                title,
                description: desc,
                category: cat,
                related_issue_ids: related_ids(issues, cat),
                expected_impact: ImpactLevel::Medium,
                implementation_effort: EffortEstimate::Hours,
                status: ImprovementStatus::Proposed,
                proposed_at: now_rfc3339(),
                applied_at: None,
                applied_by: None,
                acceptance_criteria: Vec::new(),
            });
        }
    }
    assert(ks@.take(ks@.len() as int) =~= ks@);
    r
}


/// What `uuid::Uuid::parse_str` makes of `s`: the hyphenated lowercase form
/// of the identifier, or the text of the error.
pub uninterp spec fn uuid_parsed(s: Seq<char>) -> Result<Seq<char>, Seq<char>>;

/// `uuid::Uuid::parse_str`, rendered by `Display` on either side: the
/// result is the named parse of `s`; what it accepts is not stated.
#[verifier::external_body]
fn parse_uuid(s: &str) -> (r: Result<String, String>)
    ensures
        match r {
            Ok(t) => uuid_parsed(s@) == Ok::<Seq<char>, Seq<char>>(t@),
            Err(e) => uuid_parsed(s@) == Err::<Seq<char>, Seq<char>>(e@),
        },
{
    match uuid::Uuid::parse_str(s) {
        Ok(u) => Ok(u.to_string()),
        Err(e) => Err(e.to_string()),
    }
}

/// Position of the first improvement with identifier `id`, if any.
pub open spec fn improvement_at(ims: Seq<Improvement>, id: Seq<char>) -> Option<int> {
    if exists|i: int| 0 <= i < ims.len() && ims[i].id@ == id {
        Some(choose|i: int| 0 <= i < ims.len() && ims[i].id@ == id && forall|j: int| 0 <= j < i ==> ims[j].id@ != id)
    } else {
        None
    }
}

/// The identifiers of the issues.
pub open spec fn issue_ids(issues: Seq<Issue>) -> Seq<Seq<char>> {
    issues.map_values(|i: Issue| i.id@)
}

/// Index of the first of the first `n` identifiers equal to `id`, or -1.
pub open spec fn first_issue(ids: Seq<Seq<char>>, id: Seq<char>, n: int) -> int
    decreases n,
{
    if n <= 0 {
        -1
    } else {
        let k = first_issue(ids, id, n - 1);
        if k >= 0 { k } else if ids[n - 1] == id { n - 1 } else { -1 }
    }
}

proof fn lemma_first_issue(ids: Seq<Seq<char>>, id: Seq<char>, n: int)
    requires
        0 <= n <= ids.len(),
    ensures
        -1 <= first_issue(ids, id, n) < n,
        first_issue(ids, id, n) >= 0 ==> ids[first_issue(ids, id, n)] == id,
        first_issue(ids, id, n) < 0 ==> forall|j: int| 0 <= j < n ==> ids[j] != id,
    decreases n,
{
    if n > 0 {
        lemma_first_issue(ids, id, n - 1);
    }
}

proof fn lemma_first_prefix(ids: Seq<Seq<char>>, id: Seq<char>, m: int, n: int)
    requires
        0 <= m <= n <= ids.len(),
        first_issue(ids, id, m) >= 0,
    ensures
        first_issue(ids, id, n) == first_issue(ids, id, m),
    decreases n - m,
{
    if n > m {
        lemma_first_prefix(ids, id, m, n - 1);
    }
}

/// Issue `j` is the first with an identifier the improvement lists.
pub open spec fn fixed_by(ids: Seq<Seq<char>>, related: Seq<Seq<char>>, j: int) -> bool {
    related.contains(ids[j]) && first_issue(ids, ids[j], ids.len() as int) == j
}

fn find_first_issue(issues: &Vec<Issue>, id: &str) -> (r: Option<usize>)
    ensures
        match r {
            Some(k) => k as int == first_issue(issue_ids(issues@), id@, issues@.len() as int) && k < issues@.len(),
            None => first_issue(issue_ids(issues@), id@, issues@.len() as int) == -1,
        },
{
    let n = issues.len();
    let ghost ids = issue_ids(issues@);
    for k in 0..n
        invariant
            n == issues@.len(),
            ids == issue_ids(issues@),
            first_issue(ids, id@, k as int) == -1,
    {
        assert(ids[k as int] == issues@[k as int].id@);
        if str_eq(issues[k].id.as_str(), id) {
            proof {
                assert(first_issue(ids, id@, k + 1) == k);
                lemma_first_prefix(ids, id@, k as int + 1, n as int);
            }
            return Some(k);
        }
    }
    None
}

/// `out` is `log` with improvement `i` applied by `applied_by` and the
/// issues it addresses fixed.
pub open spec fn applied(log: EvolutionLog, out: EvolutionLog, i: int, applied_by: Option<&str>) -> bool {
    let related = log.improvements@[i].related_issue_ids@.map_values(|s: String| s@);
    let ids = issue_ids(log.issues@);
    &&& out.cycle_number == log.cycle_number
    &&& out.phase == log.phase
    &&& out.improvements@.len() == log.improvements@.len()
    &&& forall|k: int| 0 <= k < log.improvements@.len() && k != i ==> #[trigger] out.improvements@[k] == log.improvements@[k]
    &&& out.improvements@[i].status == ImprovementStatus::Applied
    &&& out.improvements@[i].applied_at is Some
    &&& match applied_by {
        Some(a) => (out.improvements@[i].applied_by matches Some(b) && b@ == a@),
        None => out.improvements@[i].applied_by is None,
    }
    &&& out.improvements@[i].id == log.improvements@[i].id
    &&& out.improvements@[i].title == log.improvements@[i].title
    &&& out.improvements@[i].category == log.improvements@[i].category
    &&& out.improvements@[i].related_issue_ids == log.improvements@[i].related_issue_ids
    &&& issue_ids(out.issues@) == ids
    &&& forall|j: int| 0 <= j < log.issues@.len() ==> {
        &&& (#[trigger] out.issues@[j]).title == log.issues@[j].title
        &&& out.issues@[j].category == log.issues@[j].category
        &&& out.issues@[j].status == if fixed_by(ids, related, j) { IssueStatus::FixApplied } else { log.issues@[j].status }
    }
}

/// Marks the improvement `improvement_id` applied by `applied_by`, and the
/// issues it addresses as fixed.
pub fn apply_improvement_to(log: EvolutionLog, improvement_id: &str, applied_by: Option<&str>) -> (r: CellResult<EvolutionLog>)
    ensures
        uuid_parsed(improvement_id@) matches Err(e) ==> (r matches Err(CellError::Config(m))
            && m@ == "Invalid improvement UUID: "@ + e),
        uuid_parsed(improvement_id@) matches Ok(id) ==> match improvement_at(log.improvements@, id) {
            None => (r matches Err(CellError::Config(m)) && m@ == "Improvement with id "@ + improvement_id@ + " not found"@),
            Some(i) => r is Ok && applied(log, r->Ok_0, i, applied_by),
        },
{
    let canonical = match parse_uuid(improvement_id) {
        Ok(t) => t,
        Err(e) => {
            let mut m = owned("Invalid improvement UUID: ");
            push_str(&mut m, e.as_str());
            return Err(CellError::Config(m));
        },
    };
    let mut log = log;
    let ghost ims = log.improvements@;
    let n = log.improvements.len();
    let mut idx: usize = 0;
    while idx < n
        invariant
            n == ims.len(),
            ims == log.improvements@,
            idx <= n,
            forall|j: int| 0 <= j < idx ==> ims[j].id@ != canonical@,
        ensures
            idx <= n,
            forall|j: int| 0 <= j < idx ==> ims[j].id@ != canonical@,
            idx < n ==> ims[idx as int].id@ == canonical@,
        decreases n - idx,
    {
        if str_eq(log.improvements[idx].id.as_str(), canonical.as_str()) {
            break;
        }
        idx = idx + 1;
    }
    if idx == n {
        let mut m = owned("Improvement with id ");
        push_str(&mut m, improvement_id);
        push_str(&mut m, " not found");
        return Err(CellError::Config(m));
    }
    let ghost log0 = log;
    proof {
        let c = improvement_at(ims, canonical@);
        assert(0 <= idx < ims.len() && ims[idx as int].id@ == canonical@);
        let ch = choose|i: int| 0 <= i < ims.len() && ims[i].id@ == canonical@ && forall|j: int| 0 <= j < i ==> ims[j].id@ != canonical@;
        assert(ims[idx as int].id@ == canonical@ && forall|j: int| 0 <= j < idx ==> ims[j].id@ != canonical@);
        assert(ch == idx as int) by {
            if ch < idx as int {} else if ch > idx as int { assert(ims[idx as int].id@ != canonical@); }
        }
    }
    let mut imp = log.improvements.remove(idx);
    imp.status = ImprovementStatus::Applied;
    imp.applied_at = Some(now_rfc3339());
    imp.applied_by = match applied_by {
        Some(a) => Some(owned(a)),
        None => None,
    };
    let ghost related = imp.related_issue_ids@.map_values(|s: String| s@);
    let mut related_ids: Vec<String> = Vec::new();
    for k in 0..imp.related_issue_ids.len()
        invariant
            related == imp.related_issue_ids@.map_values(|s: String| s@),
            related_ids@.len() == k,
            forall|q: int| 0 <= q < k ==> (#[trigger] related_ids@[q])@ == related[q],
    {
        related_ids.push(owned(imp.related_issue_ids[k].as_str()));
    }
    log.improvements.insert(idx, imp);
    let ghost ids = issue_ids(log0.issues@);
    let mut issues: Vec<Issue> = Vec::new();
    std::mem::swap(&mut issues, &mut log.issues);
    assert(issues@ == log0.issues@);
    log.issues = mark_fixed(issues, &related_ids);
    proof {
        assert(related_ids@.map_values(|x: String| x@) =~= related);
    }
    Ok(log)
}

proof fn lemma_contains_push(t0: Seq<Seq<char>>, x: Seq<char>, y: Seq<char>)
    ensures
        t0.push(x).contains(y) <==> (t0.contains(y) || y == x),
{
    let t1 = t0.push(x);
    if t1.contains(y) && y != x {
        let q = choose|q: int| 0 <= q < t1.len() && t1[q] == y;
        assert(t0[q] == y);
    }
    if t0.contains(y) {
        let q = choose|q: int| 0 <= q < t0.len() && t0[q] == y;
        assert(t1[q] == y);
    }
    if y == x {
        assert(t1[t0.len() as int] == y);
    }
}

/// The issues, those first with an identifier in `related` marked fixed.
fn mark_fixed(issues: Vec<Issue>, related: &Vec<String>) -> (r: Vec<Issue>)
    ensures
        issue_ids(r@) == issue_ids(issues@),
        forall|j: int| 0 <= j < issues@.len() ==> {
            &&& (#[trigger] r@[j]).title == issues@[j].title
            &&& r@[j].category == issues@[j].category
            &&& r@[j].status == if fixed_by(issue_ids(issues@), related@.map_values(|x: String| x@), j) {
                IssueStatus::FixApplied
            } else {
                issues@[j].status
            }
        },
{
    let ghost ids = issue_ids(issues@);
    let ghost rel = related@.map_values(|x: String| x@);
    let ghost orig = issues@;
    let mut out = issues;
    let m = related.len();
    for k in 0..m
        invariant
            m == related@.len(),
            rel == related@.map_values(|x: String| x@),
            ids == issue_ids(orig),
            issue_ids(out@) == ids,
            out@.len() == orig.len(),
            forall|j: int| 0 <= j < orig.len() ==> {
                &&& (#[trigger] out@[j]).title == orig[j].title
                &&& out@[j].category == orig[j].category
                &&& out@[j].status == if fixed_by(ids, rel.take(k as int), j) { IssueStatus::FixApplied } else { orig[j].status }
            },
    {
        let ghost before = out@;
        let ghost t0 = rel.take(k as int);
        let ghost x = rel[k as int];
        assert(rel.take(k + 1) =~= t0.push(x));
        assert(related@[k as int]@ == x);
        let found = find_first_issue(&out, related[k].as_str());
        proof {
            lemma_first_issue(ids, x, ids.len() as int);
        }
        match found {
            Some(p) => {
                let mut is = out.remove(p);
                is.status = IssueStatus::FixApplied;
                out.insert(p, is);
                proof {
                    assert(out@ =~= before.update(p as int, is));
                    assert(issue_ids(out@) =~= ids);
                    assert forall|j: int| 0 <= j < orig.len() implies {
                        &&& (#[trigger] out@[j]).title == orig[j].title
                        &&& out@[j].category == orig[j].category
                        &&& out@[j].status == if fixed_by(ids, rel.take(k + 1), j) { IssueStatus::FixApplied } else { orig[j].status }
                    } by {
                        lemma_contains_push(t0, x, ids[j]);
                        assert(ids[j] == orig[j].id@);
                    }
                }
            },
            None => {
                proof {
                    assert forall|j: int| 0 <= j < orig.len() implies {
                        &&& (#[trigger] out@[j]).title == orig[j].title
                        &&& out@[j].category == orig[j].category
                        &&& out@[j].status == if fixed_by(ids, rel.take(k + 1), j) { IssueStatus::FixApplied } else { orig[j].status }
                    } by {
                        lemma_contains_push(t0, x, ids[j]);
                    }
                }
            },
        }
    }
    assert(rel.take(m as int) =~= rel);
    out
}



/// `log` marked completed.
pub fn finish_cycle(log: &mut EvolutionLog)
    ensures
        final(log).phase == EvolutionPhase::Completed,
        final(log).completed_at is Some,
        final(log).cycle_number == old(log).cycle_number,
        final(log).issues@ == old(log).issues@,
        final(log).improvements@ == old(log).improvements@,
{
    log.phase = EvolutionPhase::Completed;
    log.completed_at = Some(now_rfc3339());
}

/// Issues reported over the first `n` cycles.
pub open spec fn total_issues(h: Seq<EvolutionLog>, n: int) -> int
    decreases n,
{
    if n <= 0 { 0 } else { total_issues(h, n - 1) + h[n - 1].issues@.len() }
}

/// Improvements proposed over the first `n` cycles.
pub open spec fn total_improvements(h: Seq<EvolutionLog>, n: int) -> int
    decreases n,
{
    if n <= 0 { 0 } else { total_improvements(h, n - 1) + h[n - 1].improvements@.len() }
}

/// Improvements applied or verified among `ims`.
pub open spec fn applied_count(ims: Seq<Improvement>) -> nat
    decreases ims.len(),
{
    if ims.len() == 0 {
        0
    } else {
        applied_count(ims.drop_last()) + if ims.last().status == ImprovementStatus::Applied
            || ims.last().status == ImprovementStatus::Verified { 1nat } else { 0nat }
    }
}

/// Improvements applied or verified over the first `n` cycles.
pub open spec fn total_applied(h: Seq<EvolutionLog>, n: int) -> int
    decreases n,
{
    if n <= 0 { 0 } else { total_applied(h, n - 1) + applied_count(h[n - 1].improvements@) }
}

/// Issues of category `c` over the first `n` cycles.
pub open spec fn category_total(h: Seq<EvolutionLog>, c: IssueCategory, n: int) -> int
    decreases n,
{
    if n <= 0 { 0 } else { category_total(h, c, n - 1) + issues_in(h[n - 1].issues@, c) }
}

/// Each category with issues over the history and its count, in category order.
pub open spec fn category_totals(h: Seq<EvolutionLog>, ks: Seq<IssueCategory>) -> Seq<(IssueCategory, int)>
    decreases ks.len(),
{
    if ks.len() == 0 {
        Seq::empty()
    } else {
        let rest = category_totals(h, ks.drop_last());
        let c = category_total(h, ks.last(), h.len() as int);
        if c > 0 { rest.push((ks.last(), c)) } else { rest }
    }
}

proof fn lemma_applied_le(ims: Seq<Improvement>)
    ensures
        applied_count(ims) <= ims.len(),
    decreases ims.len(),
{
    if ims.len() > 0 {
        lemma_applied_le(ims.drop_last());
    }
}

proof fn lemma_totals_mono(h: Seq<EvolutionLog>, c: IssueCategory, m: int, n: int)
    requires
        0 <= m <= n <= h.len(),
    ensures
        0 <= total_issues(h, m) <= total_issues(h, n),
        0 <= total_improvements(h, m) <= total_improvements(h, n),
        0 <= total_applied(h, m) <= total_applied(h, n),
        0 <= category_total(h, c, m) <= category_total(h, c, n),
        category_total(h, c, n) <= total_issues(h, n),
        total_applied(h, n) <= total_improvements(h, n),
    decreases n,
{
    if n > 0 {
        if m < n {
            lemma_totals_mono(h, c, m, n - 1);
        } else {
            lemma_totals_mono(h, c, n - 1, n - 1);
        }
        lemma_issues_in_le(h[n - 1].issues@, c);
        lemma_applied_le(h[n - 1].improvements@);
    }
}

proof fn lemma_issues_in_le(issues: Seq<Issue>, c: IssueCategory)
    ensures
        issues_in(issues, c) <= issues.len(),
    decreases issues.len(),
{
    if issues.len() > 0 {
        lemma_issues_in_le(issues.drop_last(), c);
    }
}

fn count_applied(ims: &Vec<Improvement>) -> (r: usize)
    ensures
        r as nat == applied_count(ims@),
{
    let mut n: usize = 0;
    for i in 0..ims.len()
        invariant
            n as nat == applied_count(ims@.take(i as int)),
            n <= i,
    {
        assert(ims@.take(i + 1).drop_last() =~= ims@.take(i as int));
        if ims[i].status == ImprovementStatus::Applied || ims[i].status == ImprovementStatus::Verified {
            n = n + 1;
        }
    }
    assert(ims@.take(ims@.len() as int) =~= ims@);
    n
}

/// `sm` holds the totals over the archived cycles `h`, and whether a cycle
/// is active.
pub open spec fn summary_of(h: Seq<EvolutionLog>, active: bool, sm: EvolutionSummary) -> bool {
    &&& sm.cycles_completed == h.len() as u32
    &&& sm.current_cycle_active == active
    &&& sm.total_issues_reported == total_issues(h, h.len() as int) as u32
    &&& sm.total_improvements_proposed == total_improvements(h, h.len() as int) as u32
    &&& sm.total_improvements_applied == total_applied(h, h.len() as int) as u32
    &&& sm.top_categories@.map_values(|p: (IssueCategory, usize)| (p.0, p.1 as int)) == category_totals(h, category_order())
}

/// The issues of the findings `fs` not yet reported were added to `l0`.
pub open spec fn findings_merged(l0: EvolutionLog, l: EvolutionLog,
    fs: Seq<(Seq<char>, Seq<char>, IssueCategory, IssueSeverity)>) -> bool {
    &&& l.cycle_number == l0.cycle_number
    &&& l.phase == l0.phase
    &&& l.improvements@ == l0.improvements@
    &&& l.issues@.take(l0.issues@.len() as int) == l0.issues@
    &&& l.issues@.skip(l0.issues@.len() as int).map_values(|i: Issue| i.title@) == new_titles(l0.issues@, fs)
}

/// The totals over `history`; counts are kept in `u32`, as reported.
pub fn summarize(history: &Vec<EvolutionLog>, current_active: bool) -> (r: EvolutionSummary)
    requires
        total_issues(history@, history@.len() as int) <= usize::MAX,
        total_improvements(history@, history@.len() as int) <= usize::MAX,
    ensures
        r.cycles_completed == history@.len() as u32,
        r.current_cycle_active == current_active,
        r.total_issues_reported == total_issues(history@, history@.len() as int) as u32,
        r.total_improvements_proposed == total_improvements(history@, history@.len() as int) as u32,
        r.total_improvements_applied == total_applied(history@, history@.len() as int) as u32,
        r.top_categories@.map_values(|p: (IssueCategory, usize)| (p.0, p.1 as int)) == category_totals(history@, category_order()),
{
    let h = history;
    let n = h.len();
    let mut issues: usize = 0;
    let mut ims: usize = 0;
    let mut applied: usize = 0;
    for i in 0..n
        invariant
            n == h@.len(),
            total_issues(h@, n as int) <= usize::MAX,
            total_improvements(h@, n as int) <= usize::MAX,
            issues as int == total_issues(h@, i as int),
            ims as int == total_improvements(h@, i as int),
            applied as int == total_applied(h@, i as int),
    {
        proof {
            lemma_totals_mono(h@, IssueCategory::Other, i + 1, n as int);
        }
        issues = issues + h[i].issues.len();
        ims = ims + h[i].improvements.len();
        applied = applied + count_applied(&h[i].improvements);
    }
    let ks = category_list();
    let mut top: Vec<(IssueCategory, usize)> = Vec::new();
    for j in 0..ks.len()
        invariant
            n == h@.len(),
            ks@ == category_order(),
            total_issues(h@, n as int) <= usize::MAX,
            top@.map_values(|p: (IssueCategory, usize)| (p.0, p.1 as int)) == category_totals(h@, ks@.take(j as int)),
    {
        assert(ks@.take(j + 1).drop_last() =~= ks@.take(j as int));
        let c = ks[j];
        let mut total: usize = 0;
        for i in 0..n
            invariant
                n == h@.len(),
                total_issues(h@, n as int) <= usize::MAX,
                total as int == category_total(h@, c, i as int),
        {
            proof {
                lemma_totals_mono(h@, c, i + 1, n as int);
            }
            total = total + count_issues(&h[i].issues, c);
        }
        if total > 0 {
            let ghost before = top@;
            top.push((c, total));
            assert(top@.map_values(|p: (IssueCategory, usize)| (p.0, p.1 as int)) =~= before.map_values(
                |p: (IssueCategory, usize)| (p.0, p.1 as int)).push((c, total as int)));
        }
    }
    assert(ks@.take(ks@.len() as int) =~= ks@);
    EvolutionSummary {
        cycles_completed: n as u32,
        current_cycle_active: current_active,
        total_issues_reported: issues as u32,
        total_improvements_applied: applied as u32,
        total_improvements_proposed: ims as u32,
        top_categories: top,
    }
}

/// What a scan of a project directory found.
#[derive(Debug, Clone, Copy)]
pub struct ProjectFacts {
    pub has_progress: bool,
    pub has_decisions: bool,
    pub has_handoffs: bool,
    pub has_evolution: bool,
    pub has_tests: bool,
    pub has_ci: bool,
    pub has_readme: bool,
    pub file_count: usize,
    pub total_lines: usize,
}

/// A diagnosed issue: title, description, category, severity.
pub type Finding = (String, String, IssueCategory, IssueSeverity);

pub open spec fn finding_view(f: Finding) -> (Seq<char>, Seq<char>, IssueCategory, IssueSeverity) {
    (f.0@, f.1@, f.2, f.3)
}

pub open spec fn when(b: bool, x: (Seq<char>, Seq<char>, IssueCategory, IssueSeverity)) -> Seq<(Seq<char>, Seq<char>, IssueCategory, IssueSeverity)> {
    if b { seq![x] } else { Seq::empty() }
}

/// The `k`-th check of the diagnosis: the issue it finds, if any.
pub open spec fn check(f: ProjectFacts, k: int) -> Seq<(Seq<char>, Seq<char>, IssueCategory, IssueSeverity)> {
    if k == 0 {
        when(!f.has_progress, ("缺少进度追踪工具"@, "没有启用进度追踪，智能体间协作时容易丢失上下文。建议使用 'cell tools enable' 启用。"@, IssueCategory::ProcessEfficiency, IssueSeverity::High))
    } else if k == 1 {
        when(!f.has_decisions, ("缺少决策记录"@, "没有架构决策记录（ADR），后续智能体无法理解技术选型背景。建议启用决策记录。"@, IssueCategory::Documentation, IssueSeverity::High))
    } else if k == 2 {
        when(!f.has_handoffs, ("缺少零漂移交接工具"@, "没有交接包机制，智能体切换时信息丢失严重。建议启用 handoff 工具。"@, IssueCategory::HandoffCompleteness, IssueSeverity::Critical))
    } else if k == 3 {
        when(!f.has_evolution, ("缺少自进化系统"@, "没有启用自进化机制，问题无法被系统地记录和改进。建议启用 evolve 工具。"@, IssueCategory::ToolIntelligence, IssueSeverity::Medium))
    } else if k == 4 {
        when(f.file_count > 10 && !f.has_tests, ("测试覆盖率不足"@, "项目有 "@ + decimal(f.file_count as nat) + " 个文件但缺少测试，容易引入回归bug。建议添加单元测试和架构测试。"@, IssueCategory::Testing, IssueSeverity::High))
    } else if k == 5 {
        when(f.total_lines > 2000, ("熵值计算可能存在性能问题"@, "项目规模较大（"@ + decimal(f.total_lines as nat) + " 行），需要确保熵值计算性能优化。建议使用缓存和增量计算。"@, IssueCategory::Performance, IssueSeverity::Medium))
    } else if k == 6 {
        when(f.file_count > 20, ("构建速度可能成为瓶颈"@, "项目文件数达到 "@ + decimal(f.file_count as nat) + "，建议配置增量编译和快速验证机制提升开发效率。"@, IssueCategory::ProcessEfficiency, IssueSeverity::Medium))
    } else if k == 7 {
        when(f.file_count > 15 && !f.has_ci, ("缺少CI/CD流水线"@, "项目达到一定规模但缺少持续集成，无法自动验证代码质量。建议添加 GitHub Actions 配置。"@, IssueCategory::QualityGate, IssueSeverity::Medium))
    } else {
        when(!f.has_readme, ("缺少项目文档"@, "没有 README 文档，新智能体需要从零开始理解项目。建议添加项目说明文档。"@, IssueCategory::Documentation, IssueSeverity::High))
    }
}

/// The findings of the first `n` checks, in order.
pub open spec fn checks_upto(f: ProjectFacts, n: nat) -> Seq<(Seq<char>, Seq<char>, IssueCategory, IssueSeverity)>
    decreases n,
{
    if n == 0 { Seq::empty() } else { checks_upto(f, (n - 1) as nat) + check(f, n - 1) }
}

/// The issues a project with the given facts shows: the nine checks in order.
pub open spec fn diagnosis(f: ProjectFacts) -> Seq<(Seq<char>, Seq<char>, IssueCategory, IssueSeverity)> {
    checks_upto(f, 9)
}

fn push_finding(out: &mut Vec<Finding>, title: &str, desc: String, c: IssueCategory, s: IssueSeverity)
    ensures
        final(out)@.map_values(|f: Finding| finding_view(f)) == old(out)@.map_values(|f: Finding| finding_view(f)).push(
            (title@, desc@, c, s),
        ),
{
    out.push((owned(title), desc, c, s));
    assert(out@.map_values(|f: Finding| finding_view(f)) =~= old(out)@.map_values(|f: Finding| finding_view(f)).push(
        (title@, desc@, c, s)));
}

/// The issues a project with the given facts shows.
pub fn diagnose(f: ProjectFacts) -> (r: Vec<Finding>)
    ensures
        r@.map_values(|x: Finding| finding_view(x)) == diagnosis(f),
{
    let mut r: Vec<Finding> = Vec::new();
    assert(r@.map_values(|x: Finding| finding_view(x)) =~= checks_upto(f, 0));
    for k in 0..9
        invariant
            r@.map_values(|x: Finding| finding_view(x)) == checks_upto(f, k as nat),
    {
        apply_check(&mut r, f, k);
    }
    r
}

#[verifier::rlimit(40)]
fn apply_check(r: &mut Vec<Finding>, f: ProjectFacts, k: usize)
    requires
        k < 9,
    ensures
        final(r)@.map_values(|x: Finding| finding_view(x)) == old(r)@.map_values(|x: Finding| finding_view(x)) + check(f, k as int),
{
    let ghost before = r@.map_values(|x: Finding| finding_view(x));
    if k == 0 {
        if !f.has_progress {
            push_finding(r, "缺少进度追踪工具", owned("没有启用进度追踪，智能体间协作时容易丢失上下文。建议使用 'cell tools enable' 启用。"), IssueCategory::ProcessEfficiency, IssueSeverity::High);
        }
    } else if k == 1 {
        if !f.has_decisions {
            push_finding(r, "缺少决策记录", owned("没有架构决策记录（ADR），后续智能体无法理解技术选型背景。建议启用决策记录。"), IssueCategory::Documentation, IssueSeverity::High);
        }
    } else if k == 2 {
        if !f.has_handoffs {
            push_finding(r, "缺少零漂移交接工具", owned("没有交接包机制，智能体切换时信息丢失严重。建议启用 handoff 工具。"), IssueCategory::HandoffCompleteness, IssueSeverity::Critical);
        }
    } else if k == 3 {
        if !f.has_evolution {
            push_finding(r, "缺少自进化系统", owned("没有启用自进化机制，问题无法被系统地记录和改进。建议启用 evolve 工具。"), IssueCategory::ToolIntelligence, IssueSeverity::Medium);
        }
    } else if k == 4 {
        if f.file_count > 10 && !f.has_tests {
            let mut d = owned("项目有 ");
            push_decimal(&mut d, f.file_count);
            push_str(&mut d, " 个文件但缺少测试，容易引入回归bug。建议添加单元测试和架构测试。");
            push_finding(r, "测试覆盖率不足", d, IssueCategory::Testing, IssueSeverity::High);
        }
    } else if k == 5 {
        if f.total_lines > 2000 {
            let mut d = owned("项目规模较大（");
            push_decimal(&mut d, f.total_lines);
            push_str(&mut d, " 行），需要确保熵值计算性能优化。建议使用缓存和增量计算。");
            push_finding(r, "熵值计算可能存在性能问题", d, IssueCategory::Performance, IssueSeverity::Medium);
        }
    } else if k == 6 {
        if f.file_count > 20 {
            let mut d = owned("项目文件数达到 ");
            push_decimal(&mut d, f.file_count);
            push_str(&mut d, "，建议配置增量编译和快速验证机制提升开发效率。");
            push_finding(r, "构建速度可能成为瓶颈", d, IssueCategory::ProcessEfficiency, IssueSeverity::Medium);
        }
    } else if k == 7 {
        if f.file_count > 15 && !f.has_ci {
            push_finding(r, "缺少CI/CD流水线", owned("项目达到一定规模但缺少持续集成，无法自动验证代码质量。建议添加 GitHub Actions 配置。"), IssueCategory::QualityGate, IssueSeverity::Medium);
        }
    } else {
        if !f.has_readme {
            push_finding(r, "缺少项目文档", owned("没有 README 文档，新智能体需要从零开始理解项目。建议添加项目说明文档。"), IssueCategory::Documentation, IssueSeverity::High);
        }
    }
    assert(r@.map_values(|x: Finding| finding_view(x)) =~= before + check(f, k as int));
}

/// Whether some issue of `issues` has title `t`.
pub open spec fn has_title(issues: Seq<Issue>, t: Seq<char>) -> bool {
    exists|i: int| 0 <= i < issues.len() && issues[i].title@ == t
}

/// Titles of `fs`, in order, that are not yet among the issues, each added once.
pub open spec fn new_titles(issues: Seq<Issue>, fs: Seq<(Seq<char>, Seq<char>, IssueCategory, IssueSeverity)>) -> Seq<Seq<char>>
    decreases fs.len(),
{
    if fs.len() == 0 {
        Seq::empty()
    } else {
        let rest = new_titles(issues, fs.drop_last());
        let t = fs.last().0;
        if has_title(issues, t) || rest.contains(t) { rest } else { rest.push(t) }
    }
}

fn has_issue_titled(issues: &Vec<Issue>, t: &str) -> (r: bool)
    ensures
        r == has_title(issues@, t@),
{
    for i in 0..issues.len()
        invariant
            forall|j: int| 0 <= j < i ==> issues@[j].title@ != t@,
    {
        if str_eq(issues[i].title.as_str(), t) {
            return true;
        }
    }
    false
}

/// Adds to `log` the findings whose titles it does not have yet.
pub fn merge_findings(log: &mut EvolutionLog, findings: &Vec<Finding>)
    ensures
        final(log).cycle_number == old(log).cycle_number,
        final(log).phase == old(log).phase,
        final(log).improvements@ == old(log).improvements@,
        final(log).issues@.take(old(log).issues@.len() as int) == old(log).issues@,
        final(log).issues@.skip(old(log).issues@.len() as int).map_values(|i: Issue| i.title@)
            == new_titles(old(log).issues@, findings@.map_values(|x: Finding| finding_view(x))),
{
    let ghost orig = log.issues@;
    let ghost fs = findings@.map_values(|x: Finding| finding_view(x));
    for k in 0..findings.len()
        invariant
            fs == findings@.map_values(|x: Finding| finding_view(x)),
            log.cycle_number == old(log).cycle_number,
            log.phase == old(log).phase,
            log.improvements@ == old(log).improvements@,
            orig == old(log).issues@,
            log.issues@.len() >= orig.len(),
            log.issues@.take(orig.len() as int) == orig,
            log.issues@.skip(orig.len() as int).map_values(|i: Issue| i.title@) == new_titles(orig, fs.take(k as int)),
    {
        assert(fs.take(k + 1).drop_last() =~= fs.take(k as int));
        let t = findings[k].0.as_str();
        assert(fs[k as int].0 == t@);
        let present = has_issue_titled(&log.issues, t);
        let ghost added = log.issues@.skip(orig.len() as int).map_values(|i: Issue| i.title@);
        proof {
            if has_title(orig, t@) {
                let i = choose|i: int| 0 <= i < orig.len() && orig[i].title@ == t@;
                assert(log.issues@.take(orig.len() as int)[i] == orig[i]);
            }
            if added.contains(t@) {
                let q = choose|q: int| 0 <= q < added.len() && added[q] == t@;
                assert(log.issues@[orig.len() + q].title@ == t@);
            }
            if has_title(log.issues@, t@) && !has_title(orig, t@) {
                let i = choose|i: int| 0 <= i < log.issues@.len() && log.issues@[i].title@ == t@;
                if i < orig.len() {
                    assert(log.issues@.take(orig.len() as int)[i] == orig[i]);
                } else {
                    assert(added[i - orig.len()] == t@);
                }
            }
        }
        if !present {
            let ghost before = log.issues@;
            add_issue(log, t, findings[k].1.as_str(), findings[k].2, findings[k].3);
            proof {
                assert(log.issues@ =~= before.push(log.issues@.last()));
                assert(log.issues@.take(orig.len() as int) =~= orig);
                assert(log.issues@.skip(orig.len() as int) =~= before.skip(orig.len() as int).push(log.issues@.last()));
            }
        }
    }
    assert(fs.take(fs.len() as int) =~= fs);
}

/// History newest cycle first.
pub open spec fn newest_cycle_first(h: Seq<EvolutionLog>) -> bool {
    forall|i: int, j: int| 0 <= i < j < h.len() ==> h[i].cycle_number >= h[j].cycle_number
}

/// Orders cycles by number, highest first.
pub fn sort_history(logs: Vec<EvolutionLog>) -> (r: Vec<EvolutionLog>)
    ensures
        r@.to_multiset() == logs@.to_multiset(),
        newest_cycle_first(r@),
{
    let ghost input = logs@;
    let mut rest = logs;
    let mut out: Vec<EvolutionLog> = Vec::new();
    let n = rest.len();
    let mut i: usize = 0;
    while i < n
        invariant
            n == input.len(),
            i <= n,
            rest@ == input.skip(i as int),
            out@.to_multiset() == input.take(i as int).to_multiset(),
            newest_cycle_first(out@),
        decreases n - i,
    {
        let d = rest.remove(0);
        assert(d == input[i as int]);
        assert(input.skip(i + 1) =~= input.skip(i as int).remove(0));
        assert(input.take(i + 1) =~= input.take(i as int).push(d));
        let mut p: usize = 0;
        while p < out.len()
            invariant
                p <= out@.len(),
                forall|j: int| 0 <= j < p ==> (#[trigger] out@[j]).cycle_number >= d.cycle_number,
            ensures
                p <= out@.len(),
                forall|j: int| 0 <= j < p ==> (#[trigger] out@[j]).cycle_number >= d.cycle_number,
                p < out@.len() ==> out@[p as int].cycle_number < d.cycle_number,
            decreases out@.len() - p,
        {
            if out[p].cycle_number < d.cycle_number {
                break;
            }
            p = p + 1;
        }
        let ghost before = out@;
        out.insert(p, d);
        proof {
            assert(out@ == before.insert(p as int, d));
            assert forall|a: int, b: int| 0 <= a < b < out@.len() implies out@[a].cycle_number >= out@[b].cycle_number by {
                let a2 = if a < p { a } else if a == p { -1 } else { a - 1 };
                let b2 = if b < p { b } else if b == p { -1 } else { b - 1 };
                if a == p as int {
                    assert(before[b2].cycle_number <= before[p as int].cycle_number);
                } else if b == p as int {
                    assert(before[a2].cycle_number >= d.cycle_number);
                }
            }
        }
        i = i + 1;
    }
    assert(input.take(n as int) =~= input);
    out
}


/// Runs evolution cycles against a store.
pub struct EvolutionService<T: EvolutionStorePort> {
    store: T,
}

impl<T: EvolutionStorePort> EvolutionService<T> {
    pub fn new(store: T) -> (r: Self)
        ensures
            r.store() == store,
    {
        EvolutionService { store }
    }

    /// The store the service works on.
    pub closed spec fn store(&self) -> T {
        self.store
    }

    fn require_current_cycle(&self, project_path: &str) -> (r: CellResult<EvolutionLog>)
        ensures
            exists|a: CellResult<Option<EvolutionLog>>| #[trigger] self.store().loads_current(project_path@, a)
                && cycle_outcome(a, r),
    {
        let a = self.store.load_current_cycle(project_path);
        assert(self.store().loads_current(project_path@, a));
        match a {
            Ok(Some(log)) => Ok(log),
            Ok(None) => Err(CellError::Config(owned("No active evolution cycle. Start one with 'evolve cycle start' first."))),
            Err(e) => Err(e),
        }
    }

    /// Starts a new cycle, refused while one is active; the new cycle is
    /// empty and collects issues.
    pub fn start_cycle(&self, project_path: &str) -> (r: CellResult<EvolutionLog>)
        ensures
            r is Ok ==> r->Ok_0.phase == EvolutionPhase::CollectingIssues && r->Ok_0.issues@.len() == 0
                && r->Ok_0.improvements@.len() == 0,
            exists|a: CellResult<Option<EvolutionLog>>| #[trigger] self.store().loads_current(project_path@, a)
                && start_answer(self.store(), project_path@, a, r),
    {
        let a = self.store.load_current_cycle(project_path);
        assert(self.store().loads_current(project_path@, a));
        let current = match a {
            Ok(c) => c,
            Err(e) => {
                return Err(e);
            },
        };
        let active = match &current {
            Some(c) => c.phase != EvolutionPhase::Completed,
            None => false,
        };
        if active {
            // An active cycle is refused whatever number the next one would get.
            return begin_cycle(&current, 0);
        }
        let b = self.store.get_next_cycle_number(project_path);
        assert(self.store().gives_next_number(project_path@, b));
        let next = match b {
            Ok(n) => n,
            Err(e) => {
                return Err(e);
            },
        };
        let log = match begin_cycle(&current, next) {
            Ok(l) => l,
            Err(e) => {
                return Err(e);
            },
        };
        let s = self.store.save_current_cycle(project_path, &log);
        assert(self.store().saves_current(project_path@, log, s));
        assert(started_log(log, next));
        match s {
            Ok(_) => Ok(log),
            Err(e) => Err(e),
        }
    }

    pub fn get_current_cycle(&self, project_path: &str) -> (r: CellResult<Option<EvolutionLog>>)
        ensures
            self.store().loads_current(project_path@, r),
    {
        self.store.load_current_cycle(project_path)
    }

    /// Reports an issue in the active cycle.
    pub fn report_issue(
        &self,
        project_path: &str,
        title: &str,
        description: &str,
        category: IssueCategory,
        severity: IssueSeverity,
    ) -> (r: CellResult<EvolutionLog>)
        ensures
            r is Ok ==> r->Ok_0.issues@.len() > 0 && r->Ok_0.issues@.last().title@ == title@
                && r->Ok_0.issues@.last().category == category && r->Ok_0.issues@.last().severity == severity,
            exists|a: CellResult<Option<EvolutionLog>>| #[trigger] self.store().loads_current(project_path@, a) && match a {
                Ok(Some(l0)) => exists|l: EvolutionLog, s: CellResult<()>| #[trigger] self.store().saves_current(project_path@, l, s)
                    && issue_added(l0, l, title@, description@, category, severity) && saved_outcome(s, l, r),
                _ => cycle_outcome(a, r),
            },
    {
        let c = self.require_current_cycle(project_path);
        let ghost a = choose|a: CellResult<Option<EvolutionLog>>| #[trigger] self.store().loads_current(project_path@, a)
            && cycle_outcome(a, c);
        let mut log = match c {
            Ok(l) => l,
            Err(e) => {
                return Err(e);
            },
        };
        let ghost l0 = log;
        add_issue(&mut log, title, description, category, severity);
        let s = self.store.save_current_cycle(project_path, &log);
        assert(self.store().saves_current(project_path@, log, s));
        assert(issue_added(l0, log, title@, description@, category, severity));
        match s {
            Ok(_) => Ok(log),
            Err(e) => Err(e),
        }
    }

    /// Proposes an improvement in the active cycle.
    pub fn add_improvement(
        &self,
        project_path: &str,
        title: &str,
        description: &str,
        category: ImprovementCategory,
        impact: ImpactLevel,
        effort: EffortEstimate,
    ) -> (r: CellResult<EvolutionLog>)
        ensures
            r is Ok ==> r->Ok_0.improvements@.len() > 0 && r->Ok_0.improvements@.last().title@ == title@
                && r->Ok_0.improvements@.last().status == ImprovementStatus::Proposed,
            exists|a: CellResult<Option<EvolutionLog>>| #[trigger] self.store().loads_current(project_path@, a) && match a {
                Ok(Some(l0)) => exists|l: EvolutionLog, s: CellResult<()>| #[trigger] self.store().saves_current(project_path@, l, s)
                    && improvement_added(l0, l, title@, category, impact, effort) && saved_outcome(s, l, r),
                _ => cycle_outcome(a, r),
            },
    {
        let c = self.require_current_cycle(project_path);
        let ghost a = choose|a: CellResult<Option<EvolutionLog>>| #[trigger] self.store().loads_current(project_path@, a)
            && cycle_outcome(a, c);
        let mut log = match c {
            Ok(l) => l,
            Err(e) => {
                return Err(e);
            },
        };
        let ghost l0 = log;
        add_improvement(&mut log, title, description, category, impact, effort);
        let s = self.store.save_current_cycle(project_path, &log);
        assert(self.store().saves_current(project_path@, log, s));
        assert(improvement_added(l0, log, title@, category, impact, effort));
        match s {
            Ok(_) => Ok(log),
            Err(e) => Err(e),
        }
    }

    /// Improvements suggested by the issues of the active cycle.
    pub fn generate_suggestions(&self, project_path: &str) -> (r: CellResult<Vec<Improvement>>)
        ensures
            exists|a: CellResult<Option<EvolutionLog>>| #[trigger] self.store().loads_current(project_path@, a) && match a {
                Ok(Some(l)) => r matches Ok(v) && suggested(l.issues@, v@),
                Ok(None) => r matches Err(CellError::Config(m)) && m@ == no_cycle_message(),
                Err(e) => r == Err::<Vec<Improvement>, CellError>(e),
            },
    {
        let c = self.require_current_cycle(project_path);
        let ghost a = choose|a: CellResult<Option<EvolutionLog>>| #[trigger] self.store().loads_current(project_path@, a)
            && cycle_outcome(a, c);
        let log = match c {
            Ok(l) => l,
            Err(e) => {
                return Err(e);
            },
        };
        Ok(generate_suggestions_for(&log.issues))
    }

    /// Applies an improvement of the active cycle and saves the cycle.
    pub fn apply_improvement(&self, project_path: &str, improvement_id: &str, applied_by: Option<&str>) -> (r: CellResult<EvolutionLog>)
        ensures
            exists|a: CellResult<Option<EvolutionLog>>| #[trigger] self.store().loads_current(project_path@, a) && match a {
                Ok(Some(l0)) => match uuid_parsed(improvement_id@) {
                    Err(e) => r matches Err(CellError::Config(m)) && m@ == "Invalid improvement UUID: "@ + e,
                    Ok(id) => match improvement_at(l0.improvements@, id) {
                        None => r matches Err(CellError::Config(m))
                            && m@ == "Improvement with id "@ + improvement_id@ + " not found"@,
                        Some(i) => exists|l: EvolutionLog, s: CellResult<()>|
                            #[trigger] self.store().saves_current(project_path@, l, s)
                            && applied(l0, l, i, applied_by) && saved_outcome(s, l, r),
                    },
                },
                _ => cycle_outcome(a, r),
            },
    {
        let c = self.require_current_cycle(project_path);
        let ghost a = choose|a: CellResult<Option<EvolutionLog>>| #[trigger] self.store().loads_current(project_path@, a)
            && cycle_outcome(a, c);
        let log = match c {
            Ok(l) => l,
            Err(e) => {
                return Err(e);
            },
        };
        let ghost l0 = log;
        let log = match apply_improvement_to(log, improvement_id, applied_by) {
            Ok(l) => l,
            Err(e) => {
                return Err(e);
            },
        };
        let s = self.store.save_current_cycle(project_path, &log);
        assert(self.store().saves_current(project_path@, log, s));
        match s {
            Ok(_) => Ok(log),
            Err(e) => Err(e),
        }
    }

    /// Completes the active cycle and archives it.
    pub fn complete_cycle(&self, project_path: &str) -> (r: CellResult<EvolutionLog>)
        ensures
            r is Ok ==> r->Ok_0.phase == EvolutionPhase::Completed && r->Ok_0.completed_at is Some,
            exists|a: CellResult<Option<EvolutionLog>>| #[trigger] self.store().loads_current(project_path@, a) && match a {
                Ok(Some(l0)) => exists|l: EvolutionLog, s: CellResult<()>| #[trigger] self.store().archives(project_path@, l, s)
                    && finished_log(l0, l) && saved_outcome(s, l, r),
                _ => cycle_outcome(a, r),
            },
    {
        let c = self.require_current_cycle(project_path);
        let ghost a = choose|a: CellResult<Option<EvolutionLog>>| #[trigger] self.store().loads_current(project_path@, a)
            && cycle_outcome(a, c);
        let mut log = match c {
            Ok(l) => l,
            Err(e) => {
                return Err(e);
            },
        };
        let ghost l0 = log;
        finish_cycle(&mut log);
        let s = self.store.archive_cycle(project_path, &log);
        assert(self.store().archives(project_path@, log, s));
        assert(finished_log(l0, log));
        match s {
            Ok(_) => Ok(log),
            Err(e) => Err(e),
        }
    }

    pub fn list_history(&self, project_path: &str) -> (r: CellResult<Vec<EvolutionLog>>)
        ensures
            self.store().lists_history(project_path@, r),
    {
        self.store.list_history(project_path)
    }

    /// Totals over the archived cycles; refused where the totals do not fit
    /// in `usize`.
    pub fn get_evolution_summary(&self, project_path: &str) -> (r: CellResult<EvolutionSummary>)
        ensures
            exists|hr: CellResult<Vec<EvolutionLog>>| #[trigger] self.store().lists_history(project_path@, hr) && match hr {
                Err(e) => r == Err::<EvolutionSummary, CellError>(e),
                Ok(h) => exists|cr: CellResult<Option<EvolutionLog>>| #[trigger] self.store().loads_current(project_path@, cr)
                    && match cr {
                        Err(e) => r == Err::<EvolutionSummary, CellError>(e),
                        Ok(current) => if total_issues(h@, h@.len() as int) <= usize::MAX
                            && total_improvements(h@, h@.len() as int) <= usize::MAX {
                            r matches Ok(sm) && summary_of(h@, current is Some, sm)
                        } else {
                            r matches Err(CellError::Other(m)) && m@ == "history too large to summarize"@
                        },
                    },
            },
    {
        let hr = self.store.list_history(project_path);
        assert(self.store().lists_history(project_path@, hr));
        let ghost hrg = hr;
        let history = match hr {
            Ok(h) => h,
            Err(e) => {
                return Err(e);
            },
        };
        let cr = self.store.load_current_cycle(project_path);
        assert(self.store().loads_current(project_path@, cr));
        let ghost crg = cr;
        let current = match cr {
            Ok(c) => c,
            Err(e) => {
                return Err(e);
            },
        };
        let n = history.len();
        let mut issues: usize = 0;
        let mut ims: usize = 0;
        for i in 0..n
            invariant
                n == history@.len(),
                issues as int == total_issues(history@, i as int),
                ims as int == total_improvements(history@, i as int),
                self.store().lists_history(project_path@, hrg),
                hrg == Ok::<Vec<EvolutionLog>, CellError>(history),
                self.store().loads_current(project_path@, crg),
                crg == Ok::<Option<EvolutionLog>, CellError>(current),
        {
            let a = history[i].issues.len();
            let b = history[i].improvements.len();
            if a > usize::MAX - issues || b > usize::MAX - ims {
                proof {
                    lemma_totals_mono(history@, IssueCategory::Other, i + 1, n as int);
                }
                return Err(CellError::Other(owned("history too large to summarize")));
            }
            issues = issues + a;
            ims = ims + b;
        }
        let sm = summarize(&history, current.is_some());
        assert(summary_of(history@, current is Some, sm));
        Ok(sm)
    }

    /// Adds to the active cycle the issues a scan found, skipping known
    /// titles, and saves the cycle.
    pub fn auto_diagnose(&self, project_path: &str, facts: ProjectFacts) -> (r: CellResult<EvolutionLog>)
        ensures
            exists|a: CellResult<Option<EvolutionLog>>| #[trigger] self.store().loads_current(project_path@, a) && match a {
                Ok(Some(l0)) => exists|l: EvolutionLog, s: CellResult<()>| #[trigger] self.store().saves_current(project_path@, l, s)
                    && findings_merged(l0, l, diagnosis(facts)) && saved_outcome(s, l, r),
                _ => cycle_outcome(a, r),
            },
    {
        let c = self.require_current_cycle(project_path);
        let ghost a = choose|a: CellResult<Option<EvolutionLog>>| #[trigger] self.store().loads_current(project_path@, a)
            && cycle_outcome(a, c);
        let mut log = match c {
            Ok(l) => l,
            Err(e) => {
                return Err(e);
            },
        };
        let ghost l0 = log;
        let findings = diagnose(facts);
        merge_findings(&mut log, &findings);
        let s = self.store.save_current_cycle(project_path, &log);
        assert(self.store().saves_current(project_path@, log, s));
        assert(findings_merged(l0, log, diagnosis(facts)));
        match s {
            Ok(_) => Ok(log),
            Err(e) => Err(e),
        }
    }
}

} // verus!
