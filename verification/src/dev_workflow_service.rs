//! The development workflow: its phases in order, the checks each phase
//! reports, and the text report of a phase.
use vstd::prelude::*;
use crate::text::{owned, push_str, push_decimal, push_decimal_u64, decimal, repeat, push_repeat, pad_right, push_padded};
use crate::impact_analysis_service::string_views;
use crate::arch_service::ValidationResult;
use crate::fast_verify_service::{VerifyCheck, VerifyResult};
use crate::errors::{CellError, CellResult};
use crate::clock::now_rfc3339;

verus! {

/// The phases of the workflow, in order.
#[derive(Debug, Clone, Copy, PartialEq, Eq, Structural)]
pub enum DevPhase {
    Starting,
    Designing,
    Coding,
    Verifying,
    HandingOff,
    Complete,
}

pub open spec fn phase_label(p: DevPhase) -> Seq<char> {
    match p {
        DevPhase::Starting => "🚀 启动阶段"@,
        DevPhase::Designing => "🎨 设计阶段"@,
        DevPhase::Coding => "💻 开发阶段"@,
        DevPhase::Verifying => "✅ 验证阶段"@,
        DevPhase::HandingOff => "📦 交接阶段"@,
        DevPhase::Complete => "🎉 完成"@,
    }
}

/// The phase after `p`; none after the last.
pub open spec fn next_phase(p: DevPhase) -> Option<DevPhase> {
    match p {
        DevPhase::Starting => Some(DevPhase::Designing),
        DevPhase::Designing => Some(DevPhase::Coding),
        DevPhase::Coding => Some(DevPhase::Verifying),
        DevPhase::Verifying => Some(DevPhase::HandingOff),
        DevPhase::HandingOff => Some(DevPhase::Complete),
        DevPhase::Complete => None,
    }
}

/// The position of a phase in the workflow.
pub open spec fn phase_index(p: DevPhase) -> nat {
    match p {
        DevPhase::Starting => 0,
        DevPhase::Designing => 1,
        DevPhase::Coding => 2,
        DevPhase::Verifying => 3,
        DevPhase::HandingOff => 4,
        DevPhase::Complete => 5,
    }
}

impl DevPhase {
    /// The phase's display label.
    pub fn label(&self) -> (r: &'static str)
        ensures
            r@ == phase_label(*self),
    {
        match self {
            DevPhase::Starting => "🚀 启动阶段",
            DevPhase::Designing => "🎨 设计阶段",
            DevPhase::Coding => "💻 开发阶段",
            DevPhase::Verifying => "✅ 验证阶段",
            DevPhase::HandingOff => "📦 交接阶段",
            DevPhase::Complete => "🎉 完成",
        }
    }

    /// The phase that follows, if any.
    pub fn next(&self) -> (r: Option<DevPhase>)
        ensures
            r == next_phase(*self),
    {
        match self {
            DevPhase::Starting => Some(DevPhase::Designing),
            DevPhase::Designing => Some(DevPhase::Coding),
            DevPhase::Coding => Some(DevPhase::Verifying),
            DevPhase::Verifying => Some(DevPhase::HandingOff),
            DevPhase::HandingOff => Some(DevPhase::Complete),
            DevPhase::Complete => None,
        }
    }
}

/// Each phase but the last is followed by the phase one step further, and
/// only the last has no successor: the phases form one chain.
pub proof fn phases_form_a_chain(p: DevPhase)
    ensures
        next_phase(p) is None <==> p == DevPhase::Complete,
        next_phase(p) matches Some(q) ==> phase_index(q) == phase_index(p) + 1,
{
}

/// One check of a phase.
#[derive(Debug, Clone)]
pub struct PhaseCheck {
    pub name: String,
    pub passed: bool,
    pub detail: String,
}

/// The outcome of a phase.
#[derive(Debug, Clone)]
pub struct PhaseResult {
    pub phase: DevPhase,
    pub success: bool,
    pub duration_ms: u64,
    pub checks: Vec<PhaseCheck>,
    pub warnings: Vec<String>,
}

pub open spec fn check_view(c: PhaseCheck) -> (Seq<char>, bool, Seq<char>) {
    (c.name@, c.passed, c.detail@)
}

pub open spec fn check_views(cs: Seq<PhaseCheck>) -> Seq<(Seq<char>, bool, Seq<char>)> {
    cs.map_values(|c: PhaseCheck| check_view(c))
}

/// Every check passed.
pub open spec fn all_checks_pass(cs: Seq<PhaseCheck>) -> bool {
    forall|i: int| 0 <= i < cs.len() ==> (#[trigger] cs[i]).passed
}

/// A number with its sign, as `{:+}` writes it.
pub open spec fn signed_text(current: nat, baseline: nat) -> Seq<char> {
    if current >= baseline {
        "+"@ + decimal((current - baseline) as nat)
    } else {
        "-"@ + decimal((baseline - current) as nat)
    }
}

/// The architecture check of a coding checkpoint.
pub open spec fn compliance_check(violations: nat, passed: bool) -> (Seq<char>, bool, Seq<char>) {
    ("架构合规检查"@, passed, decimal(violations) + " 个违规"@)
}

/// The check comparing violations with those at the start of the task.
pub open spec fn violation_change_check(baseline: nat, current: nat) -> (Seq<char>, bool, Seq<char>) {
    ("架构违规变化"@, current <= baseline,
        "基线: "@ + decimal(baseline) + ", 当前: "@ + decimal(current) + ", 变化: "@ + signed_text(current, baseline))
}

/// The checks a verification run contributes, or the failure of the run.
pub open spec fn verification_checks(v: Result<VerifyResult, Seq<char>>) -> Seq<(Seq<char>, bool, Seq<char>)> {
    match v {
        Ok(r) => r.checks@.map_values(|c: VerifyCheck| (c.name@, c.passed, match c.details {
            Some(d) => d@,
            None => Seq::empty(),
        })),
        Err(e) => seq![("验证执行"@, false, "失败: "@ + e)],
    }
}

pub open spec fn verification_warnings(v: Result<VerifyResult, Seq<char>>) -> Seq<Seq<char>> {
    match v {
        Ok(r) => if r.passed { Seq::empty() } else { seq!["验证未全部通过，请检查失败项"@] },
        Err(_) => Seq::empty(),
    }
}

pub open spec fn package_check(p: Result<Seq<char>, Seq<char>>) -> (Seq<char>, bool, Seq<char>) {
    match p {
        Ok(id) => ("交接包生成"@, true, "已生成: "@ + id),
        Err(e) => ("交接包生成"@, false, "失败: "@ + e),
    }
}

pub open spec fn package_warnings(p: Result<Seq<char>, Seq<char>>) -> Seq<Seq<char>> {
    match p {
        Ok(_) => Seq::empty(),
        Err(e) => seq!["交接包生成失败: "@ + e],
    }
}

/// The check or warning of recording rising entropy with the evolution
/// service, when it was recorded.
pub open spec fn evolution_checks(e: Option<Result<(), Seq<char>>>) -> Seq<(Seq<char>, bool, Seq<char>)> {
    match e {
        Some(Ok(())) => seq![("自进化记录"@, true, "熵值上升问题已记录"@)],
        _ => Seq::empty(),
    }
}

pub open spec fn evolution_warnings(e: Option<Result<(), Seq<char>>>) -> Seq<Seq<char>> {
    match e {
        Some(Err(m)) => seq!["自进化记录失败: "@ + m],
        _ => Seq::empty(),
    }
}

pub open spec fn opt_result_view(r: Result<String, String>) -> Result<Seq<char>, Seq<char>> {
    match r {
        Ok(s) => Ok(s@),
        Err(s) => Err(s@),
    }
}

pub open spec fn verify_outcome_view(r: Result<VerifyResult, String>) -> Result<VerifyResult, Seq<char>> {
    match r {
        Ok(v) => Ok(v),
        Err(s) => Err(s@),
    }
}

pub open spec fn evolution_view(e: Option<Result<(), String>>) -> Option<Result<(), Seq<char>>> {
    match e {
        Some(Ok(())) => Some(Ok(())),
        Some(Err(s)) => Some(Err(s@)),
        None => None,
    }
}

/// The report of the start of a task: progress tracking, the entropy
/// baseline checks, then the architecture baseline (with a warning when it
/// has violations).
pub open spec fn start_report(r: PhaseResult, entropy_checks: Seq<PhaseCheck>, entropy_warnings: Seq<String>,
    arch: ValidationResult, duration_ms: u64) -> bool {
    &&& r.phase == DevPhase::Starting
    &&& r.success
    &&& r.duration_ms == duration_ms
    &&& check_views(r.checks@) == seq![("进度追踪启动"@, true, "任务进度已开始追踪"@)] + check_views(entropy_checks)
        + seq![("架构基线"@, arch.passed, if arch.passed { "架构合规"@ } else { decimal(arch.violations@.len()) + " 个违规"@ })]
    &&& string_views(r.warnings@) == string_views(entropy_warnings) + (if !arch.passed {
        seq!["架构存在 "@ + decimal(arch.violations@.len()) + " 个违规，请在开发中注意"@]
    } else {
        Seq::empty()
    })
}

/// The report of the design phase: the entropy trend checks, then the
/// current state of the architecture (layers and violations).
pub open spec fn design_report(r: PhaseResult, trend_checks: Seq<PhaseCheck>, trend_warnings: Seq<String>,
    arch: ValidationResult, duration_ms: u64) -> bool {
    &&& r.phase == DevPhase::Designing
    &&& r.success
    &&& r.duration_ms == duration_ms
    &&& check_views(r.checks@) == check_views(trend_checks) + seq![("架构现状分析"@, arch.passed,
        decimal(arch.layer_stats@.len()) + " 层, "@ + decimal(arch.violations@.len()) + " 个违规"@)]
    &&& string_views(r.warnings@) == string_views(trend_warnings)
}

/// The report of a coding checkpoint: the architecture check (with a
/// warning when there are violations), then the entropy checks and warnings.
pub open spec fn checkpoint_report(r: PhaseResult, arch: ValidationResult, entropy_checks: Seq<PhaseCheck>,
    entropy_warnings: Seq<String>, duration_ms: u64) -> bool {
    &&& r.phase == DevPhase::Coding
    &&& r.success
    &&& r.duration_ms == duration_ms
    &&& check_views(r.checks@) == seq![compliance_check(arch.violations@.len(), arch.passed)] + check_views(entropy_checks)
    &&& string_views(r.warnings@) == (if arch.violations@.len() > 0 {
        seq!["发现 "@ + decimal(arch.violations@.len()) + " 个架构违规"@]
    } else {
        Seq::empty()
    }) + string_views(entropy_warnings)
}

/// The report of the verification phase: the checks of the verification
/// run (or its failure), then the change in architecture violations since
/// the task started; it succeeds when every check passed.
pub open spec fn verify_report(r: PhaseResult, verification: Result<VerifyResult, Seq<char>>, baseline: nat,
    current: nat, duration_ms: u64) -> bool {
    &&& r.phase == DevPhase::Verifying
    &&& r.duration_ms == duration_ms
    &&& check_views(r.checks@) == verification_checks(verification).push(violation_change_check(baseline, current))
    &&& string_views(r.warnings@) == verification_warnings(verification)
    &&& r.success == all_checks_pass(r.checks@)
}

/// The report of the handoff phase: the package check, the final entropy
/// checks, the record of rising entropy if one was made, and the completed
/// task; it succeeds.
pub open spec fn handoff_report(r: PhaseResult, package: Result<Seq<char>, Seq<char>>, entropy_checks: Seq<PhaseCheck>,
    entropy_warnings: Seq<String>, evolution: Option<Result<(), Seq<char>>>, duration_ms: u64) -> bool {
    &&& r.phase == DevPhase::HandingOff
    &&& r.success
    &&& r.duration_ms == duration_ms
    &&& check_views(r.checks@) == seq![package_check(package)] + check_views(entropy_checks)
        + evolution_checks(evolution) + seq![("任务完成"@, true, "进度追踪已结束"@)]
    &&& string_views(r.warnings@) == package_warnings(package) + string_views(entropy_warnings)
        + evolution_warnings(evolution)
}

/// What is kept between the commands of a workflow: the task, the phase
/// reached, the violations when the task started, the decisions recorded
/// on the way (by their identifiers) and the times of start and last update.
#[derive(Debug, Clone)]
pub struct DevWorkflowState {
    pub task_name: String,
    pub current_phase: DevPhase,
    pub baseline_violations: usize,
    pub decisions: Vec<String>,
    pub started_at: String,
    pub last_updated: String,
}

/// The refusal of a phase when no workflow was started.
pub open spec fn not_started_message() -> Seq<char> {
    "工作流未启动，请先运行 cell dev start"@
}

/// `s2` is `s` moved to `phase`; only the time of the last update changes besides.
pub open spec fn entered(s: DevWorkflowState, s2: DevWorkflowState, phase: DevPhase) -> bool {
    s2 == DevWorkflowState { current_phase: phase, last_updated: s2.last_updated, ..s }
}

/// An identifier without its hyphens (the simple form of a UUID).
pub open spec fn without_hyphens(s: Seq<char>) -> Seq<char>
    decreases s.len(),
{
    if s.len() == 0 {
        Seq::empty()
    } else {
        without_hyphens(s.drop_last()) + if s.last() == '-' { Seq::empty() } else { seq![s.last()] }
    }
}

fn not_started() -> (r: CellError)
    ensures
        r matches CellError::Config(m) && m@ == not_started_message(),
{
    CellError::Config(owned("工作流未启动，请先运行 cell dev start"))
}

fn enter(s: DevWorkflowState, phase: DevPhase) -> (r: DevWorkflowState)
    ensures
        entered(s, r, phase),
{
    DevWorkflowState {
        task_name: s.task_name,
        current_phase: phase,
        baseline_violations: s.baseline_violations,
        decisions: s.decisions,
        started_at: s.started_at,
        last_updated: now_rfc3339(),
    }
}

fn drop_hyphens(t: &str) -> (r: String)
    ensures
        r@ == without_hyphens(t@),
{
    let cs = crate::text::to_chars(t);
    let mut r = String::new();
    for i in 0..cs.len()
        invariant
            cs@ == t@,
            r@ == without_hyphens(t@.take(i as int)),
    {
        assert(t@.take(i + 1).drop_last() =~= t@.take(i as int));
        if cs[i] != '-' {
            crate::text::push_char(&mut r, cs[i]);
        }
        assert(r@ =~= without_hyphens(t@.take(i + 1)));
    }
    assert(t@.take(cs.len() as int) =~= t@);
    r
}

/// Decides what each workflow phase reports and which workflow state it
/// leaves, from what its steps found and the state kept so far. The
/// measurements (architecture, verification, entropy, handoff package), the
/// event log and the storage of the state are the caller's.
pub struct DevWorkflowService;

fn make_check(name: &str, passed: bool, detail: String) -> (r: PhaseCheck)
    ensures
        check_view(r) == (name@, passed, detail@),
{
    PhaseCheck { name: owned(name), passed, detail }
}

fn count_text(n: usize, suffix: &str) -> (r: String)
    ensures
        r@ == decimal(n as nat) + suffix@,
{
    let mut s = String::new();
    push_decimal(&mut s, n);
    push_str(&mut s, suffix);
    assert(s@ =~= decimal(n as nat) + suffix@);
    s
}

fn cat(a: &str, b: &str) -> (r: String)
    ensures
        r@ == a@ + b@,
{
    let mut s = owned(a);
    push_str(&mut s, b);
    s
}

fn append_checks(dst: &mut Vec<PhaseCheck>, src: Vec<PhaseCheck>)
    ensures
        check_views(final(dst)@) == check_views(old(dst)@) + check_views(src@),
{
    let mut src = src;
    let ghost a = dst@;
    let ghost b = src@;
    dst.append(&mut src);
    assert(dst@ =~= a + b);
    assert(check_views(dst@) =~= check_views(a) + check_views(b));
}

fn append_strings(dst: &mut Vec<String>, src: Vec<String>)
    ensures
        string_views(final(dst)@) == string_views(old(dst)@) + string_views(src@),
{
    let mut src = src;
    let ghost a = dst@;
    let ghost b = src@;
    dst.append(&mut src);
    assert(dst@ =~= a + b);
    assert(string_views(dst@) =~= string_views(a) + string_views(b));
}

fn all_pass(cs: &Vec<PhaseCheck>) -> (r: bool)
    ensures
        r == all_checks_pass(cs@),
{
    for i in 0..cs.len()
        invariant
            forall|k: int| 0 <= k < i ==> (#[trigger] cs@[k]).passed,
    {
        if !cs[i].passed {
            return false;
        }
    }
    true
}

impl DevWorkflowService {
    pub fn new() -> (r: Self) {
        DevWorkflowService
    }

    /// The start of a task: progress tracking, the entropy baseline checks,
    /// then the architecture baseline (with a warning when it has
    /// violations).
    fn start_result(&self, entropy_checks: Vec<PhaseCheck>, entropy_warnings: Vec<String>, arch: &ValidationResult,
        duration_ms: u64) -> (r: PhaseResult)
        ensures
            start_report(r, entropy_checks@, entropy_warnings@, *arch, duration_ms),

    {
        let mut checks: Vec<PhaseCheck> = Vec::new();
        let c0 = make_check("进度追踪启动", true, owned("任务进度已开始追踪"));
        checks.push(c0);
        assert(check_views(checks@) =~= seq![check_view(c0)]);
        append_checks(&mut checks, entropy_checks);
        let n = arch.violations.len();
        let detail = if arch.passed { owned("架构合规") } else { count_text(n, " 个违规") };
        let c1 = make_check("架构基线", arch.passed, detail);
        let ghost before = check_views(checks@);
        checks.push(c1);
        assert(check_views(checks@) =~= before + seq![check_view(c1)]);
        let mut warnings = entropy_warnings;
        let ghost w0 = string_views(warnings@);
        if !arch.passed {
            let mut w = owned("架构存在 ");
            push_decimal(&mut w, n);
            push_str(&mut w, " 个违规，请在开发中注意");
            warnings.push(w);
            assert(string_views(warnings@) =~= w0 + seq![w@]);
        } else {
            assert(w0 + Seq::<Seq<char>>::empty() =~= w0);
        }
        PhaseResult { phase: DevPhase::Starting, success: true, duration_ms, checks, warnings }
    }

    /// The design phase: the entropy trend checks, then the current state of
    /// the architecture (layers and violations).
    fn design_result(&self, trend_checks: Vec<PhaseCheck>, trend_warnings: Vec<String>, arch: &ValidationResult,
        duration_ms: u64) -> (r: PhaseResult)
        ensures
            design_report(r, trend_checks@, trend_warnings@, *arch, duration_ms),

    {
        let mut checks = trend_checks;
        let mut detail = String::new();
        push_decimal(&mut detail, arch.layer_stats.len());
        push_str(&mut detail, " 层, ");
        push_decimal(&mut detail, arch.violations.len());
        push_str(&mut detail, " 个违规");
        let c = make_check("架构现状分析", arch.passed, detail);
        let ghost before = check_views(checks@);
        checks.push(c);
        assert(check_views(checks@) =~= before + seq![check_view(c)]);
        PhaseResult { phase: DevPhase::Designing, success: true, duration_ms, checks, warnings: trend_warnings }
    }

    /// A coding checkpoint: the architecture check (with a warning when
    /// there are violations), then the entropy checks and warnings.
    fn checkpoint_result(&self, arch: &ValidationResult, entropy_checks: Vec<PhaseCheck>,
        entropy_warnings: Vec<String>, duration_ms: u64) -> (r: PhaseResult)
        ensures
            checkpoint_report(r, *arch, entropy_checks@, entropy_warnings@, duration_ms),

    {
        let n = arch.violations.len();
        let mut checks: Vec<PhaseCheck> = Vec::new();
        let c = make_check("架构合规检查", arch.passed, count_text(n, " 个违规"));
        checks.push(c);
        assert(check_views(checks@) =~= seq![check_view(c)]);
        let mut warnings: Vec<String> = Vec::new();
        if n > 0 {
            let w = cat("发现 ", count_text(n, " 个架构违规").as_str());
            warnings.push(w);
            assert(string_views(warnings@) =~= seq![w@]);
            assert(w@ =~= "发现 "@ + decimal(n as nat) + " 个架构违规"@);
        } else {
            assert(string_views(warnings@) =~= Seq::<Seq<char>>::empty());
        }
        append_checks(&mut checks, entropy_checks);
        append_strings(&mut warnings, entropy_warnings);
        PhaseResult { phase: DevPhase::Coding, success: true, duration_ms, checks, warnings }
    }

    /// The verification phase: the checks of the verification run (or its
    /// failure), then the change in architecture violations since the task
    /// started; it succeeds when every check passed.
    fn verify_result(&self, verification: Result<VerifyResult, String>, baseline_violations: usize,
        current_violations: usize, duration_ms: u64) -> (r: PhaseResult)
        ensures
            verify_report(r, verify_outcome_view(verification), baseline_violations as nat, current_violations as nat, duration_ms),

    {
        let ghost vv = verify_outcome_view(verification);
        let mut checks: Vec<PhaseCheck> = Vec::new();
        let mut warnings: Vec<String> = Vec::new();
        match verification {
            Ok(result) => {
                let ghost target = verification_checks(vv);
                for i in 0..result.checks.len()
                    invariant
                        target == result.checks@.map_values(|c: VerifyCheck| (c.name@, c.passed, match c.details {
                            Some(d) => d@,
                            None => Seq::empty(),
                        })),
                        check_views(checks@) == target.take(i as int),
                {
                    let vc = &result.checks[i];
                    let detail = match &vc.details {
                        Some(d) => d.clone(),
                        None => String::new(),
                    };
                    let c = make_check(vc.name.as_str(), vc.passed, detail);
                    let ghost before = check_views(checks@);
                    checks.push(c);
                    assert(check_views(checks@) =~= before.push(check_view(c)));
                    assert(target.take(i + 1) =~= target.take(i as int).push(target[i as int]));
                }
                assert(target.take(result.checks@.len() as int) =~= target);
                if !result.passed {
                    let w = owned("验证未全部通过，请检查失败项");
                    warnings.push(w);
                    assert(string_views(warnings@) =~= seq![w@]);
                } else {
                    assert(string_views(warnings@) =~= Seq::<Seq<char>>::empty());
                }
            },
            Err(e) => {
                let c = make_check("验证执行", false, cat("失败: ", e.as_str()));
                checks.push(c);
                assert(check_views(checks@) =~= seq![check_view(c)]);
                assert(string_views(warnings@) =~= Seq::<Seq<char>>::empty());
            },
        }
        let mut detail = owned("基线: ");
        push_decimal(&mut detail, baseline_violations);
        push_str(&mut detail, ", 当前: ");
        push_decimal(&mut detail, current_violations);
        push_str(&mut detail, ", 变化: ");
        if current_violations >= baseline_violations {
            push_str(&mut detail, "+");
            push_decimal(&mut detail, current_violations - baseline_violations);
        } else {
            push_str(&mut detail, "-");
            push_decimal(&mut detail, baseline_violations - current_violations);
        }
        let c = make_check("架构违规变化", current_violations <= baseline_violations, detail);
        assert(check_view(c) =~= violation_change_check(baseline_violations as nat, current_violations as nat));
        let ghost before = check_views(checks@);
        checks.push(c);
        assert(check_views(checks@) =~= before.push(check_view(c)));
        let success = all_pass(&checks);
        PhaseResult { phase: DevPhase::Verifying, success, duration_ms, checks, warnings }
    }

    /// The handoff phase: the package check, the final entropy checks, the
    /// record of rising entropy if one was made, and the completed task; it
    /// always succeeds.
    fn handoff_result(&self, package: Result<String, String>, entropy_checks: Vec<PhaseCheck>,
        entropy_warnings: Vec<String>, evolution: Option<Result<(), String>>, duration_ms: u64) -> (r: PhaseResult)
        ensures
            handoff_report(r, opt_result_view(package), entropy_checks@, entropy_warnings@, evolution_view(evolution), duration_ms),

    {
        let mut checks: Vec<PhaseCheck> = Vec::new();
        let mut warnings: Vec<String> = Vec::new();
        match &package {
            Ok(id) => {
                let c = make_check("交接包生成", true, cat("已生成: ", id.as_str()));
                checks.push(c);
                assert(check_views(checks@) =~= seq![check_view(c)]);
                assert(string_views(warnings@) =~= Seq::<Seq<char>>::empty());
            },
            Err(e) => {
                let c = make_check("交接包生成", false, cat("失败: ", e.as_str()));
                checks.push(c);
                assert(check_views(checks@) =~= seq![check_view(c)]);
                let w = cat("交接包生成失败: ", e.as_str());
                warnings.push(w);
                assert(string_views(warnings@) =~= seq![w@]);
            },
        }
        append_checks(&mut checks, entropy_checks);
        append_strings(&mut warnings, entropy_warnings);
        let ghost c1 = check_views(checks@);
        let ghost w1 = string_views(warnings@);
        match &evolution {
            Some(Ok(())) => {
                let c = make_check("自进化记录", true, owned("熵值上升问题已记录"));
                checks.push(c);
                assert(check_views(checks@) =~= c1 + seq![check_view(c)]);
                assert(w1 + Seq::<Seq<char>>::empty() =~= w1);
            },
            Some(Err(m)) => {
                let w = cat("自进化记录失败: ", m.as_str());
                warnings.push(w);
                assert(string_views(warnings@) =~= w1 + seq![w@]);
                assert(c1 + Seq::<(Seq<char>, bool, Seq<char>)>::empty() =~= c1);
            },
            None => {
                assert(c1 + Seq::<(Seq<char>, bool, Seq<char>)>::empty() =~= c1);
                assert(w1 + Seq::<Seq<char>>::empty() =~= w1);
            },
        }
        let ghost c2 = check_views(checks@);
        let c = make_check("任务完成", true, owned("进度追踪已结束"));
        checks.push(c);
        assert(check_views(checks@) =~= c2 + seq![check_view(c)]);
        PhaseResult { phase: DevPhase::HandingOff, success: true, duration_ms, checks, warnings }
    }

    /// The start of a task. `started` tells how starting the progress
    /// tracking and logging the start went; its error is passed on.
    /// Otherwise the report, and the state to keep: the task at its start,
    /// with the violations found then.
    pub fn start_task(&self, task_name: &str, started: CellResult<()>, entropy_checks: Vec<PhaseCheck>,
        entropy_warnings: Vec<String>, arch: &ValidationResult, duration_ms: u64) -> (r: CellResult<(PhaseResult, DevWorkflowState)>)
        ensures
            match started {
                Err(e) => r == Err::<(PhaseResult, DevWorkflowState), CellError>(e),
                Ok(_) => r matches Ok((p, s)) && start_report(p, entropy_checks@, entropy_warnings@, *arch, duration_ms)
                    && s.task_name@ == task_name@ && s.current_phase == DevPhase::Starting
                    && s.baseline_violations == arch.violations@.len() && s.decisions@.len() == 0,
            },
    {
        match started {
            Err(e) => Err(e),
            Ok(_) => {
                let p = self.start_result(entropy_checks, entropy_warnings, arch, duration_ms);
                let now = now_rfc3339();
                let s = DevWorkflowState {
                    task_name: owned(task_name),
                    current_phase: DevPhase::Starting,
                    baseline_violations: arch.violations.len(),
                    decisions: Vec::new(),
                    started_at: owned(now.as_str()),
                    last_updated: now,
                };
                Ok((p, s))
            },
        }
    }

    /// The design phase. `logged` tells how logging its events went; its
    /// error is passed on. A workflow that was never started is refused.
    /// Otherwise the report, and the state moved to the design phase.
    pub fn design_phase(&self, logged: CellResult<()>, state: Option<DevWorkflowState>, trend_checks: Vec<PhaseCheck>,
        trend_warnings: Vec<String>, arch: &ValidationResult, duration_ms: u64) -> (r: CellResult<(PhaseResult, DevWorkflowState)>)
        ensures
            match logged {
                Err(e) => r == Err::<(PhaseResult, DevWorkflowState), CellError>(e),
                Ok(_) => match state {
                    None => r matches Err(CellError::Config(m)) && m@ == not_started_message(),
                    Some(s) => r matches Ok((p, s2)) && design_report(p, trend_checks@, trend_warnings@, *arch, duration_ms)
                        && entered(s, s2, DevPhase::Designing),
                },
            },
    {
        match logged {
            Err(e) => Err(e),
            Ok(_) => match state {
                None => Err(not_started()),
                Some(s) => {
                    let p = self.design_result(trend_checks, trend_warnings, arch, duration_ms);
                    Ok((p, enter(s, DevPhase::Designing)))
                },
            },
        }
    }

    /// A coding checkpoint. `logged` tells how logging the checkpoint's
    /// message went; its error is passed on. A workflow that was never
    /// started is refused. The checkpoint leaves the state as it is.
    pub fn code_checkpoint(&self, logged: CellResult<()>, state: &Option<DevWorkflowState>, arch: &ValidationResult,
        entropy_checks: Vec<PhaseCheck>, entropy_warnings: Vec<String>, duration_ms: u64) -> (r: CellResult<PhaseResult>)
        ensures
            match logged {
                Err(e) => r == Err::<PhaseResult, CellError>(e),
                Ok(_) => match state {
                    None => r matches Err(CellError::Config(m)) && m@ == not_started_message(),
                    Some(_) => r matches Ok(p) && checkpoint_report(p, *arch, entropy_checks@, entropy_warnings@, duration_ms),
                },
            },
    {
        match logged {
            Err(e) => Err(e),
            Ok(_) => match state {
                None => Err(not_started()),
                Some(_) => Ok(self.checkpoint_result(arch, entropy_checks, entropy_warnings, duration_ms)),
            },
        }
    }

    /// The verification phase. `logged` tells how logging its event went;
    /// its error is passed on. A workflow that was never started is
    /// refused. Otherwise the report, measured against the violations kept
    /// from the start, and the state moved to verification.
    pub fn verify_phase(&self, logged: CellResult<()>, state: Option<DevWorkflowState>,
        verification: Result<VerifyResult, String>, current_violations: usize, duration_ms: u64)
        -> (r: CellResult<(PhaseResult, DevWorkflowState)>)
        ensures
            match logged {
                Err(e) => r == Err::<(PhaseResult, DevWorkflowState), CellError>(e),
                Ok(_) => match state {
                    None => r matches Err(CellError::Config(m)) && m@ == not_started_message(),
                    Some(s) => r matches Ok((p, s2)) && verify_report(p, verify_outcome_view(verification),
                        s.baseline_violations as nat, current_violations as nat, duration_ms)
                        && entered(s, s2, DevPhase::Verifying),
                },
            },
    {
        match logged {
            Err(e) => Err(e),
            Ok(_) => match state {
                None => Err(not_started()),
                Some(s) => {
                    let p = self.verify_result(verification, s.baseline_violations, current_violations, duration_ms);
                    Ok((p, enter(s, DevPhase::Verifying)))
                },
            },
        }
    }

    /// The handoff phase. `logged` tells how logging its event went, and
    /// `completed` how completing the tracked task went; their errors are
    /// passed on, and a workflow that was never started is refused (before
    /// the task is completed). Otherwise the report, and the state moved to
    /// the handoff.
    pub fn handoff_phase(&self, logged: CellResult<()>, state: Option<DevWorkflowState>, package: Result<String, String>,
        entropy_checks: Vec<PhaseCheck>, entropy_warnings: Vec<String>, evolution: Option<Result<(), String>>,
        completed: CellResult<()>, duration_ms: u64) -> (r: CellResult<(PhaseResult, DevWorkflowState)>)
        ensures
            match logged {
                Err(e) => r == Err::<(PhaseResult, DevWorkflowState), CellError>(e),
                Ok(_) => match state {
                    None => r matches Err(CellError::Config(m)) && m@ == not_started_message(),
                    Some(s) => match completed {
                        Err(e) => r == Err::<(PhaseResult, DevWorkflowState), CellError>(e),
                        Ok(_) => r matches Ok((p, s2)) && handoff_report(p, opt_result_view(package), entropy_checks@,
                            entropy_warnings@, evolution_view(evolution), duration_ms)
                            && entered(s, s2, DevPhase::HandingOff),
                    },
                },
            },
    {
        match logged {
            Err(e) => Err(e),
            Ok(_) => match state {
                None => Err(not_started()),
                Some(s) => match completed {
                    Err(e) => Err(e),
                    Ok(_) => {
                        let p = self.handoff_result(package, entropy_checks, entropy_warnings, evolution, duration_ms);
                        Ok((p, enter(s, DevPhase::HandingOff)))
                    },
                },
            },
        }
    }

    /// The state of the workflow; a workflow that was never started is refused.
    pub fn current_status(&self, state: Option<DevWorkflowState>) -> (r: CellResult<DevWorkflowState>)
        ensures
            match state {
                None => r matches Err(CellError::Config(m)) && m@ == not_started_message(),
                Some(s) => r == Ok::<DevWorkflowState, CellError>(s),
            },
    {
        match state {
            None => Err(not_started()),
            Some(s) => Ok(s),
        }
    }

    /// Notes a decision recorded during the work. `recorded` is the outcome
    /// of recording it (its identifier); its error is passed on, and a
    /// workflow that was never started is refused. Otherwise the state with
    /// the identifier, without hyphens, added to its decisions.
    pub fn record_decision(&self, recorded: CellResult<String>, state: Option<DevWorkflowState>)
        -> (r: CellResult<DevWorkflowState>)
        ensures
            match recorded {
                Err(e) => r == Err::<DevWorkflowState, CellError>(e),
                Ok(id) => match state {
                    None => r matches Err(CellError::Config(m)) && m@ == not_started_message(),
                    Some(s) => r matches Ok(s2)
                        && s2 == (DevWorkflowState { decisions: s2.decisions, last_updated: s2.last_updated, ..s })
                        && string_views(s2.decisions@) == string_views(s.decisions@).push(without_hyphens(id@)),
                },
            },
    {
        match recorded {
            Err(e) => Err(e),
            Ok(id) => match state {
                None => Err(not_started()),
                Some(s) => {
                    let simple = drop_hyphens(id.as_str());
                    let mut decisions = s.decisions;
                    let ghost before = decisions@;
                    decisions.push(simple);
                    assert(string_views(decisions@) =~= string_views(before).push(without_hyphens(id@)));
                    Ok(DevWorkflowState {
                        task_name: s.task_name,
                        current_phase: s.current_phase,
                        baseline_violations: s.baseline_violations,
                        decisions,
                        started_at: s.started_at,
                        last_updated: now_rfc3339(),
                    })
                },
            },
        }
    }

}

/// One line of the check list.
pub open spec fn check_line(c: PhaseCheck) -> Seq<char> {
    "    "@ + (if c.passed { "✅"@ } else { "❌"@ }) + " "@ + pad_right(c.name@, 20) + " - "@ + c.detail@ + "\n"@
}

pub open spec fn check_lines(cs: Seq<PhaseCheck>) -> Seq<char>
    decreases cs.len(),
{
    if cs.len() == 0 { Seq::empty() } else { check_lines(cs.drop_last()) + check_line(cs.last()) }
}

pub open spec fn warning_lines(ws: Seq<Seq<char>>) -> Seq<char>
    decreases ws.len(),
{
    if ws.len() == 0 { Seq::empty() } else { warning_lines(ws.drop_last()) + "    • "@ + ws.last() + "\n"@ }
}

/// The text report of a phase.
pub open spec fn phase_report(r: PhaseResult) -> Seq<char> {
    "\n"@ + phase_label(r.phase) + " "@ + repeat("═"@, 50) + "\n"@
        + "  耗时: "@ + decimal(r.duration_ms as nat) + "ms\n\n"@
        + "  检查结果:\n"@ + check_lines(r.checks@)
        + (if r.warnings@.len() > 0 { "\n  ⚠️  警告:\n"@ + warning_lines(string_views(r.warnings@)) } else { Seq::empty() })
        + "\n  阶段结果: "@ + (if r.success { "✅ 通过"@ } else { "❌ 失败"@ }) + "\n"@
}

fn push_check_line(o: &mut String, c: &PhaseCheck)
    ensures
        final(o)@ == old(o)@ + check_line(*c),
{
    let ghost o0 = o@;
    push_str(o, "    ");
    push_str(o, if c.passed { "✅" } else { "❌" });
    push_str(o, " ");
    push_padded(o, c.name.as_str(), 20);
    push_str(o, " - ");
    push_str(o, c.detail.as_str());
    push_str(o, "\n");
    assert(o@ =~= o0 + check_line(*c));
}

impl DevWorkflowService {
    /// The text report of a phase.
    pub fn format_phase_result(&self, result: &PhaseResult) -> (r: String)
        ensures
            r@ == phase_report(*result),
    {
        let mut o = owned("\n");
        push_str(&mut o, result.phase.label());
        push_str(&mut o, " ");
        push_repeat(&mut o, "═", 50);
        push_str(&mut o, "\n");
        push_str(&mut o, "  耗时: ");
        push_decimal_u64(&mut o, result.duration_ms);
        push_str(&mut o, "ms\n\n");
        push_str(&mut o, "  检查结果:\n");
        let ghost o1 = o@;
        for i in 0..result.checks.len()
            invariant
                o@ == o1 + check_lines(result.checks@.take(i as int)),
        {
            assert(result.checks@.take(i + 1).drop_last() =~= result.checks@.take(i as int));
            push_check_line(&mut o, &result.checks[i]);
        }
        assert(result.checks@.take(result.checks@.len() as int) =~= result.checks@);
        let ghost o2 = o@;
        let ghost wv = string_views(result.warnings@);
        if result.warnings.len() > 0 {
            push_str(&mut o, "\n  ⚠️  警告:\n");
            let ghost o3 = o@;
            for i in 0..result.warnings.len()
                invariant
                    wv == string_views(result.warnings@),
                    o@ == o3 + warning_lines(wv.take(i as int)),
            {
                assert(wv.take(i + 1).drop_last() =~= wv.take(i as int));
                assert(wv.take(i + 1).last() == result.warnings@[i as int]@);
                push_str(&mut o, "    • ");
                push_str(&mut o, result.warnings[i].as_str());
                push_str(&mut o, "\n");
                assert(o@ =~= o3 + warning_lines(wv.take(i + 1)));
            }
            assert(wv.take(wv.len() as int) =~= wv);
        }
        let ghost o4 = o@;
        push_str(&mut o, "\n  阶段结果: ");
        push_str(&mut o, if result.success { "✅ 通过" } else { "❌ 失败" });
        push_str(&mut o, "\n");
        assert(o@ =~= phase_report(*result));
        o
    }
}

} // verus!
