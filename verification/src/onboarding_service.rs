//! Onboarding: the tools a developer needs, and whether the project is
//! ready to work on.
use vstd::prelude::*;
use crate::text::{owned, push_str, push_decimal, decimal};
use crate::errors::CellResult;

verus! {

/// Whether a tool is installed, and how to install it.
#[derive(Debug, Clone)]
pub struct EnvCheckResult {
    pub name: String,
    pub installed: bool,
    pub version: Option<String>,
    pub required: bool,
    pub install_hint: Option<String>,
}

/// The checks of the environment, with the problems they found.
#[derive(Debug, Clone)]
pub struct OnboardingReport {
    pub checks: Vec<EnvCheckResult>,
    pub all_passed: bool,
    pub warnings: Vec<String>,
    pub errors: Vec<String>,
}

/// How far the project is set up.
#[derive(Debug, Clone, Copy, PartialEq, Eq, Structural)]
pub struct OnboardingStatus {
    pub initialized: bool,
    pub toolchain_built: bool,
    pub git_hooks_installed: bool,
    pub agent_registered: bool,
    pub baseline_established: bool,
    pub ready: bool,
}

/// The outcome of one onboarding step.
#[derive(Debug, Clone)]
pub struct OnboardingStepResult {
    pub name: String,
    pub success: bool,
    pub skipped: bool,
    pub message: String,
}

pub type CheckView = (Seq<char>, bool, Option<Seq<char>>, bool, Option<Seq<char>>);

pub open spec fn opt_view(o: Option<String>) -> Option<Seq<char>> {
    match o {
        Some(s) => Some(s@),
        None => None,
    }
}

pub open spec fn check_view(c: EnvCheckResult) -> CheckView {
    (c.name@, c.installed, opt_view(c.version), c.required, opt_view(c.install_hint))
}

/// The check of a required tool found at `version`, if found.
pub open spec fn tool_check(name: Seq<char>, version: Option<Seq<char>>, hint: Seq<char>) -> CheckView {
    match version {
        Some(v) => (name, true, Some(v), true, None),
        None => (name, false, None, true, Some(hint)),
    }
}

/// The checks for Rust, Cargo and Git, given the versions the tools report.
pub open spec fn environment_checks(rust: Option<Seq<char>>, cargo: Option<Seq<char>>, git: Option<Seq<char>>) -> Seq<CheckView> {
    seq![
        tool_check("Rust"@, rust, "请访问 https://rustup.rs/ 安装 Rust"@),
        tool_check("Cargo"@, cargo, "Cargo 随 Rust 一起安装，请先安装 Rust"@),
        tool_check("Git"@, git, "请安装 Git: https://git-scm.com/"@),
    ]
}

/// Errors for the missing required tools.
pub open spec fn check_errors(cs: Seq<CheckView>) -> Seq<Seq<char>>
    decreases cs.len(),
{
    if cs.len() == 0 {
        Seq::empty()
    } else {
        let c = cs.last();
        check_errors(cs.drop_last()) + if !c.1 && c.3 { seq![c.0 + " 未安装"@] } else { Seq::empty() }
    }
}

/// Warnings for the missing optional tools.
pub open spec fn check_warnings(cs: Seq<CheckView>) -> Seq<Seq<char>>
    decreases cs.len(),
{
    if cs.len() == 0 {
        Seq::empty()
    } else {
        let c = cs.last();
        check_warnings(cs.drop_last()) + if !c.1 && !c.3 { seq![c.0 + " 未安装（可选）"@] } else { Seq::empty() }
    }
}

pub open spec fn strings(v: Seq<String>) -> Seq<Seq<char>> {
    v.map_values(|s: String| s@)
}

fn tool(name: &str, version: &Option<String>, hint: &str) -> (r: EnvCheckResult)
    ensures
        check_view(r) == tool_check(name@, opt_view(*version), hint@),
{
    match version {
        Some(v) => EnvCheckResult {
            name: owned(name),
            installed: true,
            version: Some(owned(v.as_str())),
            required: true,
            install_hint: None,
        },
        None => EnvCheckResult {
            name: owned(name),
            installed: false,
            version: None,
            required: true,
            install_hint: Some(owned(hint)),
        },
    }
}

/// The status line of a check.
pub open spec fn check_status(c: CheckView) -> Seq<char> {
    if c.1 {
        "✅ 已安装 ("@ + (match c.2 { Some(v) => v, None => "unknown"@ }) + ")"@
    } else if c.3 {
        "❌ 未安装 (必需)"@
    } else {
        "⚠️  未安装 (可选)"@
    }
}

/// The lines of one check.
pub open spec fn check_line(c: CheckView) -> Seq<char> {
    "  "@ + c.0 + "\n"@ + "    状态: "@ + check_status(c) + "\n"@
        + (match c.4 { Some(h) => if !c.1 { "    提示: "@ + h + "\n"@ } else { Seq::empty() }, None => Seq::empty() })
}

pub open spec fn check_lines(cs: Seq<CheckView>) -> Seq<char>
    decreases cs.len(),
{
    if cs.len() == 0 {
        Seq::empty()
    } else {
        check_lines(cs.drop_last()) + check_line(cs.last())
    }
}

fn push_check(o: &mut String, c: &EnvCheckResult)
    ensures
        final(o)@ == old(o)@ + check_line(check_view(*c)),
{
    let ghost start = o@;
    push_str(o, "  ");
    push_str(o, c.name.as_str());
    push_str(o, "\n");
    push_str(o, "    状态: ");
    if c.installed {
        push_str(o, "✅ 已安装 (");
        match &c.version {
            Some(v) => push_str(o, v.as_str()),
            None => push_str(o, "unknown"),
        }
        push_str(o, ")");
    } else if c.required {
        push_str(o, "❌ 未安装 (必需)");
    } else {
        push_str(o, "⚠️  未安装 (可选)");
    }
    push_str(o, "\n");
    let ghost mid = o@;
    match &c.install_hint {
        Some(h) => {
            if !c.installed {
                push_str(o, "    提示: ");
                push_str(o, h.as_str());
                push_str(o, "\n");
            }
        },
        None => {},
    }
    proof {
        reveal_strlit("");
    }
    assert(o@ =~= start + check_line(check_view(*c)));
}

pub open spec fn dash_lines(xs: Seq<Seq<char>>) -> Seq<char>
    decreases xs.len(),
{
    if xs.len() == 0 { Seq::empty() } else { dash_lines(xs.drop_last()) + "   - "@ + xs.last() + "\n"@ }
}

/// The text of an environment report.
pub open spec fn doctor_text(r: OnboardingReport) -> Seq<char> {
    let cs = r.checks@.map_values(|c: EnvCheckResult| check_view(c));
    let e = strings(r.errors@);
    let w = strings(r.warnings@);
    "\n🩺 开发环境检测报告\n\n"@ + check_lines(cs) + "\n"@
        + (if r.all_passed { "✅ 所有必需工具已就绪\n"@ } else { "❌ 检测到 "@ + decimal(e.len()) + " 个问题\n"@ + dash_lines(e) })
        + (if w.len() == 0 { Seq::empty() } else { "\n⚠️  "@ + decimal(w.len()) + " 个警告:\n"@ + dash_lines(w) })
}

fn push_dashes(o: &mut String, xs: &Vec<String>)
    ensures
        final(o)@ == old(o)@ + dash_lines(strings(xs@)),
{
    let ghost start = o@;
    for i in 0..xs.len()
        invariant
            o@ == start + dash_lines(strings(xs@).take(i as int)),
    {
        push_str(o, "   - ");
        push_str(o, xs[i].as_str());
        push_str(o, "\n");
        assert(strings(xs@).take(i + 1).drop_last() =~= strings(xs@).take(i as int));
        assert(o@ =~= start + dash_lines(strings(xs@).take(i + 1)));
    }
    assert(strings(xs@).take(xs@.len() as int) =~= strings(xs@));
}

/// Checks the environment and reports on the project's setup.
pub struct OnboardingService;

impl OnboardingService {
    pub fn new() -> (r: Self) {
        OnboardingService
    }

    /// The report on the tools, given the version each reported, `None`
    /// for a tool that could not be run.
    pub fn check_environment(&self, rust: Option<String>, cargo: Option<String>, git: Option<String>) -> (r: CellResult<OnboardingReport>)
        ensures
            r is Ok,
            ({
                let rep = r->Ok_0;
                let cs = environment_checks(opt_view(rust), opt_view(cargo), opt_view(git));
                &&& rep.checks@.map_values(|c: EnvCheckResult| check_view(c)) == cs
                &&& strings(rep.errors@) == check_errors(cs)
                &&& strings(rep.warnings@) == check_warnings(cs)
                &&& rep.all_passed == (check_errors(cs).len() == 0)
            }),
    {
        let mut checks: Vec<EnvCheckResult> = Vec::new();
        checks.push(tool("Rust", &rust, "请访问 https://rustup.rs/ 安装 Rust"));
        checks.push(tool("Cargo", &cargo, "Cargo 随 Rust 一起安装，请先安装 Rust"));
        checks.push(tool("Git", &git, "请安装 Git: https://git-scm.com/"));
        let ghost cs = environment_checks(opt_view(rust), opt_view(cargo), opt_view(git));
        assert(checks@.map_values(|c: EnvCheckResult| check_view(c)) =~= cs);
        let mut warnings: Vec<String> = Vec::new();
        let mut errors: Vec<String> = Vec::new();
        for i in 0..checks.len()
            invariant
                checks@.map_values(|c: EnvCheckResult| check_view(c)) == cs,
                strings(errors@) == check_errors(cs.take(i as int)),
                strings(warnings@) == check_warnings(cs.take(i as int)),
        {
            let c = &checks[i];
            assert(cs.take(i + 1).drop_last() =~= cs.take(i as int));
            assert(cs[i as int] == check_view(checks@[i as int]));
            let ghost e0 = errors@;
            let ghost w0 = warnings@;
            if !c.installed && c.required {
                let mut m = owned(c.name.as_str());
                push_str(&mut m, " 未安装");
                errors.push(m);
                assert(strings(errors@) =~= strings(e0).push(m@));
            } else if !c.installed && !c.required {
                let mut m = owned(c.name.as_str());
                push_str(&mut m, " 未安装（可选）");
                warnings.push(m);
                assert(strings(warnings@) =~= strings(w0).push(m@));
            }
            assert(strings(errors@) =~= check_errors(cs.take(i + 1)));
            assert(strings(warnings@) =~= check_warnings(cs.take(i + 1)));
        }
        assert(cs.take(3) =~= cs);
        let all_passed = errors.len() == 0;
        Ok(OnboardingReport { checks, all_passed, warnings, errors })
    }

    /// The setup of the project; it is ready when every part is done.
    pub fn get_status(
        &self,
        initialized: bool,
        toolchain_built: bool,
        git_hooks_installed: bool,
        agent_registered: bool,
        baseline_established: bool,
    ) -> (r: CellResult<OnboardingStatus>)
        ensures
            r == Ok::<OnboardingStatus, crate::errors::CellError>(OnboardingStatus {
                initialized,
                toolchain_built,
                git_hooks_installed,
                agent_registered,
                baseline_established,
                ready: initialized && toolchain_built && git_hooks_installed && agent_registered && baseline_established,
            }),
    {
        Ok(OnboardingStatus {
            initialized,
            toolchain_built,
            git_hooks_installed,
            agent_registered,
            baseline_established,
            ready: initialized && toolchain_built && git_hooks_installed && agent_registered && baseline_established,
        })
    }

    /// The text of an environment report.
    pub fn format_doctor_report(&self, report: &OnboardingReport) -> (r: String)
        ensures
            r@ == doctor_text(*report),
    {
        let mut o = owned("\n🩺 开发环境检测报告\n\n");
        let ghost start = o@;
        let ghost cs = report.checks@.map_values(|c: EnvCheckResult| check_view(c));
        for i in 0..report.checks.len()
            invariant
                cs == report.checks@.map_values(|c: EnvCheckResult| check_view(c)),
                o@ == start + check_lines(cs.take(i as int)),
        {
            assert(cs.take(i + 1).drop_last() =~= cs.take(i as int));
            assert(cs[i as int] == check_view(report.checks@[i as int]));
            push_check(&mut o, &report.checks[i]);
            assert(o@ =~= start + check_lines(cs.take(i + 1)));
        }
        assert(cs.take(cs.len() as int) =~= cs);
        push_str(&mut o, "\n");
        if report.all_passed {
            push_str(&mut o, "✅ 所有必需工具已就绪\n");
        } else {
            push_str(&mut o, "❌ 检测到 ");
            push_decimal(&mut o, report.errors.len());
            push_str(&mut o, " 个问题\n");
            push_dashes(&mut o, &report.errors);
        }
        if report.warnings.len() > 0 {
            push_str(&mut o, "\n⚠️  ");
            push_decimal(&mut o, report.warnings.len());
            push_str(&mut o, " 个警告:\n");
            push_dashes(&mut o, &report.warnings);
        }
        assert(o@ =~= doctor_text(*report));
        o
    }
}

impl Default for OnboardingService {
    fn default() -> (r: Self) {
        OnboardingService
    }
}

} // verus!
