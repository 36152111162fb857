//! The development environment: what to do next, and the context snapshot
//! handed to the next agent.
use vstd::prelude::*;
use crate::text::{owned, push_str, push_decimal, decimal, str_eq};

verus! {

/// A suggested next step.
#[derive(Debug, Clone)]
pub struct NextStepSuggestion {
    pub priority: u8,
    pub title: String,
    pub command: String,
    pub reason: String,
}

/// What the environment knows of the current work, as the suggestions use it.
#[derive(Debug, Clone)]
pub struct DevEnvFacts {
    pub agent_id: String,
    pub current_phase: String,
    pub architecture_healthy: bool,
    pub git_dirty: bool,
}

/// The state of the development environment. The entropy score, a
/// floating-point measure, is kept by the caller beside it.
#[derive(Debug, Clone)]
pub struct DevEnvStatus {
    pub agent_id: String,
    pub agent_role: String,
    pub current_phase: String,
    pub architecture_healthy: bool,
    pub entropy_level: String,
    pub entropy_trend: String,
    pub pending_tasks: usize,
    pub active_features: Vec<String>,
    pub pending_decisions: usize,
    pub git_branch: String,
    pub git_dirty: bool,
}

/// `o`'s text, or `d` when there is none.
pub open spec fn or_default(o: Option<String>, d: Seq<char>) -> Seq<char> {
    match o {
        Some(s) => s@,
        None => d,
    }
}

/// A summary of the project for the next agent.
#[derive(Debug, Clone)]
pub struct ContextSnapshot {
    pub project_name: String,
    pub architecture_summary: String,
    pub key_decisions: Vec<String>,
    pub current_tasks: Vec<String>,
    pub active_features: Vec<String>,
    pub known_issues: Vec<String>,
    pub next_steps: Vec<String>,
    pub generated_at: String,
}

pub type Step = (u8, Seq<char>, Seq<char>, Seq<char>);

pub open spec fn step_view(s: NextStepSuggestion) -> Step {
    (s.priority, s.title@, s.command@, s.reason@)
}

pub open spec fn steps_view(ss: Seq<NextStepSuggestion>) -> Seq<Step> {
    ss.map_values(|s: NextStepSuggestion| step_view(s))
}

/// The steps for the phase the work is in.
pub open spec fn phase_steps(phase: Seq<char>, dirty: bool) -> Seq<Step> {
    if phase == "Idle"@ {
        seq![
            (1u8, "查看待处理任务"@, "cell task list"@, "当前没有进行中的任务，先看看有什么活可以干"@),
            (2u8, "了解项目架构"@, "cell arch status"@, "熟悉一下项目的架构现状和健康度"@),
        ]
    } else if phase == "Designing"@ {
        seq![(1u8, "继续设计阶段"@, "cell dev design"@, "当前处于设计阶段，完成架构设计后进入编码"@)]
    } else if phase == "Coding"@ {
        seq![(1u8, "代码检查点"@, "cell dev checkpoint"@, "编码一段时间了，跑一下检查看看质量"@)] + if dirty {
            seq![(2u8, "提交当前进度"@, "git add . && git commit"@, "工作区有未提交的改动，建议先提交保存进度"@)]
        } else {
            Seq::empty()
        }
    } else if phase == "Verifying"@ {
        seq![(1u8, "运行完整验证"@, "cell dev verify --deep"@, "当前处于验证阶段，运行深度验证确保质量"@)]
    } else {
        seq![(1u8, "查看工作流状态"@, "cell dev status"@, "看看当前进展到哪一步了"@)]
    }
}

/// The suggested next steps, by priority.
pub open spec fn suggestions(f: DevEnvFacts) -> Seq<Step> {
    if f.agent_id@ == "unregistered"@ {
        seq![(1u8, "注册 Agent 身份"@, "cell dev start"@, "尚未注册 Agent 身份，需要先初始化开发环境"@)]
    } else {
        phase_steps(f.current_phase@, f.git_dirty) + if !f.architecture_healthy {
            seq![(10u8, "修复架构问题"@, "cell arch lint --fix"@, "架构健康度不达标，需要先修复违规"@)]
        } else {
            Seq::empty()
        }
    }
}

fn step(priority: u8, title: &str, command: &str, reason: &str) -> (r: NextStepSuggestion)
    ensures
        step_view(r) == (priority, title@, command@, reason@),
{
    NextStepSuggestion { priority, title: owned(title), command: owned(command), reason: owned(reason) }
}

/// The entry for step `i` of a list of steps.
pub open spec fn step_lines(ss: Seq<Step>, n: nat) -> Seq<char>
    decreases n,
{
    if n == 0 || n > ss.len() {
        Seq::empty()
    } else {
        let s = ss[n - 1];
        step_lines(ss, (n - 1) as nat) + "  "@ + decimal(n) + ". "@ + s.1 + " [优先级: "@ + decimal(s.0 as nat) + "]\n"@
            + "     命令: "@ + s.2 + "\n"@ + "     原因: "@ + s.3 + "\n\n"@
    }
}

/// A bulleted list, or `empty` when there is nothing to list.
pub open spec fn bullets(xs: Seq<Seq<char>>, n: nat) -> Seq<char>
    decreases n,
{
    if n == 0 || n > xs.len() { Seq::empty() } else { bullets(xs, (n - 1) as nat) + "- "@ + xs[n - 1] + "\n"@ }
}

pub open spec fn issue_bullets(xs: Seq<Seq<char>>, n: nat) -> Seq<char>
    decreases n,
{
    if n == 0 || n > xs.len() { Seq::empty() } else { issue_bullets(xs, (n - 1) as nat) + "- ⚠️  "@ + xs[n - 1] + "\n"@ }
}

pub open spec fn numbered(xs: Seq<Seq<char>>, n: nat) -> Seq<char>
    decreases n,
{
    if n == 0 || n > xs.len() { Seq::empty() } else { numbered(xs, (n - 1) as nat) + decimal(n) + ". "@ + xs[n - 1] + "\n"@ }
}

pub open spec fn strings(v: Seq<String>) -> Seq<Seq<char>> {
    v.map_values(|s: String| s@)
}

/// The text of a context snapshot.
pub open spec fn snapshot_text(s: ContextSnapshot) -> Seq<char> {
    let d = strings(s.key_decisions@);
    let t = strings(s.current_tasks@);
    let k = strings(s.known_issues@);
    let x = strings(s.next_steps@);
    "# 项目上下文快照: "@ + s.project_name@ + "\n\n"@ + "> 生成时间: "@ + s.generated_at@ + "\n\n"@
        + "## 架构概览\n\n"@ + "- "@ + s.architecture_summary@ + "\n\n"@
        + "## 关键决策\n\n"@ + (if d.len() == 0 { "- 暂无记录\n"@ } else { bullets(d, d.len()) }) + "\n"@
        + "## 当前任务\n\n"@ + (if t.len() == 0 { "- 暂无任务\n"@ } else { bullets(t, t.len()) }) + "\n"@
        + (if k.len() == 0 { Seq::empty() } else { "## 已知问题\n\n"@ + issue_bullets(k, k.len()) + "\n"@ })
        + "## 下一步建议\n\n"@ + numbered(x, x.len())
}

fn push_bullets(out: &mut String, xs: &Vec<String>, prefix: &str)
    requires
        prefix@ == "- "@ || prefix@ == "- ⚠️  "@,
    ensures
        prefix@ == "- "@ ==> final(out)@ == old(out)@ + bullets(strings(xs@), xs@.len()),
        prefix@ == "- ⚠️  "@ ==> final(out)@ == old(out)@ + issue_bullets(strings(xs@), xs@.len()),
{
    let ghost start = out@;
    let ghost v = strings(xs@);
    for i in 0..xs.len()
        invariant
            v == strings(xs@),
            prefix@ == "- "@ ==> out@ == start + bullets(v, i as nat),
            prefix@ == "- ⚠️  "@ ==> out@ == start + issue_bullets(v, i as nat),
    {
        push_str(out, prefix);
        push_str(out, xs[i].as_str());
        push_str(out, "\n");
        proof {
            assert(v[i as int] == xs@[i as int]@);
            if prefix@ == "- "@ {
                assert(out@ =~= start + bullets(v, (i + 1) as nat));
            }
            if prefix@ == "- ⚠️  "@ {
                assert(out@ =~= start + issue_bullets(v, (i + 1) as nat));
            }
        }
    }
}

/// Gives next steps and formats what the environment reports.
pub struct DevEnvService;

impl DevEnvService {
    pub fn new() -> (r: Self) {
        DevEnvService
    }

    /// The status from what the project holds: the registered agent (or
    /// `unregistered`), the phase of the progress log (or `Idle`), the
    /// entropy level of the baseline (or `Unknown`), the git branch (or
    /// `unknown`); the agent works as a developer and the trend is stable.
    pub fn get_status(&self, agent_id: Option<String>, current_phase: Option<String>, architecture_healthy: bool,
        entropy_level: Option<String>, pending_tasks: usize, pending_decisions: usize, git_branch: Option<String>,
        git_dirty: bool) -> (r: DevEnvStatus)
        ensures
            r.agent_id@ == or_default(agent_id, "unregistered"@),
            r.agent_role@ == "Developer"@,
            r.current_phase@ == or_default(current_phase, "Idle"@),
            r.architecture_healthy == architecture_healthy,
            r.entropy_level@ == or_default(entropy_level, "Unknown"@),
            r.entropy_trend@ == "stable"@,
            r.pending_tasks == pending_tasks,
            r.active_features@.len() == 0,
            r.pending_decisions == pending_decisions,
            r.git_branch@ == or_default(git_branch, "unknown"@),
            r.git_dirty == git_dirty,
    {
        DevEnvStatus {
            agent_id: match agent_id { Some(a) => a, None => owned("unregistered") },
            agent_role: owned("Developer"),
            current_phase: match current_phase { Some(p) => p, None => owned("Idle") },
            architecture_healthy,
            entropy_level: match entropy_level { Some(l) => l, None => owned("Unknown") },
            entropy_trend: owned("stable"),
            pending_tasks,
            active_features: Vec::new(),
            pending_decisions,
            git_branch: match git_branch { Some(b) => b, None => owned("unknown") },
            git_dirty,
        }
    }

    /// The facts the suggestions use, taken from a status.
    pub fn facts_of(&self, status: &DevEnvStatus) -> (r: DevEnvFacts)
        ensures
            r.agent_id@ == status.agent_id@,
            r.current_phase@ == status.current_phase@,
            r.architecture_healthy == status.architecture_healthy,
            r.git_dirty == status.git_dirty,
    {
        DevEnvFacts {
            agent_id: owned(status.agent_id.as_str()),
            current_phase: owned(status.current_phase.as_str()),
            architecture_healthy: status.architecture_healthy,
            git_dirty: status.git_dirty,
        }
    }

    /// The suggested next steps, lowest priority number first.
    pub fn get_next_suggestions(&self, facts: &DevEnvFacts) -> (r: Vec<NextStepSuggestion>)
        ensures
            steps_view(r@) == suggestions(*facts),
            forall|i: int, j: int| 0 <= i < j < r@.len() ==> r@[i].priority <= r@[j].priority,
    {
        let mut r: Vec<NextStepSuggestion> = Vec::new();
        if str_eq(facts.agent_id.as_str(), "unregistered") {
            r.push(step(1, "注册 Agent 身份", "cell dev start", "尚未注册 Agent 身份，需要先初始化开发环境"));
            assert(steps_view(r@) =~= suggestions(*facts));
            return r;
        }
        let p = facts.current_phase.as_str();
        if str_eq(p, "Idle") {
            r.push(step(1, "查看待处理任务", "cell task list", "当前没有进行中的任务，先看看有什么活可以干"));
            r.push(step(2, "了解项目架构", "cell arch status", "熟悉一下项目的架构现状和健康度"));
        } else if str_eq(p, "Designing") {
            r.push(step(1, "继续设计阶段", "cell dev design", "当前处于设计阶段，完成架构设计后进入编码"));
        } else if str_eq(p, "Coding") {
            r.push(step(1, "代码检查点", "cell dev checkpoint", "编码一段时间了，跑一下检查看看质量"));
            if facts.git_dirty {
                r.push(step(2, "提交当前进度", "git add . && git commit", "工作区有未提交的改动，建议先提交保存进度"));
            }
        } else if str_eq(p, "Verifying") {
            r.push(step(1, "运行完整验证", "cell dev verify --deep", "当前处于验证阶段，运行深度验证确保质量"));
        } else {
            r.push(step(1, "查看工作流状态", "cell dev status", "看看当前进展到哪一步了"));
        }
        assert(steps_view(r@) =~= phase_steps(facts.current_phase@, facts.git_dirty));
        if !facts.architecture_healthy {
            r.push(step(10, "修复架构问题", "cell arch lint --fix", "架构健康度不达标，需要先修复违规"));
        }
        assert(steps_view(r@) =~= suggestions(*facts));
        r
    }

    /// The numbered list of suggestions.
    pub fn format_suggestions(&self, suggestions: &[NextStepSuggestion]) -> (r: String)
        ensures
            r@ == "\n💡 下一步建议\n\n"@ + step_lines(steps_view(suggestions@), suggestions@.len()),
    {
        let mut o = owned("\n💡 下一步建议\n\n");
        let ghost start = o@;
        let ghost v = steps_view(suggestions@);
        for i in 0..suggestions.len()
            invariant
                v == steps_view(suggestions@),
                i <= suggestions@.len(),
                o@ == start + step_lines(v, i as nat),
        {
            let s = &suggestions[i];
            push_str(&mut o, "  ");
            push_decimal(&mut o, i + 1);
            push_str(&mut o, ". ");
            push_str(&mut o, s.title.as_str());
            push_str(&mut o, " [优先级: ");
            push_decimal(&mut o, s.priority as usize);
            push_str(&mut o, "]\n");
            push_str(&mut o, "     命令: ");
            push_str(&mut o, s.command.as_str());
            push_str(&mut o, "\n");
            push_str(&mut o, "     原因: ");
            push_str(&mut o, s.reason.as_str());
            push_str(&mut o, "\n\n");
            assert(v[i as int] == step_view(suggestions@[i as int]));
            assert(o@ =~= start + step_lines(v, (i + 1) as nat));
        }
        o
    }

    /// The snapshot of the project: the known issue follows from the
    /// architecture's health, the next steps from the suggestions.
    pub fn context_snapshot(
        &self,
        project_name: &str,
        architecture_summary: &str,
        key_decisions: Vec<String>,
        current_tasks: Vec<String>,
        active_features: Vec<String>,
        architecture_healthy: bool,
        suggestions: &[NextStepSuggestion],
        generated_at: &str,
    ) -> (r: ContextSnapshot)
        ensures
            r.project_name@ == project_name@,
            r.architecture_summary@ == architecture_summary@,
            r.key_decisions@ == key_decisions@,
            r.current_tasks@ == current_tasks@,
            r.active_features@ == active_features@,
            strings(r.known_issues@) == if architecture_healthy { Seq::<Seq<char>>::empty() } else { seq!["架构健康度不达标，需要修复"@] },
            strings(r.next_steps@) == suggestions@.map_values(|s: NextStepSuggestion| s.title@ + " - "@ + s.command@),
            r.generated_at@ == generated_at@,
    {
        let mut known: Vec<String> = Vec::new();
        if !architecture_healthy {
            known.push(owned("架构健康度不达标，需要修复"));
        }
        let mut steps: Vec<String> = Vec::new();
        for i in 0..suggestions.len()
            invariant
                strings(steps@) == suggestions@.take(i as int).map_values(|s: NextStepSuggestion| s.title@ + " - "@ + s.command@),
        {
            let mut line = owned(suggestions[i].title.as_str());
            push_str(&mut line, " - ");
            push_str(&mut line, suggestions[i].command.as_str());
            let ghost before = steps@;
            steps.push(line);
            assert(strings(steps@) =~= strings(before).push(line@));
            assert(suggestions@.take(i + 1) =~= suggestions@.take(i as int).push(suggestions@[i as int]));
            assert(strings(steps@) =~= suggestions@.take(i + 1).map_values(|s: NextStepSuggestion| s.title@ + " - "@ + s.command@));
        }
        assert(suggestions@.take(suggestions@.len() as int) =~= suggestions@);
        proof {
            if architecture_healthy {
                assert(strings(known@) =~= Seq::<Seq<char>>::empty());
            } else {
                assert(strings(known@) =~= seq!["架构健康度不达标，需要修复"@]);
            }
        }
        ContextSnapshot {
            project_name: owned(project_name),
            architecture_summary: owned(architecture_summary),
            key_decisions,
            current_tasks,
            active_features,
            known_issues: known,
            next_steps: steps,
            generated_at: owned(generated_at),
        }
    }

    /// The text of a context snapshot.
    pub fn format_context_snapshot(&self, snapshot: &ContextSnapshot) -> (r: String)
        ensures
            r@ == snapshot_text(*snapshot),
    {
        let s = snapshot;
        let mut o = owned("# 项目上下文快照: ");
        push_str(&mut o, s.project_name.as_str());
        push_str(&mut o, "\n\n");
        push_str(&mut o, "> 生成时间: ");
        push_str(&mut o, s.generated_at.as_str());
        push_str(&mut o, "\n\n");
        push_str(&mut o, "## 架构概览\n\n");
        push_str(&mut o, "- ");
        push_str(&mut o, s.architecture_summary.as_str());
        push_str(&mut o, "\n\n");
        push_str(&mut o, "## 关键决策\n\n");
        let ghost a = o@;
        if s.key_decisions.len() == 0 {
            push_str(&mut o, "- 暂无记录\n");
        } else {
            proof { reveal_strlit("- "); }
            push_bullets(&mut o, &s.key_decisions, "- ");
        }
        push_str(&mut o, "\n");
        push_str(&mut o, "## 当前任务\n\n");
        if s.current_tasks.len() == 0 {
            push_str(&mut o, "- 暂无任务\n");
        } else {
            proof { reveal_strlit("- "); }
            push_bullets(&mut o, &s.current_tasks, "- ");
        }
        push_str(&mut o, "\n");
        let ghost b = o@;
        if s.known_issues.len() > 0 {
            push_str(&mut o, "## 已知问题\n\n");
            proof { reveal_strlit("- ⚠️  "); reveal_strlit("- "); }
            push_bullets(&mut o, &s.known_issues, "- ⚠️  ");
            push_str(&mut o, "\n");
        }
        push_str(&mut o, "## 下一步建议\n\n");
        let ghost c = o@;
        let ghost x = strings(s.next_steps@);
        for i in 0..s.next_steps.len()
            invariant
                x == strings(s.next_steps@),
                o@ == c + numbered(x, i as nat),
        {
            push_decimal(&mut o, i + 1);
            push_str(&mut o, ". ");
            push_str(&mut o, s.next_steps[i].as_str());
            push_str(&mut o, "\n");
            assert(x[i as int] == s.next_steps@[i as int]@);
            assert(o@ =~= c + numbered(x, (i + 1) as nat));
        }
        proof {
            if s.key_decisions@.len() == 0 { assert(strings(s.key_decisions@).len() == 0); }
            if s.current_tasks@.len() == 0 { assert(strings(s.current_tasks@).len() == 0); }
        }
        assert(o@ =~= snapshot_text(*snapshot));
        o
    }
}

impl Default for DevEnvService {
    fn default() -> (r: Self) {
        DevEnvService
    }
}

} // verus!
